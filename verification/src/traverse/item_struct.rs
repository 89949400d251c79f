//! Mirroring one record definition: look its path up in the specification
//! tree, strip the optional wrapper off the fields marked required, and
//! reject markers that do not fit the record.

use vstd::prelude::*;

use crate::config::Config;
use crate::paths::clone_string_vec;
use crate::paths::string_vec_contains;
use crate::schema::FieldDef;
use crate::schema::FieldDefV;
use crate::schema::Struct;
use crate::schema::StructV;
use crate::schema::field_defs_view;
use crate::spec_tree::SpecTreeLeaf;
use crate::spec_tree::SpecTreeLeafV;
use crate::spec_tree::SpecTreeNodeV;
use crate::spec_tree::get_spec;
use crate::traverse::TraverseError;
use crate::traverse::TraverseErrorV;
use crate::type_path::is_option_spec;
use crate::type_path::is_std_option_type;
use crate::type_path::maybe_unwrap_option_type;

verus! {

/// The names of a record's fields, in declared order.
pub open spec fn struct_field_names(fs: Seq<FieldDefV>) -> Seq<Seq<char>> {
    fs.map_values(|f: FieldDefV| f.name)
}

/// The required-field names that match no field of the record, in the
/// order the configuration listed them.
pub open spec fn missing_names(req: Seq<Seq<char>>, names: Seq<Seq<char>>) -> Seq<Seq<char>>
    decreases req.len(),
{
    if req.len() == 0 {
        Seq::empty()
    } else if names.contains(req[0]) {
        missing_names(req.drop_first(), names)
    } else {
        seq![req[0]] + missing_names(req.drop_first(), names)
    }
}

/// The mirror of a record's fields under the required-field set: a required
/// field must be an optional and loses one level of wrapping; the first
/// field that is marked required but not optional decides the error; every
/// other field keeps its declared type.
pub open spec fn spec_mirror_fields(
    fqn: Seq<Seq<char>>,
    req: Seq<Seq<char>>,
    fs: Seq<FieldDefV>,
) -> Result<Seq<FieldDefV>, TraverseErrorV>
    decreases fs.len(),
{
    if fs.len() == 0 {
        Ok(Seq::empty())
    } else {
        let f = fs[0];
        if req.contains(f.name) {
            if is_option_spec(f.ty) {
                match spec_mirror_fields(fqn, req, fs.drop_first()) {
                    Err(e) => Err(e),
                    Ok(ws) => Ok(seq![FieldDefV { name: f.name, ty: f.ty.args[0] }] + ws),
                }
            } else {
                Err(TraverseErrorV::FieldNotOptional { fqn, field: f.name, ty: f.ty })
            }
        } else {
            match spec_mirror_fields(fqn, req, fs.drop_first()) {
                Err(e) => Err(e),
                Ok(ws) => Ok(seq![f] + ws),
            }
        }
    }
}

/// The mirror definition of one record. No marker: the record is copied as
/// it stands. A union marker on a record path is a hard mismatch. A record
/// marker strips the required fields' optional wrapper; required names that
/// match no field are a hard error listing exactly the unmatched names.
pub open spec fn spec_mirror_struct(
    tree: SpecTreeNodeV,
    path: Seq<Seq<char>>,
    s: StructV,
) -> Result<StructV, TraverseErrorV> {
    match get_spec(tree, path) {
        Option::None => Ok(s),
        Option::Some(leaf) => match leaf {
            SpecTreeLeafV::Enum(_) => Err(TraverseErrorV::ExpectedEnumFoundStruct { fqn: path }),
            SpecTreeLeafV::Struct(sp) => match spec_mirror_fields(path, sp.fields, s.fields) {
                Err(e) => Err(e),
                Ok(fs) => {
                    let missing = missing_names(sp.fields, struct_field_names(s.fields));
                    if missing.len() > 0 {
                        Err(TraverseErrorV::MissingFields { fqn: path, fields: missing })
                    } else {
                        Ok(StructV { name: s.name, fields: fs })
                    }
                },
            },
        },
    }
}

/// Law: a successful field mirror keeps every field's name and position and
/// changes exactly the types of the fields marked required, each from an
/// optional to its content type; every other field's type is untouched.
pub proof fn lemma_mirror_fields_shape(
    fqn: Seq<Seq<char>>,
    req: Seq<Seq<char>>,
    fs: Seq<FieldDefV>,
)
    ensures
        spec_mirror_fields(fqn, req, fs) matches Ok(ws) ==> {
            &&& ws.len() == fs.len()
            &&& forall|k: int|
                0 <= k < fs.len() ==> (#[trigger] ws[k]).name == fs[k].name
            &&& forall|k: int|
                0 <= k < fs.len() && #[trigger] req.contains(fs[k].name) ==> is_option_spec(
                    fs[k].ty,
                ) && ws[k].ty == fs[k].ty.args[0]
            &&& forall|k: int|
                0 <= k < fs.len() && !(#[trigger] req.contains(fs[k].name)) ==> ws[k].ty
                    == fs[k].ty
        },
    decreases fs.len(),
{
    if fs.len() > 0 {
        lemma_mirror_fields_shape(fqn, req, fs.drop_first());
        match spec_mirror_fields(fqn, req, fs) {
            Ok(ws) => {
                match spec_mirror_fields(fqn, req, fs.drop_first()) {
                    Ok(rest) => {
                        let head = if req.contains(fs[0].name) {
                            FieldDefV { name: fs[0].name, ty: fs[0].ty.args[0] }
                        } else {
                            fs[0]
                        };
                        assert(ws == seq![head] + rest);
                        assert(ws.len() == fs.len());
                        assert forall|k: int|
                            0 <= k < fs.len() implies (#[trigger] ws[k]).name == fs[k].name by {
                            if k > 0 {
                                assert(ws[k] == rest[k - 1]);
                                assert(fs.drop_first()[k - 1] == fs[k]);
                            }
                        }
                        assert forall|k: int|
                            0 <= k < fs.len() && #[trigger] req.contains(fs[k].name)
                            implies is_option_spec(fs[k].ty) && ws[k].ty == fs[k].ty.args[0] by {
                            if k == 0 {
                                assert(is_option_spec(fs[0].ty));
                                assert(ws[0] == head);
                            } else {
                                assert(ws[k] == rest[k - 1]);
                                assert(fs.drop_first()[k - 1] == fs[k]);
                                assert(req.contains(fs.drop_first()[k - 1].name));
                                assert(is_option_spec(fs.drop_first()[k - 1].ty));
                            }
                        }
                        assert forall|k: int|
                            0 <= k < fs.len() && !(#[trigger] req.contains(fs[k].name))
                            implies ws[k].ty == fs[k].ty by {
                            if k > 0 {
                                assert(ws[k] == rest[k - 1]);
                                assert(fs.drop_first()[k - 1] == fs[k]);
                            }
                        }
                    }
                    Err(_) => {
                        // a whole-fields mirror only succeeds when the rest does
                        assert(false);
                    }
                }
            }
            Err(_) => {
            }
        }
    }
}

// ---------------------------------------------------------------------------
// Executable mirroring
// ---------------------------------------------------------------------------

/// A structurally equal copy of a field definition.
fn duplicate_field(f: &FieldDef) -> (r: FieldDef)
    ensures
        r@ == f@,
{
    FieldDef { name: f.name.clone(), ty: f.ty.duplicate() }
}

/// A structurally equal copy of a record definition.
fn duplicate_struct(item: &Struct) -> (r: Struct)
    ensures
        r@ == item@,
{
    let mut fields: Vec<FieldDef> = Vec::new();
    let mut i: usize = 0;
    #[verifier::loop_isolation(false)]
    while i < item.fields.len()
        invariant
            i <= item.fields.len(),
            fields@.len() == i,
            forall|k: int| 0 <= k < i ==> (#[trigger] fields@[k])@ == item.fields@[k]@,
        decreases item.fields.len() - i,
    {
        let f = duplicate_field(&item.fields[i]);
        fields.push(f);
        i = i + 1;
    }
    let r = Struct { name: item.name.clone(), fields };
    proof {
        assert(field_defs_view(r.fields@) =~= field_defs_view(item.fields@));
    }
    r
}

/// Whether the record declares a field with the given name.
#[verifier::loop_isolation(false)]
fn field_named(fields: &Vec<FieldDef>, name: &String) -> (r: bool)
    ensures
        r == struct_field_names(field_defs_view(fields@)).contains(name@),
{
    let ghost names = struct_field_names(field_defs_view(fields@));
    proof {
        assert(names.len() == fields@.len());
    }
    let mut i: usize = 0;
    while i < fields.len()
        invariant
            i <= fields.len(),
            forall|k: int| 0 <= k < i ==> names[k] != name@,
        decreases fields.len() - i,
    {
        proof {
            assert(names[i as int] == fields@[i as int].name@);
        }
        if fields[i].name == *name {
            proof {
                assert(names[i as int] == name@);
            }
            return true;
        }
        i = i + 1;
    }
    proof {
        if names.contains(name@) {
            let k = choose|k: int| 0 <= k < names.len() && names[k] == name@;
            assert(false);
        }
    }
    false
}

/// Collects the required names with no matching field, from position `i`
/// on, in configuration order.
fn collect_missing_from(
    req: &Vec<String>,
    fields: &Vec<FieldDef>,
    i: usize,
    out: &mut Vec<String>,
) -> (u: ())
    requires
        i <= req.len(),
    ensures
        final(out).deep_view() == old(out).deep_view() + missing_names(
            req.deep_view().skip(i as int),
            struct_field_names(field_defs_view(fields@)),
        ),
    decreases req.len() - i,
{
    let ghost names = struct_field_names(field_defs_view(fields@));
    if i == req.len() {
        proof {
            assert(req.deep_view().skip(i as int) =~= Seq::<Seq<char>>::empty());
            assert(out.deep_view() + Seq::<Seq<char>>::empty() =~= out.deep_view());
        }
        return ;
    }
    let ghost s = req.deep_view().skip(i as int);
    proof {
        assert(s[0] == req.deep_view()[i as int]);
        assert(req.deep_view()[i as int] == req@[i as int]@);
        assert(s.drop_first() =~= req.deep_view().skip(i as int + 1));
    }
    let present = field_named(fields, &req[i]);
    if present {
        collect_missing_from(req, fields, i + 1, out);
    } else {
        let ghost mid = out.deep_view();
        out.push(req[i].clone());
        proof {
            assert forall|k: int| 0 <= k < mid.len() implies out.deep_view()[k] == mid[k] by {}
            assert(out.deep_view()[mid.len() as int] == req.deep_view()[i as int]);
            assert(out.deep_view() =~= mid.push(req.deep_view()[i as int]));
        }
        collect_missing_from(req, fields, i + 1, out);
        proof {
            let rest = missing_names(s.drop_first(), names);
            assert(out.deep_view() == mid.push(s[0]) + rest);
            assert(mid.push(s[0]) + rest =~= mid + (seq![s[0]] + rest));
        }
    }
}

/// Mirrors the fields from position `i` on, appending the mirrored fields
/// to `out` in declared order; stops at the first misplaced marker.
fn mirror_fields_from(
    fqn: &Vec<String>,
    req: &Vec<String>,
    fields: &Vec<FieldDef>,
    i: usize,
    out: &mut Vec<FieldDef>,
) -> (r: Result<(), TraverseError>)
    requires
        i <= fields.len(),
    ensures
        match r {
            Ok(_) => spec_mirror_fields(
                fqn.deep_view(),
                req.deep_view(),
                field_defs_view(fields@.skip(i as int)),
            ) matches Ok(ws) && field_defs_view(final(out)@) == field_defs_view(old(out)@) + ws,
            Err(e) => spec_mirror_fields(
                fqn.deep_view(),
                req.deep_view(),
                field_defs_view(fields@.skip(i as int)),
            ) == Err::<Seq<FieldDefV>, TraverseErrorV>(e@),
        },
    decreases fields.len() - i,
{
    if i == fields.len() {
        proof {
            assert(fields@.skip(i as int) =~= Seq::<FieldDef>::empty());
            assert(field_defs_view(fields@.skip(i as int)) =~= Seq::<FieldDefV>::empty());
            assert(field_defs_view(out@) + Seq::<FieldDefV>::empty() =~= field_defs_view(out@));
        }
        return Ok(());
    }
    let ghost s = fields@.skip(i as int);
    let ghost sv = field_defs_view(s);
    proof {
        assert(sv[0] == fields@[i as int]@);
        assert(field_defs_view(s.drop_first()) =~= sv.drop_first());
        assert(s.drop_first() =~= fields@.skip(i as int + 1));
    }
    let f = &fields[i];
    let mirrored: FieldDef;
    if string_vec_contains(req, &f.name) {
        if is_std_option_type(&f.ty) {
            match maybe_unwrap_option_type(&f.ty) {
                Option::Some(inner) => {
                    mirrored = FieldDef { name: f.name.clone(), ty: inner.duplicate() };
                }
                Option::None => {
                    // an optional type always carries its content argument
                    proof {
                        assert(false);
                    }
                    return Err(
                        TraverseError::FieldNotOptional {
                            fqn: clone_string_vec(fqn),
                            field: f.name.clone(),
                            ty: f.ty.duplicate(),
                        },
                    );
                }
            }
        } else {
            return Err(
                TraverseError::FieldNotOptional {
                    fqn: clone_string_vec(fqn),
                    field: f.name.clone(),
                    ty: f.ty.duplicate(),
                },
            );
        }
    } else {
        mirrored = duplicate_field(f);
    }
    let ghost mv = mirrored@;
    let ghost mid = out@;
    out.push(mirrored);
    proof {
        assert(field_defs_view(out@) =~= field_defs_view(mid).push(mv));
    }
    match mirror_fields_from(fqn, req, fields, i + 1, out) {
        Err(e) => Err(e),
        Ok(u) => {
            proof {
                match spec_mirror_fields(
                    fqn.deep_view(),
                    req.deep_view(),
                    field_defs_view(s.drop_first()),
                ) {
                    Ok(ws2) => {
                        assert(field_defs_view(out@) == (field_defs_view(mid).push(mv)) + ws2);
                        assert((field_defs_view(mid).push(mv)) + ws2 =~= field_defs_view(mid) + (
                        seq![mv] + ws2));
                    }
                    Err(_) => {
                    }
                }
            }
            Ok(u)
        }
    }
}

impl Struct {
    /// The mirror definition of this record at the path on the stack; see
    /// `spec_mirror_struct` for exactly what is produced or rejected.
    pub fn traverse(config: &Config, item: &Struct, ident_stack: &Vec<String>) -> (r: Result<
        Struct,
        TraverseError,
    >)
        ensures
            match r {
                Ok(m) => spec_mirror_struct(
                    config@.spec_tree,
                    ident_stack.deep_view(),
                    item@,
                ) == Ok::<StructV, TraverseErrorV>(m@),
                Err(e) => spec_mirror_struct(config@.spec_tree, ident_stack.deep_view(), item@)
                    == Err::<StructV, TraverseErrorV>(e@),
            },
    {
        match config.spec_tree.get_leaf(ident_stack) {
            Option::None => Ok(duplicate_struct(item)),
            Option::Some(leaf) => match leaf {
                SpecTreeLeaf::Enum(_) => Err(
                    TraverseError::ExpectedEnumFoundStruct { fqn: clone_string_vec(ident_stack) },
                ),
                SpecTreeLeaf::Struct(sp) => {
                    let mut mirrored: Vec<FieldDef> = Vec::new();
                    proof {
                        assert(item.fields@.skip(0) =~= item.fields@);
                        assert(field_defs_view(Seq::<FieldDef>::empty()) =~= Seq::<
                            FieldDefV,
                        >::empty());
                    }
                    match mirror_fields_from(ident_stack, &sp.fields, &item.fields, 0, &mut mirrored) {
                        Err(e) => Err(e),
                        Ok(_) => {
                            let mut missing: Vec<String> = Vec::new();
                            proof {
                                assert(sp.fields.deep_view().skip(0) =~= sp.fields.deep_view());
                                assert(missing.deep_view() =~= Seq::<Seq<char>>::empty());
                            }
                            collect_missing_from(&sp.fields, &item.fields, 0, &mut missing);
                            proof {
                                assert(Seq::<Seq<char>>::empty() + missing_names(
                                    sp.fields.deep_view(),
                                    struct_field_names(field_defs_view(item.fields@)),
                                ) =~= missing_names(
                                    sp.fields.deep_view(),
                                    struct_field_names(field_defs_view(item.fields@)),
                                ));
                            }
                            if missing.len() > 0 {
                                Err(
                                    TraverseError::MissingFields {
                                        fqn: clone_string_vec(ident_stack),
                                        fields: missing,
                                    },
                                )
                            } else {
                                proof {
                                    assert(field_defs_view(Seq::<FieldDef>::empty())
                                        + spec_mirror_fields(
                                        ident_stack.deep_view(),
                                        sp.fields.deep_view(),
                                        field_defs_view(item.fields@),
                                    )->Ok_0 =~= spec_mirror_fields(
                                        ident_stack.deep_view(),
                                        sp.fields.deep_view(),
                                        field_defs_view(item.fields@),
                                    )->Ok_0);
                                }
                                Ok(Struct { name: item.name.clone(), fields: mirrored })
                            }
                        }
                    }
                },
            },
        }
    }
}

} // verus!
