//! The traversal engine: walks the schema tree in lock-step with the
//! specification tree, reconstructing each item's fully-qualified path from
//! a module-path stack, and produces the output tree: one error type
//! definition, the fixed catalog of generic adapters, and one mirror item
//! plus one conversion pair per visited record or union, nested in a module
//! tree mirroring the source's structure. Modules that end up empty are
//! collapsed. Every configuration inconsistency found on the way is a hard,
//! described error that aborts the whole synthesis.

pub mod item_enum;
pub mod item_enum_impl;
pub mod item_mod;
pub mod item_struct;
pub mod item_struct_impl;

use vstd::prelude::*;

use crate::config::Config;
use crate::schema::Enum;
use crate::schema::EnumV;
use crate::schema::Mod;
use crate::schema::SchemaItem;
use crate::schema::SchemaItemV;
use crate::schema::Struct;
use crate::schema::StructV;
use crate::schema::schema_item_view;
use crate::schema::schema_items_view;
use crate::schema::lemma_schema_items_view_drop_first;
use crate::spec_tree::SpecTreeLeafV;
use crate::spec_tree::SpecTreeNodeV;
use crate::spec_tree::get_spec;
use crate::traverse::item_enum_impl::EnumImpl;
use crate::traverse::item_enum_impl::EnumImplV;
use crate::traverse::item_struct_impl::StructImpl;
use crate::traverse::item_struct_impl::StructImplV;
use crate::type_path::TypeName;
use crate::type_path::TypeNameV;

verus! {

// ---------------------------------------------------------------------------
// Synthesis-time errors
// ---------------------------------------------------------------------------

/// A hard error found while resolving the specification tree against the
/// schema; synthesis aborts on the first one.
#[derive(Debug, PartialEq)]
pub enum TraverseError {
    /// The configuration marked this path as a union, but the schema
    /// declares a record there.
    ExpectedEnumFoundStruct { fqn: Vec<String> },
    /// The configuration marked this path as a record, but the schema
    /// declares a union there.
    ExpectedStructFoundEnum { fqn: Vec<String> },
    /// A field was marked required although its declared type is not an
    /// optional; the error carries the field's actual type.
    FieldNotOptional { fqn: Vec<String>, field: String, ty: TypeName },
    /// The configuration marked field names that the record does not
    /// declare; the error lists exactly the unmatched names.
    MissingFields { fqn: Vec<String>, fields: Vec<String> },
}

pub ghost enum TraverseErrorV {
    ExpectedEnumFoundStruct { fqn: Seq<Seq<char>> },
    ExpectedStructFoundEnum { fqn: Seq<Seq<char>> },
    FieldNotOptional { fqn: Seq<Seq<char>>, field: Seq<char>, ty: TypeNameV },
    MissingFields { fqn: Seq<Seq<char>>, fields: Seq<Seq<char>> },
}

impl View for TraverseError {
    type V = TraverseErrorV;

    open spec fn view(&self) -> TraverseErrorV {
        match self {
            TraverseError::ExpectedEnumFoundStruct { fqn } => TraverseErrorV::ExpectedEnumFoundStruct {
                fqn: fqn.deep_view(),
            },
            TraverseError::ExpectedStructFoundEnum { fqn } => TraverseErrorV::ExpectedStructFoundEnum {
                fqn: fqn.deep_view(),
            },
            TraverseError::FieldNotOptional { fqn, field, ty } => TraverseErrorV::FieldNotOptional {
                fqn: fqn.deep_view(),
                field: field@,
                ty: ty@,
            },
            TraverseError::MissingFields { fqn, fields } => TraverseErrorV::MissingFields {
                fqn: fqn.deep_view(),
                fields: fields.deep_view(),
            },
        }
    }
}

// ---------------------------------------------------------------------------
// The output tree
// ---------------------------------------------------------------------------

/// One of the fixed generic adapters emitted with every synthesis run.
#[derive(Clone, Copy, Debug, PartialEq, Eq, Structural)]
pub enum AdapterKind {
    OptionTryFrom,
    OptionInto,
    VecTryFrom,
    VecInto,
    HashmapTryFrom,
    HashmapInto,
}

/// One item of the synthesized output tree.
#[derive(Debug, PartialEq)]
pub enum OutputItem {
    /// The definition of the runtime conversion error type.
    ErrorDef,
    /// One generic adapter of the fixed catalog.
    Adapter(AdapterKind),
    /// A module of the mirror tree; empty modules are never emitted.
    Mod(OutputMod),
    /// A mirror record definition.
    Struct(Struct),
    /// A mirror union definition.
    Enum(Enum),
    /// The conversion pair of a record.
    StructImpl(StructImpl),
    /// The conversion pair of a union.
    EnumImpl(EnumImpl),
}

/// A module of the output tree.
#[derive(Debug, PartialEq)]
pub struct OutputMod {
    pub name: String,
    pub items: Vec<OutputItem>,
}

/// The whole synthesized output.
#[derive(Debug, PartialEq)]
pub struct MirrorFile {
    pub items: Vec<OutputItem>,
}

pub ghost enum OutputItemV {
    ErrorDef,
    Adapter(AdapterKind),
    Mod(OutputModV),
    Struct(StructV),
    Enum(EnumV),
    StructImpl(StructImplV),
    EnumImpl(EnumImplV),
}

pub ghost struct OutputModV {
    pub name: Seq<char>,
    pub items: Seq<OutputItemV>,
}

pub open spec fn output_item_view(it: OutputItem) -> OutputItemV
    decreases it,
{
    match it {
        OutputItem::ErrorDef => OutputItemV::ErrorDef,
        OutputItem::Adapter(k) => OutputItemV::Adapter(k),
        OutputItem::Mod(m) => OutputItemV::Mod(output_mod_view(m)),
        OutputItem::Struct(s) => OutputItemV::Struct(s@),
        OutputItem::Enum(e) => OutputItemV::Enum(e@),
        OutputItem::StructImpl(si) => OutputItemV::StructImpl(si@),
        OutputItem::EnumImpl(ei) => OutputItemV::EnumImpl(ei@),
    }
}

pub open spec fn output_items_view(its: Seq<OutputItem>) -> Seq<OutputItemV>
    decreases its,
{
    if its.len() == 0 {
        Seq::empty()
    } else {
        output_items_view(its.drop_last()).push(output_item_view(its.last()))
    }
}

pub open spec fn output_mod_view(m: OutputMod) -> OutputModV
    decreases m,
{
    OutputModV { name: m.name@, items: output_items_view(m.items@) }
}

impl View for OutputItem {
    type V = OutputItemV;

    open spec fn view(&self) -> OutputItemV {
        output_item_view(*self)
    }
}

impl View for OutputMod {
    type V = OutputModV;

    open spec fn view(&self) -> OutputModV {
        output_mod_view(*self)
    }
}

impl View for MirrorFile {
    type V = Seq<OutputItemV>;

    open spec fn view(&self) -> Seq<OutputItemV> {
        output_items_view(self.items@)
    }
}

pub proof fn lemma_output_items_view_len(its: Seq<OutputItem>)
    ensures
        output_items_view(its).len() == its.len(),
    decreases its.len(),
{
    if its.len() > 0 {
        lemma_output_items_view_len(its.drop_last());
    }
}

pub proof fn lemma_output_items_view_index(its: Seq<OutputItem>, i: int)
    requires
        0 <= i < its.len(),
    ensures
        output_items_view(its).len() == its.len(),
        output_items_view(its)[i] == output_item_view(its[i]),
    decreases its.len(),
{
    lemma_output_items_view_len(its);
    if i < its.len() - 1 {
        lemma_output_items_view_index(its.drop_last(), i);
    }
}

pub proof fn lemma_output_items_view_push(its: Seq<OutputItem>, x: OutputItem)
    ensures
        output_items_view(its.push(x)) == output_items_view(its).push(output_item_view(x)),
{
    assert(its.push(x).drop_last() =~= its);
    assert(its.push(x).last() == x);
}

pub proof fn lemma_output_items_view_concat(a: Seq<OutputItem>, b: Seq<OutputItem>)
    ensures
        output_items_view(a + b) == output_items_view(a) + output_items_view(b),
    decreases b.len(),
{
    if b.len() == 0 {
        assert(a + b =~= a);
        assert(output_items_view(b) =~= Seq::<OutputItemV>::empty());
        assert(output_items_view(a) + output_items_view(b) =~= output_items_view(a));
    } else {
        lemma_output_items_view_concat(a, b.drop_last());
        assert((a + b).drop_last() =~= a + b.drop_last());
        assert((a + b).last() == b.last());
        assert(output_items_view(b).drop_last() =~= output_items_view(b.drop_last())) by {
            assert(output_items_view(b) == output_items_view(b.drop_last()).push(
                output_item_view(b.last()),
            ));
        }
        assert(output_items_view(a) + output_items_view(b) =~= (output_items_view(a)
            + output_items_view(b.drop_last())).push(output_item_view(b.last())));
    }
}

// ---------------------------------------------------------------------------
// Collecting the conversion pairs out of the output tree
// ---------------------------------------------------------------------------

/// All record conversion pairs of an output tree, in emission order.
pub open spec fn spec_collect_impls(its: Seq<OutputItemV>) -> Seq<StructImplV>
    decreases its,
{
    if its.len() == 0 {
        Seq::empty()
    } else {
        (match its[0] {
            OutputItemV::StructImpl(si) => seq![si],
            OutputItemV::Mod(m) => spec_collect_impls(m.items),
            _ => Seq::<StructImplV>::empty(),
        }) + spec_collect_impls(its.drop_first())
    }
}

/// Appends the record conversion pairs found under `items[i..]` to `out`.
fn collect_impls_from(items: &Vec<OutputItem>, i: usize, out: &mut Vec<StructImpl>)
    requires
        i <= items.len(),
    ensures
        crate::convert::impls_view(final(out)@) == crate::convert::impls_view(old(out)@)
            + spec_collect_impls(output_items_view(items@.skip(i as int))),
    decreases items@, items.len() - i,
{
    let ghost psv = crate::convert::impls_view(out@);
    if i == items.len() {
        proof {
            assert(items@.skip(i as int) =~= Seq::<OutputItem>::empty());
            assert(output_items_view(items@.skip(i as int)) =~= Seq::<OutputItemV>::empty());
            assert(psv + Seq::<StructImplV>::empty() =~= psv);
        }
        return ;
    }
    let ghost s = items@.skip(i as int);
    proof {
        assert(s[0] == items@[i as int]);
        lemma_output_items_view_index(s, 0);
        assert forall|k: int|
            0 <= k < output_items_view(s).drop_first().len() implies output_items_view(
            s,
        ).drop_first()[k] == output_items_view(s.drop_first())[k] by {
            lemma_output_items_view_index(s, k + 1);
            lemma_output_items_view_index(s.drop_first(), k);
            assert(s.drop_first()[k] == s[k + 1]);
        }
        lemma_output_items_view_len(s.drop_first());
        assert(output_items_view(s).drop_first() =~= output_items_view(s.drop_first()));
        assert(s.drop_first() =~= items@.skip(i as int + 1));
        assert(decreases_to!(items@ => items@[i as int]));
    }
    let ghost head = match output_items_view(s)[0] {
        OutputItemV::StructImpl(si) => seq![si],
        OutputItemV::Mod(m) => spec_collect_impls(m.items),
        _ => Seq::<StructImplV>::empty(),
    };
    match &items[i] {
        OutputItem::StructImpl(si) => {
            let copy = StructImpl {
                fqn: crate::paths::clone_string_vec(&si.fqn),
                required: crate::paths::clone_string_vec(&si.required),
            };
            let ghost cv = copy@;
            out.push(copy);
            proof {
                assert(cv == si@);
                assert(output_items_view(s)[0] == OutputItemV::StructImpl(si@));
                assert(crate::convert::impls_view(out@) =~= psv.push(cv));
                assert(psv.push(cv) =~= psv + head);
            }
        }
        OutputItem::Mod(m) => {
            proof {
                assert(output_items_view(s)[0] == OutputItemV::Mod(output_mod_view(*m)));
                assert(decreases_to!(items@[i as int] => *m));
                assert(decreases_to!(*m => m.items));
                assert(decreases_to!(m.items => m.items@));
                assert(m.items@.skip(0) =~= m.items@);
            }
            collect_impls_from(&m.items, 0, out);
            proof {
                assert(crate::convert::impls_view(out@) == psv + head);
            }
        }
        _ => {
            proof {
                assert(psv + head =~= psv);
            }
        }
    }
    let ghost mid = crate::convert::impls_view(out@);
    collect_impls_from(items, i + 1, out);
    proof {
        let rest = spec_collect_impls(output_items_view(s.drop_first()));
        assert(mid == psv + head);
        assert(crate::convert::impls_view(out@) == (psv + head) + rest);
        assert((psv + head) + rest =~= psv + (head + rest));
    }
}

impl MirrorFile {
    /// The record conversion pairs of this output tree, in emission order:
    /// the environment the runtime conversions resolve record names in.
    pub fn struct_impls(&self) -> (r: Vec<StructImpl>)
        ensures
            crate::convert::impls_view(r@) == spec_collect_impls(self@),
    {
        let mut out: Vec<StructImpl> = Vec::new();
        proof {
            assert(self.items@.skip(0) =~= self.items@);
            assert(crate::convert::impls_view(out@) =~= Seq::<StructImplV>::empty());
            assert(Seq::<StructImplV>::empty() + spec_collect_impls(output_items_view(self.items@))
                =~= spec_collect_impls(output_items_view(self.items@)));
        }
        collect_impls_from(&self.items, 0, &mut out);
        out
    }
}

// ---------------------------------------------------------------------------
// What the traversal produces
// ---------------------------------------------------------------------------

/// The required-field names the specification tree holds for the record at
/// `path`: the fields of its record marker, or none.
pub open spec fn required_in_tree(tree: SpecTreeNodeV, path: Seq<Seq<char>>) -> Seq<Seq<char>> {
    match get_spec(tree, path) {
        Some(SpecTreeLeafV::Struct(sp)) => sp.fields,
        _ => Seq::empty(),
    }
}

/// The output of one schema item under the given module-path stack.
pub open spec fn spec_traverse_item(
    tree: SpecTreeNodeV,
    stack: Seq<Seq<char>>,
    it: SchemaItemV,
) -> Result<Seq<OutputItemV>, TraverseErrorV>
    decreases it,
{
    match it {
        SchemaItemV::Mod(m) => match spec_traverse_items(tree, stack.push(m.name), m.items) {
            Err(e) => Err(e),
            Ok(out) => if out.len() == 0 {
                Ok(Seq::empty())
            } else {
                Ok(seq![OutputItemV::Mod(OutputModV { name: m.name, items: out })])
            },
        },
        SchemaItemV::Struct(s) => {
            let path = stack.push(s.name);
            match item_struct::spec_mirror_struct(tree, path, s) {
                Err(e) => Err(e),
                Ok(ms) => Ok(
                    seq![
                        OutputItemV::Struct(ms),
                        OutputItemV::StructImpl(
                            StructImplV { fqn: path, required: required_in_tree(tree, path) },
                        ),
                    ],
                ),
            }
        },
        SchemaItemV::Enum(e) => {
            let path = stack.push(e.name);
            match item_enum::spec_mirror_enum(tree, path, e) {
                Err(err) => Err(err),
                Ok(me) => Ok(
                    seq![
                        OutputItemV::Enum(me),
                        OutputItemV::EnumImpl(EnumImplV { fqn: path }),
                    ],
                ),
            }
        },
    }
}

/// The concatenated output of a sequence of schema items, first error wins.
pub open spec fn spec_traverse_items(
    tree: SpecTreeNodeV,
    stack: Seq<Seq<char>>,
    its: Seq<SchemaItemV>,
) -> Result<Seq<OutputItemV>, TraverseErrorV>
    decreases its,
{
    if its.len() == 0 {
        Ok(Seq::empty())
    } else {
        match spec_traverse_item(tree, stack, its[0]) {
            Err(e) => Err(e),
            Ok(head) => match spec_traverse_items(tree, stack, its.drop_first()) {
                Err(e) => Err(e),
                Ok(rest) => Ok(head + rest),
            },
        }
    }
}

/// The fixed prelude of every synthesis run: the error type definition and
/// the catalog of generic adapters, emitted exactly once.
pub open spec fn spec_prelude_items() -> Seq<OutputItemV> {
    seq![
        OutputItemV::ErrorDef,
        OutputItemV::Adapter(AdapterKind::OptionTryFrom),
        OutputItemV::Adapter(AdapterKind::OptionInto),
        OutputItemV::Adapter(AdapterKind::VecTryFrom),
        OutputItemV::Adapter(AdapterKind::VecInto),
        OutputItemV::Adapter(AdapterKind::HashmapTryFrom),
        OutputItemV::Adapter(AdapterKind::HashmapInto),
    ]
}

/// What the whole synthesis run produces for a configuration.
pub open spec fn spec_copy_unwrapped(c: crate::config::ConfigV) -> Result<
    Seq<OutputItemV>,
    TraverseErrorV,
> {
    match spec_traverse_items(c.spec_tree, Seq::empty(), c.source.items) {
        Err(e) => Err(e),
        Ok(ws) => Ok(spec_prelude_items() + ws),
    }
}

// ---------------------------------------------------------------------------
// Law: the collected pairs carry exactly the configured required sets
// ---------------------------------------------------------------------------

/// Whether every conversion pair in `ps` carries exactly the required-field
/// set the specification tree configures for its record path.
pub open spec fn impls_match_tree(tree: SpecTreeNodeV, ps: Seq<StructImplV>) -> bool {
    forall|k: int|
        0 <= k < ps.len() ==> (#[trigger] ps[k]).required == required_in_tree(tree, ps[k].fqn)
}

pub proof fn lemma_collect_impls_concat(a: Seq<OutputItemV>, b: Seq<OutputItemV>)
    ensures
        spec_collect_impls(a + b) == spec_collect_impls(a) + spec_collect_impls(b),
    decreases a.len(),
{
    if a.len() == 0 {
        assert(a + b =~= b);
        assert(spec_collect_impls(a) =~= Seq::<StructImplV>::empty());
        assert(spec_collect_impls(a) + spec_collect_impls(b) =~= spec_collect_impls(b));
    } else {
        assert((a + b)[0] == a[0]);
        assert((a + b).drop_first() =~= a.drop_first() + b);
        lemma_collect_impls_concat(a.drop_first(), b);
        let head = match a[0] {
            OutputItemV::StructImpl(si) => seq![si],
            OutputItemV::Mod(m) => spec_collect_impls(m.items),
            _ => Seq::<StructImplV>::empty(),
        };
        assert(head + (spec_collect_impls(a.drop_first()) + spec_collect_impls(b)) =~= (head
            + spec_collect_impls(a.drop_first())) + spec_collect_impls(b));
    }
}

proof fn lemma_impls_match_concat(tree: SpecTreeNodeV, a: Seq<StructImplV>, b: Seq<StructImplV>)
    requires
        impls_match_tree(tree, a),
        impls_match_tree(tree, b),
    ensures
        impls_match_tree(tree, a + b),
{
    assert forall|k: int|
        0 <= k < (a + b).len() implies (#[trigger] (a + b)[k]).required == required_in_tree(
        tree,
        (a + b)[k].fqn,
    ) by {
        if k < a.len() {
            assert((a + b)[k] == a[k]);
        } else {
            assert((a + b)[k] == b[k - a.len()]);
        }
    }
}

/// Law: every conversion pair a successful synthesis emits for a record
/// carries exactly the required-field set the specification tree holds at
/// that record's fully-qualified path. The runtime downcast therefore
/// unwraps exactly the configured fields, nothing else.
pub proof fn lemma_traversed_impls_match_tree(
    tree: SpecTreeNodeV,
    stack: Seq<Seq<char>>,
    its: Seq<SchemaItemV>,
)
    ensures
        spec_traverse_items(tree, stack, its) matches Ok(out) ==> impls_match_tree(
            tree,
            spec_collect_impls(out),
        ),
    decreases its,
{
    if its.len() > 0 {
        lemma_traversed_impl_match_tree(tree, stack, its[0]);
        lemma_traversed_impls_match_tree(tree, stack, its.drop_first());
        match spec_traverse_item(tree, stack, its[0]) {
            Ok(head) => {
                match spec_traverse_items(tree, stack, its.drop_first()) {
                    Ok(rest) => {
                        lemma_collect_impls_concat(head, rest);
                        lemma_impls_match_concat(
                            tree,
                            spec_collect_impls(head),
                            spec_collect_impls(rest),
                        );
                    }
                    Err(_) => {
                    }
                }
            }
            Err(_) => {
            }
        }
    }
}

proof fn lemma_traversed_impl_match_tree(
    tree: SpecTreeNodeV,
    stack: Seq<Seq<char>>,
    it: SchemaItemV,
)
    ensures
        spec_traverse_item(tree, stack, it) matches Ok(out) ==> impls_match_tree(
            tree,
            spec_collect_impls(out),
        ),
    decreases it,
{
    match it {
        SchemaItemV::Mod(m) => {
            lemma_traversed_impls_match_tree(tree, stack.push(m.name), m.items);
            match spec_traverse_items(tree, stack.push(m.name), m.items) {
                Ok(inner) => {
                    let out = seq![
                        OutputItemV::Mod(OutputModV { name: m.name, items: inner }),
                    ];
                    assert(out[0] == OutputItemV::Mod(OutputModV { name: m.name, items: inner }));
                    assert(out.drop_first() =~= Seq::<OutputItemV>::empty());
                    assert(spec_collect_impls(Seq::<OutputItemV>::empty()) =~= Seq::<
                        StructImplV,
                    >::empty());
                    assert(spec_collect_impls(out) == spec_collect_impls(inner)
                        + spec_collect_impls(Seq::<OutputItemV>::empty()));
                    assert(spec_collect_impls(inner) + Seq::<StructImplV>::empty()
                        =~= spec_collect_impls(inner));
                }
                Err(_) => {
                }
            }
        }
        SchemaItemV::Struct(s) => {
            let path = stack.push(s.name);
            match item_struct::spec_mirror_struct(tree, path, s) {
                Ok(ms) => {
                    let si = StructImplV { fqn: path, required: required_in_tree(tree, path) };
                    let out = seq![
                        OutputItemV::Struct(ms),
                        OutputItemV::StructImpl(si),
                    ];
                    let tail = seq![OutputItemV::StructImpl(si)];
                    assert(out[0] == OutputItemV::Struct(ms));
                    assert(out.drop_first() =~= tail);
                    assert(tail[0] == OutputItemV::StructImpl(si));
                    assert(tail.drop_first() =~= Seq::<OutputItemV>::empty());
                    assert(spec_collect_impls(Seq::<OutputItemV>::empty()) =~= Seq::<
                        StructImplV,
                    >::empty());
                    assert(spec_collect_impls(tail) == seq![si] + spec_collect_impls(
                        Seq::<OutputItemV>::empty(),
                    ));
                    assert(spec_collect_impls(out) == Seq::<StructImplV>::empty()
                        + spec_collect_impls(tail));
                    assert(spec_collect_impls(out) =~= seq![si]);
                    assert(impls_match_tree(tree, seq![si]));
                }
                Err(_) => {
                }
            }
        }
        SchemaItemV::Enum(e) => {
            let path = stack.push(e.name);
            match item_enum::spec_mirror_enum(tree, path, e) {
                Ok(me) => {
                    let out = seq![
                        OutputItemV::Enum(me),
                        OutputItemV::EnumImpl(EnumImplV { fqn: path }),
                    ];
                    let tail = seq![OutputItemV::EnumImpl(EnumImplV { fqn: path })];
                    assert(out[0] == OutputItemV::Enum(me));
                    assert(out.drop_first() =~= tail);
                    assert(tail[0] == OutputItemV::EnumImpl(EnumImplV { fqn: path }));
                    assert(tail.drop_first() =~= Seq::<OutputItemV>::empty());
                    assert(spec_collect_impls(Seq::<OutputItemV>::empty()) =~= Seq::<
                        StructImplV,
                    >::empty());
                    assert(spec_collect_impls(tail) == Seq::<StructImplV>::empty()
                        + spec_collect_impls(Seq::<OutputItemV>::empty()));
                    assert(spec_collect_impls(out) == Seq::<StructImplV>::empty()
                        + spec_collect_impls(tail));
                    assert(spec_collect_impls(out) =~= Seq::<StructImplV>::empty());
                }
                Err(_) => {
                }
            }
        }
    }
}

// ---------------------------------------------------------------------------
// The executable traversal
// ---------------------------------------------------------------------------

/// Traverses the schema items from position `i` on, appending their output
/// to `out`; stops at the first hard error.
#[verifier::loop_isolation(false)]
fn copy_items_from(
    config: &Config,
    ident_stack: &Vec<String>,
    items: &Vec<SchemaItem>,
    i: usize,
    out: &mut Vec<OutputItem>,
) -> (r: Result<(), TraverseError>)
    requires
        i <= items.len(),
    ensures
        match r {
            Ok(_) => spec_traverse_items(
                config@.spec_tree,
                ident_stack.deep_view(),
                schema_items_view(items@.skip(i as int)),
            ) matches Ok(ws) && output_items_view(final(out)@) == output_items_view(old(out)@)
                + ws,
            Err(e) => spec_traverse_items(
                config@.spec_tree,
                ident_stack.deep_view(),
                schema_items_view(items@.skip(i as int)),
            ) == Err::<Seq<OutputItemV>, TraverseErrorV>(e@),
        },
    decreases items@, items.len() - i,
{
    if i == items.len() {
        proof {
            assert(items@.skip(i as int) =~= Seq::<SchemaItem>::empty());
            assert(schema_items_view(items@.skip(i as int)) =~= Seq::<SchemaItemV>::empty());
            assert(output_items_view(out@) + Seq::<OutputItemV>::empty() =~= output_items_view(
                out@,
            ));
        }
        return Ok(());
    }
    let ghost s = items@.skip(i as int);
    proof {
        assert(s[0] == items@[i as int]);
        lemma_schema_items_view_drop_first(s);
        assert(s.drop_first() =~= items@.skip(i as int + 1));
        assert(decreases_to!(items@ => items@[i as int]));
    }
    let ghost mid0 = out@;
    let head_result = copy_one_item(config, ident_stack, &items[i], out);
    match head_result {
        Err(e) => Err(e),
        Ok(_) => {
            let ghost mid1 = out@;
            match copy_items_from(config, ident_stack, items, i + 1, out) {
                Err(e) => Err(e),
                Ok(u) => {
                    proof {
                        match spec_traverse_item(
                            config@.spec_tree,
                            ident_stack.deep_view(),
                            schema_item_view(items@[i as int]),
                        ) {
                            Ok(head) => {
                                match spec_traverse_items(
                                    config@.spec_tree,
                                    ident_stack.deep_view(),
                                    schema_items_view(s.drop_first()),
                                ) {
                                    Ok(rest) => {
                                        assert(output_items_view(out@) == (output_items_view(mid0)
                                            + head) + rest);
                                        assert((output_items_view(mid0) + head) + rest
                                            =~= output_items_view(mid0) + (head + rest));
                                    }
                                    Err(_) => {
                                    }
                                }
                            }
                            Err(_) => {
                            }
                        }
                    }
                    Ok(u)
                }
            }
        }
    }
}

/// Traverses one schema item, appending its output to `out`.
fn copy_one_item(
    config: &Config,
    ident_stack: &Vec<String>,
    item: &SchemaItem,
    out: &mut Vec<OutputItem>,
) -> (r: Result<(), TraverseError>)
    ensures
        match r {
            Ok(_) => spec_traverse_item(
                config@.spec_tree,
                ident_stack.deep_view(),
                schema_item_view(*item),
            ) matches Ok(ws) && output_items_view(final(out)@) == output_items_view(old(out)@)
                + ws,
            Err(e) => spec_traverse_item(
                config@.spec_tree,
                ident_stack.deep_view(),
                schema_item_view(*item),
            ) == Err::<Seq<OutputItemV>, TraverseErrorV>(e@),
        },
    decreases *item, 1int,
{
    match item {
        SchemaItem::Mod(m) => {
            proof {
                assert(decreases_to!(*item => *m));
            }
            match Mod::traverse(config, m, ident_stack) {
                Err(e) => Err(e),
                Ok(o) => {
                    let ghost mid = out@;
                    match o {
                        Option::Some(x) => {
                            let ghost xv = output_item_view(x);
                            out.push(x);
                            proof {
                                lemma_output_items_view_push(mid, out@[mid.len() as int]);
                                assert(output_items_view(mid).push(xv) =~= output_items_view(mid)
                                    + seq![xv]);
                            }
                            Ok(())
                        }
                        Option::None => {
                            proof {
                                assert(output_items_view(mid) + Seq::<OutputItemV>::empty()
                                    =~= output_items_view(mid));
                            }
                            Ok(())
                        }
                    }
                }
            }
        }
        SchemaItem::Struct(s) => {
            let mut path = crate::paths::clone_string_vec(ident_stack);
            path.push(s.name.clone());
            proof {
                assert(path.deep_view() =~= ident_stack.deep_view().push(s.name@));
            }
            match Struct::traverse(config, s, &path) {
                Err(e) => Err(e),
                Ok(ms) => {
                    match StructImpl::traverse(config, s, &path) {
                        Err(e) => {
                            // a union marker would already have failed the
                            // mirror-definition step above
                            proof {
                                assert(false);
                            }
                            Err(e)
                        }
                        Ok(si) => {
                            let ghost mid = out@;
                            let ghost msv = ms@;
                            let ghost siv = si@;
                            out.push(OutputItem::Struct(ms));
                            proof {
                                lemma_output_items_view_push(mid, out@[mid.len() as int]);
                            }
                            let ghost mid1 = out@;
                            out.push(OutputItem::StructImpl(si));
                            proof {
                                lemma_output_items_view_push(mid1, out@[mid1.len() as int]);
                                assert(output_items_view(mid).push(OutputItemV::Struct(msv)).push(
                                    OutputItemV::StructImpl(siv),
                                ) =~= output_items_view(mid) + seq![
                                    OutputItemV::Struct(msv),
                                    OutputItemV::StructImpl(siv),
                                ]);
                            }
                            Ok(())
                        }
                    }
                }
            }
        }
        SchemaItem::Enum(e) => {
            let mut path = crate::paths::clone_string_vec(ident_stack);
            path.push(e.name.clone());
            proof {
                assert(path.deep_view() =~= ident_stack.deep_view().push(e.name@));
            }
            match Enum::traverse(config, e, &path) {
                Err(err) => Err(err),
                Ok(me) => {
                    let ei = EnumImpl::traverse(config, e, &path);
                    let ghost mid = out@;
                    let ghost mev = me@;
                    let ghost eiv = ei@;
                    out.push(OutputItem::Enum(me));
                    proof {
                        lemma_output_items_view_push(mid, out@[mid.len() as int]);
                    }
                    let ghost mid1 = out@;
                    out.push(OutputItem::EnumImpl(ei));
                    proof {
                        lemma_output_items_view_push(mid1, out@[mid1.len() as int]);
                        assert(output_items_view(mid).push(OutputItemV::Enum(mev)).push(
                            OutputItemV::EnumImpl(eiv),
                        ) =~= output_items_view(mid) + seq![
                            OutputItemV::Enum(mev),
                            OutputItemV::EnumImpl(eiv),
                        ]);
                    }
                    Ok(())
                }
            }
        }
    }
}

/// Traverses a sequence of schema items under the given module-path stack,
/// producing their concatenated output; the first hard error aborts.
pub fn copy_unwrapped_items(
    config: &Config,
    ident_stack: &Vec<String>,
    items: &Vec<SchemaItem>,
) -> (r: Result<Vec<OutputItem>, TraverseError>)
    ensures
        match r {
            Ok(ws) => spec_traverse_items(
                config@.spec_tree,
                ident_stack.deep_view(),
                schema_items_view(items@),
            ) == Ok::<Seq<OutputItemV>, TraverseErrorV>(output_items_view(ws@)),
            Err(e) => spec_traverse_items(
                config@.spec_tree,
                ident_stack.deep_view(),
                schema_items_view(items@),
            ) == Err::<Seq<OutputItemV>, TraverseErrorV>(e@),
        },
{
    proof {
        assert(items@.skip(0) =~= items@);
    }
    let mut out: Vec<OutputItem> = Vec::new();
    match copy_items_from(config, ident_stack, items, 0, &mut out) {
        Ok(_) => {
            proof {
                assert(output_items_view(Seq::<OutputItem>::empty()) + output_items_view(out@)
                    =~= output_items_view(out@));
            }
            Ok(out)
        }
        Err(e) => Err(e),
    }
}

/// Runs the whole synthesis: the fixed prelude followed by the traversal of
/// the configured source, assembled into the output tree. Aborts with the
/// first configuration or mismatch error; no partial output is returned.
pub fn copy_unwrapped(config: &Config) -> (r: Result<MirrorFile, TraverseError>)
    ensures
        match r {
            Ok(f) => spec_copy_unwrapped(config@) == Ok::<Seq<OutputItemV>, TraverseErrorV>(f@),
            Err(e) => spec_copy_unwrapped(config@) == Err::<Seq<OutputItemV>, TraverseErrorV>(e@),
        },
{
    let mut items: Vec<OutputItem> = Vec::new();
    items.push(OutputItem::ErrorDef);
    items.push(OutputItem::Adapter(AdapterKind::OptionTryFrom));
    items.push(OutputItem::Adapter(AdapterKind::OptionInto));
    items.push(OutputItem::Adapter(AdapterKind::VecTryFrom));
    items.push(OutputItem::Adapter(AdapterKind::VecInto));
    items.push(OutputItem::Adapter(AdapterKind::HashmapTryFrom));
    items.push(OutputItem::Adapter(AdapterKind::HashmapInto));
    proof {
        assert(items@.len() == 7);
        lemma_output_items_view_len(items@);
        assert forall|k: int|
            0 <= k < 7 implies output_items_view(items@)[k] == spec_prelude_items()[k] by {
            lemma_output_items_view_index(items@, k);
        }
        assert(output_items_view(items@) =~= spec_prelude_items());
    }
    let empty_stack: Vec<String> = Vec::new();
    proof {
        assert(empty_stack.deep_view() =~= Seq::<Seq<char>>::empty());
    }
    match copy_unwrapped_items(config, &empty_stack, &config.source.items) {
        Err(e) => Err(e),
        Ok(mut rest) => {
            let ghost prelude = items@;
            let ghost restv = rest@;
            items.append(&mut rest);
            proof {
                assert(items@ == prelude + restv);
                lemma_output_items_view_concat(prelude, restv);
            }
            Ok(MirrorFile { items })
        }
    }
}

} // verus!