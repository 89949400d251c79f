//! The synthesized conversions, as they behave on runtime values: the
//! fallible downcast from the source representation into the mirror, and the
//! total upcast back.
//!
//! A downcast walks a value structurally. At a record it consults the
//! record's conversion pair (found by the record's qualified name): a field
//! marked required must hold a present optional, which is unwrapped and
//! converted, and an absent one fails the whole downcast with the reason
//! `"<qualified path>.<field> is required"`; every other field is converted
//! recursively, containers element- or value-wise with fail-fast semantics
//! and keys and order kept. The upcast re-wraps previously unwrapped fields
//! in a present optional and restores everything else recursively; it cannot
//! fail.

use vstd::prelude::*;

use crate::paths::join_dots_spec;
use crate::traverse::item_struct_impl::StructImpl;
use crate::traverse::item_struct_impl::StructImplV;
use crate::value::FieldVal;
use crate::value::FieldValV;
use crate::value::MapEntry;
use crate::value::MapEntryV;
use crate::value::RecordValue;
use crate::value::RecordValueV;
use crate::value::UnionValue;
use crate::value::UnionValueV;
use crate::value::Value;
use crate::value::ValueV;
use crate::value::entries_view;
use crate::value::fields_view;
use crate::value::lemma_entries_view_drop_first;
use crate::value::lemma_entries_view_push;
use crate::value::lemma_fields_view_drop_first;
use crate::value::lemma_fields_view_push;
use crate::value::lemma_values_view_drop_first;
use crate::value::lemma_values_view_push;
use crate::value::opt_view;
use crate::value::value_view;
use crate::value::values_view;

verus! {

/// The runtime conversion error carried by a failed downcast.
#[derive(Debug, PartialEq)]
pub struct Error {
    pub reason: String,
}

impl View for Error {
    type V = Seq<char>;

    open spec fn view(&self) -> Seq<char> {
        self.reason@
    }
}

/// The conversion pairs of one synthesis run, as models.
pub open spec fn impls_view(ps: Seq<StructImpl>) -> Seq<StructImplV> {
    Seq::new(ps.len(), |i: int| ps[i]@)
}

/// Index of the first conversion pair for `fqn`, or -1.
pub open spec fn find_impl_idx(ps: Seq<StructImplV>, fqn: Seq<Seq<char>>) -> int
    decreases ps.len(),
{
    if ps.len() == 0 {
        -1
    } else if ps[0].fqn == fqn {
        0
    } else {
        let r = find_impl_idx(ps.drop_first(), fqn);
        if r < 0 {
            -1
        } else {
            r + 1
        }
    }
}

/// The required-field names configured for the record named `fqn`: those of
/// its conversion pair, or none when no pair exists for that name.
pub open spec fn required_of(ps: Seq<StructImplV>, fqn: Seq<Seq<char>>) -> Seq<Seq<char>> {
    let i = find_impl_idx(ps, fqn);
    if 0 <= i < ps.len() {
        ps[i].required
    } else {
        Seq::empty()
    }
}

/// The reason string of a failed required-field unwrap.
pub open spec fn required_reason(fqn: Seq<Seq<char>>, field: Seq<char>) -> Seq<char> {
    join_dots_spec(fqn.push(field)) + " is required"@
}

// ---------------------------------------------------------------------------
// The downcast, denotationally
// ---------------------------------------------------------------------------

/// Downcast of one record field: a required field must be a present
/// optional, whose content converts; any other field converts as it stands.
pub open spec fn spec_field_conv(
    ps: Seq<StructImplV>,
    fqn: Seq<Seq<char>>,
    req: Seq<Seq<char>>,
    f: FieldValV,
) -> Result<ValueV, Seq<char>>
    decreases f,
{
    if req.contains(f.name) {
        match f.value {
            ValueV::Optional(o) => match o {
                Option::Some(b) => spec_downcast(ps, *b),
                Option::None => Err(required_reason(fqn, f.name)),
            },
            _ => Err(required_reason(fqn, f.name)),
        }
    } else {
        spec_downcast(ps, f.value)
    }
}

/// Downcast of a value; see the module description.
pub open spec fn spec_downcast(ps: Seq<StructImplV>, v: ValueV) -> Result<ValueV, Seq<char>>
    decreases v,
{
    match v {
        ValueV::Bool(_) => Ok(v),
        ValueV::Int(_) => Ok(v),
        ValueV::Uint(_) => Ok(v),
        ValueV::Str(_) => Ok(v),
        ValueV::Optional(o) => match spec_downcast_opt(ps, o) {
            Ok(w) => Ok(ValueV::Optional(w)),
            Err(e) => Err(e),
        },
        ValueV::Sequence(vs) => match spec_downcast_seq(ps, vs) {
            Ok(ws) => Ok(ValueV::Sequence(ws)),
            Err(e) => Err(e),
        },
        ValueV::Mapping(es) => match spec_downcast_entries(ps, es) {
            Ok(ws) => Ok(ValueV::Mapping(ws)),
            Err(e) => Err(e),
        },
        ValueV::Record(rv) => match spec_downcast_fields(
            ps,
            rv.fqn,
            required_of(ps, rv.fqn),
            rv.fields,
        ) {
            Ok(fs) => Ok(ValueV::Record(RecordValueV { fqn: rv.fqn, fields: fs })),
            Err(e) => Err(e),
        },
        ValueV::Union(uv) => match uv.payload {
            Option::None => Ok(v),
            Option::Some(b) => match spec_downcast(ps, *b) {
                Ok(w) => Ok(
                    ValueV::Union(
                        UnionValueV {
                            fqn: uv.fqn,
                            variant: uv.variant,
                            payload: Some(Box::new(w)),
                        },
                    ),
                ),
                Err(e) => Err(e),
            },
        },
    }
}

/// Downcast lifted over an optional: absence passes through.
pub open spec fn spec_downcast_opt(ps: Seq<StructImplV>, o: Option<Box<ValueV>>) -> Result<
    Option<Box<ValueV>>,
    Seq<char>,
>
    decreases o,
{
    match o {
        Option::None => Ok(None),
        Option::Some(b) => match spec_downcast(ps, *b) {
            Ok(w) => Ok(Some(Box::new(w))),
            Err(e) => Err(e),
        },
    }
}

/// Element-wise downcast of a sequence, fail-fast on the first failing
/// element, order kept.
pub open spec fn spec_downcast_seq(ps: Seq<StructImplV>, vs: Seq<ValueV>) -> Result<
    Seq<ValueV>,
    Seq<char>,
>
    decreases vs,
{
    if vs.len() == 0 {
        Ok(Seq::empty())
    } else {
        match spec_downcast(ps, vs[0]) {
            Err(e) => Err(e),
            Ok(w) => match spec_downcast_seq(ps, vs.drop_first()) {
                Err(e) => Err(e),
                Ok(ws) => Ok(seq![w] + ws),
            },
        }
    }
}

/// Value-wise downcast of a map's entries, keys passed through unchanged,
/// fail-fast on the first failing value, entry order kept.
pub open spec fn spec_downcast_entries(ps: Seq<StructImplV>, es: Seq<MapEntryV>) -> Result<
    Seq<MapEntryV>,
    Seq<char>,
>
    decreases es,
{
    if es.len() == 0 {
        Ok(Seq::empty())
    } else {
        match spec_downcast(ps, es[0].value) {
            Err(e) => Err(e),
            Ok(w) => match spec_downcast_entries(ps, es.drop_first()) {
                Err(e) => Err(e),
                Ok(ws) => Ok(seq![MapEntryV { key: es[0].key, value: w }] + ws),
            },
        }
    }
}

/// Field-wise downcast of a record's fields, in declared order, fail-fast:
/// the first failing field decides the error.
pub open spec fn spec_downcast_fields(
    ps: Seq<StructImplV>,
    fqn: Seq<Seq<char>>,
    req: Seq<Seq<char>>,
    fs: Seq<FieldValV>,
) -> Result<Seq<FieldValV>, Seq<char>>
    decreases fs,
{
    if fs.len() == 0 {
        Ok(Seq::empty())
    } else {
        match spec_field_conv(ps, fqn, req, fs[0]) {
            Err(e) => Err(e),
            Ok(w) => match spec_downcast_fields(ps, fqn, req, fs.drop_first()) {
                Err(e) => Err(e),
                Ok(ws) => Ok(seq![FieldValV { name: fs[0].name, value: w }] + ws),
            },
        }
    }
}

// ---------------------------------------------------------------------------
// The upcast, denotationally
// ---------------------------------------------------------------------------

/// Upcast of one mirror record field: a previously unwrapped field is
/// re-wrapped in a present optional; any other field is restored as it
/// stands.
pub open spec fn spec_upcast_field(
    ps: Seq<StructImplV>,
    req: Seq<Seq<char>>,
    f: FieldValV,
) -> ValueV
    decreases f,
{
    if req.contains(f.name) {
        ValueV::Optional(Some(Box::new(spec_upcast(ps, f.value))))
    } else {
        spec_upcast(ps, f.value)
    }
}

/// Total upcast of a mirror value back into the source representation.
pub open spec fn spec_upcast(ps: Seq<StructImplV>, v: ValueV) -> ValueV
    decreases v,
{
    match v {
        ValueV::Bool(_) => v,
        ValueV::Int(_) => v,
        ValueV::Uint(_) => v,
        ValueV::Str(_) => v,
        ValueV::Optional(o) => ValueV::Optional(spec_upcast_opt(ps, o)),
        ValueV::Sequence(vs) => ValueV::Sequence(spec_upcast_seq(ps, vs)),
        ValueV::Mapping(es) => ValueV::Mapping(spec_upcast_entries(ps, es)),
        ValueV::Record(rv) => ValueV::Record(
            RecordValueV {
                fqn: rv.fqn,
                fields: spec_upcast_fields(ps, required_of(ps, rv.fqn), rv.fields),
            },
        ),
        ValueV::Union(uv) => ValueV::Union(
            UnionValueV {
                fqn: uv.fqn,
                variant: uv.variant,
                payload: match uv.payload {
                    Option::None => None,
                    Option::Some(b) => Some(Box::new(spec_upcast(ps, *b))),
                },
            },
        ),
    }
}

/// Upcast lifted over an optional.
pub open spec fn spec_upcast_opt(ps: Seq<StructImplV>, o: Option<Box<ValueV>>) -> Option<
    Box<ValueV>,
>
    decreases o,
{
    match o {
        Option::None => None,
        Option::Some(b) => Some(Box::new(spec_upcast(ps, *b))),
    }
}

/// Element-wise upcast of a sequence, order kept.
pub open spec fn spec_upcast_seq(ps: Seq<StructImplV>, vs: Seq<ValueV>) -> Seq<ValueV>
    decreases vs,
{
    if vs.len() == 0 {
        Seq::empty()
    } else {
        seq![spec_upcast(ps, vs[0])] + spec_upcast_seq(ps, vs.drop_first())
    }
}

/// Value-wise upcast of a map's entries, keys and order kept.
pub open spec fn spec_upcast_entries(ps: Seq<StructImplV>, es: Seq<MapEntryV>) -> Seq<MapEntryV>
    decreases es,
{
    if es.len() == 0 {
        Seq::empty()
    } else {
        seq![MapEntryV { key: es[0].key, value: spec_upcast(ps, es[0].value) }]
            + spec_upcast_entries(ps, es.drop_first())
    }
}

/// Field-wise upcast of a mirror record's fields, in declared order.
pub open spec fn spec_upcast_fields(
    ps: Seq<StructImplV>,
    req: Seq<Seq<char>>,
    fs: Seq<FieldValV>,
) -> Seq<FieldValV>
    decreases fs,
{
    if fs.len() == 0 {
        Seq::empty()
    } else {
        seq![FieldValV { name: fs[0].name, value: spec_upcast_field(ps, req, fs[0]) }]
            + spec_upcast_fields(ps, req, fs.drop_first())
    }
}

// ---------------------------------------------------------------------------
// Laws: the upcast undoes a successful downcast
// ---------------------------------------------------------------------------

/// Law: whenever the downcast of a value succeeds, upcasting the result
/// restores the original value exactly. Required fields are the only place
/// where the two directions are not plainly structural: the downcast admits
/// a required field only as a present optional, and the upcast re-wraps it.
pub proof fn lemma_upcast_after_downcast(ps: Seq<StructImplV>, v: ValueV)
    ensures
        spec_downcast(ps, v) matches Ok(m) ==> spec_upcast(ps, m) == v,
    decreases v,
{
    match v {
        ValueV::Optional(o) => {
            lemma_uad_opt(ps, o);
        }
        ValueV::Sequence(vs) => {
            lemma_uad_seq(ps, vs);
        }
        ValueV::Mapping(es) => {
            lemma_uad_entries(ps, es);
        }
        ValueV::Record(rv) => {
            lemma_uad_fields(ps, rv.fqn, required_of(ps, rv.fqn), rv.fields);
        }
        ValueV::Union(uv) => {
            match uv.payload {
                Option::Some(b) => {
                    lemma_upcast_after_downcast(ps, *b);
                }
                Option::None => {
                }
            }
        }
        _ => {
        }
    }
}

proof fn lemma_uad_opt(ps: Seq<StructImplV>, o: Option<Box<ValueV>>)
    ensures
        spec_downcast_opt(ps, o) matches Ok(w) ==> spec_upcast_opt(ps, w) == o,
    decreases o,
{
    match o {
        Option::Some(b) => {
            lemma_upcast_after_downcast(ps, *b);
        }
        Option::None => {
        }
    }
}

proof fn lemma_uad_seq(ps: Seq<StructImplV>, vs: Seq<ValueV>)
    ensures
        spec_downcast_seq(ps, vs) matches Ok(ws) ==> spec_upcast_seq(ps, ws) == vs,
    decreases vs,
{
    if vs.len() > 0 {
        lemma_upcast_after_downcast(ps, vs[0]);
        lemma_uad_seq(ps, vs.drop_first());
        match spec_downcast(ps, vs[0]) {
            Ok(w) => {
                match spec_downcast_seq(ps, vs.drop_first()) {
                    Ok(rest) => {
                        let ws = seq![w] + rest;
                        assert(ws[0] == w);
                        assert(ws.drop_first() =~= rest);
                        assert(seq![spec_upcast(ps, w)] + spec_upcast_seq(ps, rest) =~= vs);
                    }
                    Err(_) => {
                    }
                }
            }
            Err(_) => {
            }
        }
    }
}

proof fn lemma_uad_entries(ps: Seq<StructImplV>, es: Seq<MapEntryV>)
    ensures
        spec_downcast_entries(ps, es) matches Ok(ws) ==> spec_upcast_entries(ps, ws) == es,
    decreases es,
{
    if es.len() > 0 {
        lemma_upcast_after_downcast(ps, es[0].value);
        lemma_uad_entries(ps, es.drop_first());
        match spec_downcast(ps, es[0].value) {
            Ok(w) => {
                match spec_downcast_entries(ps, es.drop_first()) {
                    Ok(rest) => {
                        let e0 = MapEntryV { key: es[0].key, value: w };
                        let ws = seq![e0] + rest;
                        assert(ws[0] == e0);
                        assert(ws.drop_first() =~= rest);
                        assert(seq![MapEntryV { key: es[0].key, value: spec_upcast(ps, w) }]
                            + spec_upcast_entries(ps, rest) =~= es);
                    }
                    Err(_) => {
                    }
                }
            }
            Err(_) => {
            }
        }
    }
}

proof fn lemma_uad_field(
    ps: Seq<StructImplV>,
    fqn: Seq<Seq<char>>,
    req: Seq<Seq<char>>,
    f: FieldValV,
)
    ensures
        spec_field_conv(ps, fqn, req, f) matches Ok(w) ==> spec_upcast_field(
            ps,
            req,
            FieldValV { name: f.name, value: w },
        ) == f.value,
    decreases f,
{
    if req.contains(f.name) {
        match f.value {
            ValueV::Optional(o) => match o {
                Option::Some(b) => {
                    lemma_upcast_after_downcast(ps, *b);
                }
                Option::None => {
                }
            },
            _ => {
            }
        }
    } else {
        lemma_upcast_after_downcast(ps, f.value);
    }
}

proof fn lemma_uad_fields(
    ps: Seq<StructImplV>,
    fqn: Seq<Seq<char>>,
    req: Seq<Seq<char>>,
    fs: Seq<FieldValV>,
)
    ensures
        spec_downcast_fields(ps, fqn, req, fs) matches Ok(ws) ==> spec_upcast_fields(ps, req, ws)
            == fs,
    decreases fs,
{
    if fs.len() > 0 {
        lemma_uad_field(ps, fqn, req, fs[0]);
        lemma_uad_fields(ps, fqn, req, fs.drop_first());
        match spec_field_conv(ps, fqn, req, fs[0]) {
            Ok(w) => {
                match spec_downcast_fields(ps, fqn, req, fs.drop_first()) {
                    Ok(rest) => {
                        let f0 = FieldValV { name: fs[0].name, value: w };
                        let ws = seq![f0] + rest;
                        assert(ws[0] == f0);
                        assert(ws.drop_first() =~= rest);
                        assert(seq![
                            FieldValV {
                                name: fs[0].name,
                                value: spec_upcast_field(ps, req, f0),
                            },
                        ] + spec_upcast_fields(ps, req, rest) =~= fs);
                    }
                    Err(_) => {
                    }
                }
            }
            Err(_) => {
            }
        }
    }
}

// ---------------------------------------------------------------------------
// Laws: without required fields the conversions are the identity
// ---------------------------------------------------------------------------

/// Law: when no record is configured with required fields, the downcast
/// never fails and both directions are the identity: mirroring loses no
/// information.
pub proof fn lemma_no_required_identity(ps: Seq<StructImplV>, v: ValueV)
    requires
        forall|q: Seq<Seq<char>>| #[trigger] required_of(ps, q) == Seq::<Seq<char>>::empty(),
    ensures
        spec_downcast(ps, v) == Ok::<ValueV, Seq<char>>(v),
        spec_upcast(ps, v) == v,
    decreases v,
{
    match v {
        ValueV::Optional(o) => {
            lemma_nri_opt(ps, o);
        }
        ValueV::Sequence(vs) => {
            lemma_nri_seq(ps, vs);
            assert(ValueV::Sequence(vs) == v);
        }
        ValueV::Mapping(es) => {
            lemma_nri_entries(ps, es);
        }
        ValueV::Record(rv) => {
            lemma_nri_fields(ps, rv.fqn, rv.fields);
            assert(RecordValueV { fqn: rv.fqn, fields: rv.fields } == rv);
        }
        ValueV::Union(uv) => {
            match uv.payload {
                Option::Some(b) => {
                    lemma_no_required_identity(ps, *b);
                    assert(UnionValueV {
                        fqn: uv.fqn,
                        variant: uv.variant,
                        payload: Some(Box::new(spec_upcast(ps, *b))),
                    } == uv);
                }
                Option::None => {
                }
            }
        }
        _ => {
        }
    }
}

proof fn lemma_nri_opt(ps: Seq<StructImplV>, o: Option<Box<ValueV>>)
    requires
        forall|q: Seq<Seq<char>>| #[trigger] required_of(ps, q) == Seq::<Seq<char>>::empty(),
    ensures
        spec_downcast_opt(ps, o) == Ok::<Option<Box<ValueV>>, Seq<char>>(o),
        spec_upcast_opt(ps, o) == o,
    decreases o,
{
    match o {
        Option::Some(b) => {
            lemma_no_required_identity(ps, *b);
        }
        Option::None => {
        }
    }
}

proof fn lemma_nri_seq(ps: Seq<StructImplV>, vs: Seq<ValueV>)
    requires
        forall|q: Seq<Seq<char>>| #[trigger] required_of(ps, q) == Seq::<Seq<char>>::empty(),
    ensures
        spec_downcast_seq(ps, vs) == Ok::<Seq<ValueV>, Seq<char>>(vs),
        spec_upcast_seq(ps, vs) == vs,
    decreases vs,
{
    if vs.len() == 0 {
        assert(vs =~= Seq::<ValueV>::empty());
    } else {
        lemma_no_required_identity(ps, vs[0]);
        lemma_nri_seq(ps, vs.drop_first());
        assert(seq![vs[0]] + vs.drop_first() =~= vs);
    }
}

proof fn lemma_nri_entries(ps: Seq<StructImplV>, es: Seq<MapEntryV>)
    requires
        forall|q: Seq<Seq<char>>| #[trigger] required_of(ps, q) == Seq::<Seq<char>>::empty(),
    ensures
        spec_downcast_entries(ps, es) == Ok::<Seq<MapEntryV>, Seq<char>>(es),
        spec_upcast_entries(ps, es) == es,
    decreases es,
{
    if es.len() == 0 {
        assert(es =~= Seq::<MapEntryV>::empty());
    } else {
        lemma_no_required_identity(ps, es[0].value);
        lemma_nri_entries(ps, es.drop_first());
        assert(MapEntryV { key: es[0].key, value: es[0].value } == es[0]);
        assert(seq![es[0]] + es.drop_first() =~= es);
    }
}

proof fn lemma_nri_fields(ps: Seq<StructImplV>, fqn: Seq<Seq<char>>, fs: Seq<FieldValV>)
    requires
        forall|q: Seq<Seq<char>>| #[trigger] required_of(ps, q) == Seq::<Seq<char>>::empty(),
    ensures
        spec_downcast_fields(ps, fqn, Seq::empty(), fs) == Ok::<Seq<FieldValV>, Seq<char>>(fs),
        spec_upcast_fields(ps, Seq::empty(), fs) == fs,
    decreases fs,
{
    if fs.len() == 0 {
        assert(fs =~= Seq::<FieldValV>::empty());
    } else {
        lemma_no_required_identity(ps, fs[0].value);
        lemma_nri_fields(ps, fqn, fs.drop_first());
        assert(!Seq::<Seq<char>>::empty().contains(fs[0].name));
        assert(spec_field_conv(ps, fqn, Seq::<Seq<char>>::empty(), fs[0]) == Ok::<
            ValueV,
            Seq<char>,
        >(fs[0].value));
        assert(spec_upcast_field(ps, Seq::<Seq<char>>::empty(), fs[0]) == fs[0].value);
        assert(FieldValV { name: fs[0].name, value: fs[0].value } == fs[0]);
        assert(seq![fs[0]] + fs.drop_first() =~= fs);
    }
}

// ---------------------------------------------------------------------------
// Laws: when a downcast succeeds, and which failure wins
// ---------------------------------------------------------------------------

/// A sequence downcast succeeds exactly when every element's does.
pub proof fn lemma_downcast_seq_ok_iff(ps: Seq<StructImplV>, vs: Seq<ValueV>)
    ensures
        (spec_downcast_seq(ps, vs) is Ok) <==> (forall|j: int|
            0 <= j < vs.len() ==> spec_downcast(ps, #[trigger] vs[j]) is Ok),
    decreases vs.len(),
{
    if vs.len() > 0 {
        let tail = vs.drop_first();
        lemma_downcast_seq_ok_iff(ps, tail);
        if spec_downcast_seq(ps, vs) is Ok {
            assert forall|j: int|
                0 <= j < vs.len() implies spec_downcast(ps, #[trigger] vs[j]) is Ok by {
                if j > 0 {
                    assert(tail[j - 1] == vs[j]);
                    assert(spec_downcast(ps, tail[j - 1]) is Ok);
                }
            }
        } else {
            if spec_downcast(ps, vs[0]) is Ok {
                let j = choose|j: int|
                    0 <= j < tail.len() && !(spec_downcast(ps, #[trigger] tail[j]) is Ok);
                assert(tail[j] == vs[j + 1]);
                assert(!(spec_downcast(ps, vs[j + 1]) is Ok));
            }
        }
    }
}

/// Law: fail-fast. The first failing element decides a sequence downcast's
/// error; no partial mirror sequence is observable.
pub proof fn lemma_downcast_seq_fail_fast(ps: Seq<StructImplV>, vs: Seq<ValueV>, k: int)
    requires
        0 <= k < vs.len(),
        spec_downcast(ps, vs[k]) is Err,
        forall|j: int| 0 <= j < k ==> spec_downcast(ps, #[trigger] vs[j]) is Ok,
    ensures
        spec_downcast(ps, vs[k]) matches Err(e) ==> spec_downcast_seq(ps, vs) == Err::<
            Seq<ValueV>,
            Seq<char>,
        >(e),
    decreases k,
{
    if k == 0 {
    } else {
        assert(vs.drop_first()[k - 1] == vs[k]);
        assert(forall|j: int|
            0 <= j < k - 1 ==> #[trigger] vs.drop_first()[j] == vs[j + 1]);
        lemma_downcast_seq_fail_fast(ps, vs.drop_first(), k - 1);
    }
}

/// A record downcast succeeds exactly when every field's conversion does.
pub proof fn lemma_downcast_fields_ok_iff(
    ps: Seq<StructImplV>,
    fqn: Seq<Seq<char>>,
    req: Seq<Seq<char>>,
    fs: Seq<FieldValV>,
)
    ensures
        (spec_downcast_fields(ps, fqn, req, fs) is Ok) <==> (forall|j: int|
            0 <= j < fs.len() ==> spec_field_conv(ps, fqn, req, #[trigger] fs[j]) is Ok),
    decreases fs.len(),
{
    if fs.len() > 0 {
        let tail = fs.drop_first();
        lemma_downcast_fields_ok_iff(ps, fqn, req, tail);
        if spec_downcast_fields(ps, fqn, req, fs) is Ok {
            assert forall|j: int|
                0 <= j < fs.len() implies spec_field_conv(ps, fqn, req, #[trigger] fs[j]) is Ok by {
                if j > 0 {
                    assert(tail[j - 1] == fs[j]);
                    assert(spec_field_conv(ps, fqn, req, tail[j - 1]) is Ok);
                }
            }
        } else {
            if spec_field_conv(ps, fqn, req, fs[0]) is Ok {
                let j = choose|j: int|
                    0 <= j < tail.len() && !(spec_field_conv(ps, fqn, req, #[trigger] tail[j]) is Ok);
                assert(tail[j] == fs[j + 1]);
                assert(!(spec_field_conv(ps, fqn, req, fs[j + 1]) is Ok));
            }
        }
    }
}

/// Law: fail-fast over a record's fields, in declared field order: the
/// first failing field decides the error.
pub proof fn lemma_downcast_fields_fail_fast(
    ps: Seq<StructImplV>,
    fqn: Seq<Seq<char>>,
    req: Seq<Seq<char>>,
    fs: Seq<FieldValV>,
    k: int,
)
    requires
        0 <= k < fs.len(),
        spec_field_conv(ps, fqn, req, fs[k]) is Err,
        forall|j: int| 0 <= j < k ==> spec_field_conv(ps, fqn, req, #[trigger] fs[j]) is Ok,
    ensures
        spec_field_conv(ps, fqn, req, fs[k]) matches Err(e) ==> spec_downcast_fields(
            ps,
            fqn,
            req,
            fs,
        ) == Err::<Seq<FieldValV>, Seq<char>>(e),
    decreases k,
{
    if k == 0 {
    } else {
        assert(fs.drop_first()[k - 1] == fs[k]);
        assert(forall|j: int|
            0 <= j < k - 1 ==> #[trigger] fs.drop_first()[j] == fs[j + 1]);
        lemma_downcast_fields_fail_fast(ps, fqn, req, fs.drop_first(), k - 1);
    }
}

/// Law: for a record value with one field marked required, all of whose
/// other fields convert and whose own content (when present) converts, the
/// downcast fails exactly when that optional field is absent; and when it
/// fails, it fails with the required-field reason for that field.
pub proof fn lemma_required_field_decides(ps: Seq<StructImplV>, rv: RecordValueV, k: int)
    requires
        0 <= k < rv.fields.len(),
        required_of(ps, rv.fqn).contains(rv.fields[k].name),
        rv.fields[k].value matches ValueV::Optional(_),
        rv.fields[k].value matches ValueV::Optional(Some(b)) ==> spec_downcast(ps, *b) is Ok,
        forall|j: int|
            0 <= j < rv.fields.len() && j != k ==> spec_field_conv(
                ps,
                rv.fqn,
                required_of(ps, rv.fqn),
                #[trigger] rv.fields[j],
            ) is Ok,
    ensures
        (spec_downcast(ps, ValueV::Record(rv)) is Err) <==> (rv.fields[k].value
            == ValueV::Optional(Option::<Box<ValueV>>::None)),
        rv.fields[k].value == ValueV::Optional(Option::<Box<ValueV>>::None)
            ==> spec_downcast(ps, ValueV::Record(rv)) == Err::<ValueV, Seq<char>>(
            required_reason(rv.fqn, rv.fields[k].name),
        ),
{
    let req = required_of(ps, rv.fqn);
    let f = rv.fields[k];
    match f.value {
        ValueV::Optional(o) => {
            match o {
                Option::None => {
                    assert(spec_field_conv(ps, rv.fqn, req, f) == Err::<ValueV, Seq<char>>(
                        required_reason(rv.fqn, f.name),
                    ));
                    lemma_downcast_fields_fail_fast(ps, rv.fqn, req, rv.fields, k);
                }
                Option::Some(_) => {
                    assert(spec_field_conv(ps, rv.fqn, req, f) is Ok);
                    lemma_downcast_fields_ok_iff(ps, rv.fqn, req, rv.fields);
                    assert(spec_downcast_fields(ps, rv.fqn, req, rv.fields) is Ok);
                }
            }
        }
        _ => {
        }
    }
}

// ---------------------------------------------------------------------------
// Unfolding lemmas used by the executable conversions
// ---------------------------------------------------------------------------

pub proof fn lemma_find_impl_idx(ps: Seq<StructImplV>, fqn: Seq<Seq<char>>)
    ensures
        find_impl_idx(ps, fqn) == -1 ==> forall|k: int|
            0 <= k < ps.len() ==> (#[trigger] ps[k]).fqn != fqn,
        find_impl_idx(ps, fqn) != -1 ==> {
            &&& 0 <= find_impl_idx(ps, fqn) < ps.len()
            &&& ps[find_impl_idx(ps, fqn)].fqn == fqn
            &&& forall|k: int| 0 <= k < find_impl_idx(ps, fqn) ==> (#[trigger] ps[k]).fqn != fqn
        },
    decreases ps.len(),
{
    if ps.len() > 0 && ps[0].fqn != fqn {
        let tail = ps.drop_first();
        lemma_find_impl_idx(tail, fqn);
        let r = find_impl_idx(tail, fqn);
        if r == -1 {
            assert forall|k: int| 0 <= k < ps.len() implies (#[trigger] ps[k]).fqn != fqn by {
                if k > 0 {
                    assert(tail[k - 1] == ps[k]);
                }
            }
        } else {
            assert(ps[r + 1] == tail[r]);
            assert forall|k: int| 0 <= k < r + 1 implies (#[trigger] ps[k]).fqn != fqn by {
                if k > 0 {
                    assert(tail[k - 1] == ps[k]);
                }
            }
        }
    }
}

// ---------------------------------------------------------------------------
// The executable downcast
// ---------------------------------------------------------------------------

/// The runtime error reported for a required field found absent.
fn required_error(fqn: &Vec<String>, field: &String) -> (e: Error)
    ensures
        e@ == required_reason(fqn.deep_view(), field@),
{
    let mut parts = crate::paths::clone_string_vec(fqn);
    parts.push(field.clone());
    proof {
        assert forall|t: int|
            0 <= t < parts.deep_view().len() implies parts.deep_view()[t] == fqn.deep_view().push(
            field@,
        )[t] by {}
        assert(parts.deep_view() =~= fqn.deep_view().push(field@));
    }
    let mut reason = crate::paths::join_dots(&parts);
    reason.append(" is required");
    Error { reason }
}

/// The conversion pair registered for the record named `fqn`, if any.
fn find_struct_impl<'a>(impls: &'a Vec<StructImpl>, fqn: &Vec<String>) -> (r: Option<
    &'a StructImpl,
>)
    ensures
        ({
            let i = find_impl_idx(impls_view(impls@), fqn.deep_view());
            match r {
                Some(im) => 0 <= i < impls@.len() && im@ == impls_view(impls@)[i],
                None => i == -1,
            }
        }),
{
    proof {
        lemma_find_impl_idx(impls_view(impls@), fqn.deep_view());
    }
    let ghost psv = impls_view(impls@);
    let mut k: usize = 0;
    #[verifier::loop_isolation(false)]
    while k < impls.len()
        invariant
            k <= impls.len(),
            forall|t: int| 0 <= t < k ==> (#[trigger] psv[t]).fqn != fqn.deep_view(),
        decreases impls.len() - k,
    {
        if crate::paths::path_eq(&impls[k].fqn, fqn) {
            proof {
                assert(psv[k as int].fqn == fqn.deep_view());
                assert(find_impl_idx(psv, fqn.deep_view()) == k as int);
            }
            return Some(&impls[k]);
        }
        proof {
            assert(psv[k as int].fqn != fqn.deep_view());
        }
        k = k + 1;
    }
    proof {
        assert(find_impl_idx(psv, fqn.deep_view()) == -1);
    }
    None
}

/// Downcast of a runtime value: the source representation into the mirror.
/// Fails exactly where the model `spec_downcast` does, with the same reason.
pub fn downcast(impls: &Vec<StructImpl>, v: &Value) -> (r: Result<Value, Error>)
    ensures
        match r {
            Ok(w) => spec_downcast(impls_view(impls@), v@) == Ok::<ValueV, Seq<char>>(w@),
            Err(e) => spec_downcast(impls_view(impls@), v@) == Err::<ValueV, Seq<char>>(e@),
        },
    decreases *v, 0int,
{
    match v {
        Value::Bool(b) => Ok(Value::Bool(*b)),
        Value::Int(n) => Ok(Value::Int(*n)),
        Value::Uint(n) => Ok(Value::Uint(*n)),
        Value::Str(s) => Ok(Value::Str(s.clone())),
        Value::Optional(o) => {
            proof {
                assert(v@ == ValueV::Optional(opt_view(*o)));
            }
            match convert_option_try_from(impls, o) {
                Ok(w) => {
                    proof {
                        assert(Value::Optional(w)@ == ValueV::Optional(opt_view(w)));
                    }
                    Ok(Value::Optional(w))
                }
                Err(e) => Err(e),
            }
        }
        Value::Sequence(items) => {
            proof {
                assert(decreases_to!(*v => *items));
                assert(decreases_to!(*items => items@));
                assert(items@.skip(0) =~= items@);
            }
            let mut out: Vec<Value> = Vec::new();
            match downcast_vec_from(impls, items, 0, &mut out) {
                Ok(_) => {
                    proof {
                        assert(values_view(Seq::<Value>::empty()) + values_view(out@)
                            =~= values_view(out@));
                    }
                    Ok(Value::Sequence(out))
                }
                Err(e) => Err(e),
            }
        }
        Value::Mapping(entries) => {
            proof {
                assert(decreases_to!(*v => *entries));
                assert(decreases_to!(*entries => entries@));
                assert(entries@.skip(0) =~= entries@);
            }
            let mut out: Vec<MapEntry> = Vec::new();
            match downcast_entries_from(impls, entries, 0, &mut out) {
                Ok(_) => {
                    proof {
                        assert(entries_view(Seq::<MapEntry>::empty()) + entries_view(out@)
                            =~= entries_view(out@));
                    }
                    Ok(Value::Mapping(out))
                }
                Err(e) => Err(e),
            }
        }
        Value::Record(rv) => {
            match downcast_record(impls, rv) {
                Ok(w) => Ok(Value::Record(w)),
                Err(e) => Err(e),
            }
        }
        Value::Union(uv) => {
            match &uv.payload {
                Option::None => {
                    let w = UnionValue {
                        fqn: crate::paths::clone_string_vec(&uv.fqn),
                        variant: uv.variant.clone(),
                        payload: None,
                    };
                    proof {
                        assert(w@ == uv@);
                    }
                    Ok(Value::Union(w))
                }
                Option::Some(b) => {
                    proof {
                        assert(v@ == ValueV::Union(uv@));
                        assert(uv@.payload == Some(Box::new(value_view(**b))));
                        assert(decreases_to!(*v => *uv));
                        assert(decreases_to!(*uv => uv.payload));
                        assert(decreases_to!(uv.payload => **b));
                        assert(decreases_to!(*v => **b));
                    }
                    match downcast(impls, b) {
                        Ok(w) => {
                            let ghost wv = w@;
                            let nw = UnionValue {
                                fqn: crate::paths::clone_string_vec(&uv.fqn),
                                variant: uv.variant.clone(),
                                payload: Some(Box::new(w)),
                            };
                            proof {
                                assert(nw@ == (UnionValueV {
                                    fqn: uv@.fqn,
                                    variant: uv@.variant,
                                    payload: Some(Box::new(wv)),
                                }));
                            }
                            Ok(Value::Union(nw))
                        }
                        Err(e) => Err(e),
                    }
                }
            }
        }
    }
}

/// Downcast lifted over an optional value: `None` passes through, `Some`
/// converts its content and propagates any failure.
pub fn convert_option_try_from(impls: &Vec<StructImpl>, o: &Option<Box<Value>>) -> (r: Result<
    Option<Box<Value>>,
    Error,
>)
    ensures
        match r {
            Ok(w) => spec_downcast_opt(impls_view(impls@), opt_view(*o)) == Ok::<
                Option<Box<ValueV>>,
                Seq<char>,
            >(opt_view(w)),
            Err(e) => spec_downcast_opt(impls_view(impls@), opt_view(*o)) == Err::<
                Option<Box<ValueV>>,
                Seq<char>,
            >(e@),
        },
    decreases *o, 0int,
{
    match o {
        Option::None => Ok(None),
        Option::Some(b) => {
            proof {
                assert(decreases_to!(*o => **b));
            }
            match downcast(impls, b) {
                Ok(w) => Ok(Some(Box::new(w))),
                Err(e) => Err(e),
            }
        }
    }
}

/// Converts the elements of `items` from position `i` on, appending the
/// converted elements to `out` in order; stops at the first failure.
fn downcast_vec_from(
    impls: &Vec<StructImpl>,
    items: &Vec<Value>,
    i: usize,
    out: &mut Vec<Value>,
) -> (r: Result<(), Error>)
    requires
        i <= items.len(),
    ensures
        match r {
            Ok(_) => spec_downcast_seq(
                impls_view(impls@),
                values_view(items@.skip(i as int)),
            ) matches Ok(ws) && values_view(final(out)@) == values_view(old(out)@) + ws,
            Err(e) => spec_downcast_seq(impls_view(impls@), values_view(items@.skip(i as int)))
                == Err::<Seq<ValueV>, Seq<char>>(e@),
        },
    decreases items@, items.len() - i,
{
    if i == items.len() {
        proof {
            assert(items@.skip(i as int) =~= Seq::<Value>::empty());
            assert(values_view(out@) + Seq::<ValueV>::empty() =~= values_view(out@));
        }
        return Ok(());
    }
    let ghost s = items@.skip(i as int);
    proof {
        assert(s[0] == items@[i as int]);
        lemma_values_view_drop_first(s);
        assert(s.drop_first() =~= items@.skip(i as int + 1));
        assert(decreases_to!(items@ => items@[i as int]));
    }
    match downcast(impls, &items[i]) {
        Err(e) => Err(e),
        Ok(w) => {
            let ghost wv = w@;
            let ghost mid = out@;
            out.push(w);
            proof {
                lemma_values_view_push(mid, out@[mid.len() as int]);
                assert(values_view(out@) == values_view(mid).push(wv));
            }
            match downcast_vec_from(impls, items, i + 1, out) {
                Err(e) => Err(e),
                Ok(u) => {
                    proof {
                        match spec_downcast_seq(impls_view(impls@), values_view(s.drop_first())) {
                            Ok(ws2) => {
                                assert(values_view(out@) == (values_view(mid).push(wv)) + ws2);
                                assert((values_view(mid).push(wv)) + ws2 =~= values_view(mid) + (
                                seq![wv] + ws2));
                            }
                            Err(_) => {
                            }
                        }
                    }
                    Ok(u)
                }
            }
        }
    }
}

/// Converts every element of a sequence, fail-fast on the first failure,
/// keeping order; on success no element is missing or reordered.
pub fn convert_vec_try_from(impls: &Vec<StructImpl>, items: &Vec<Value>) -> (r: Result<
    Vec<Value>,
    Error,
>)
    ensures
        match r {
            Ok(ws) => spec_downcast_seq(impls_view(impls@), values_view(items@)) == Ok::<
                Seq<ValueV>,
                Seq<char>,
            >(values_view(ws@)),
            Err(e) => spec_downcast_seq(impls_view(impls@), values_view(items@)) == Err::<
                Seq<ValueV>,
                Seq<char>,
            >(e@),
        },
{
    proof {
        assert(items@.skip(0) =~= items@);
    }
    let mut out: Vec<Value> = Vec::new();
    match downcast_vec_from(impls, items, 0, &mut out) {
        Ok(_) => {
            proof {
                assert(values_view(Seq::<Value>::empty()) + values_view(out@) =~= values_view(
                    out@,
                ));
            }
            Ok(out)
        }
        Err(e) => Err(e),
    }
}

/// Converts the values of `entries` from position `i` on, appending the
/// converted entries to `out` with their keys unchanged, in order.
fn downcast_entries_from(
    impls: &Vec<StructImpl>,
    entries: &Vec<MapEntry>,
    i: usize,
    out: &mut Vec<MapEntry>,
) -> (r: Result<(), Error>)
    requires
        i <= entries.len(),
    ensures
        match r {
            Ok(_) => spec_downcast_entries(
                impls_view(impls@),
                entries_view(entries@.skip(i as int)),
            ) matches Ok(ws) && entries_view(final(out)@) == entries_view(old(out)@) + ws,
            Err(e) => spec_downcast_entries(
                impls_view(impls@),
                entries_view(entries@.skip(i as int)),
            ) == Err::<Seq<MapEntryV>, Seq<char>>(e@),
        },
    decreases entries@, entries.len() - i,
{
    if i == entries.len() {
        proof {
            assert(entries@.skip(i as int) =~= Seq::<MapEntry>::empty());
            assert(entries_view(out@) + Seq::<MapEntryV>::empty() =~= entries_view(out@));
        }
        return Ok(());
    }
    let ghost s = entries@.skip(i as int);
    proof {
        assert(s[0] == entries@[i as int]);
        lemma_entries_view_drop_first(s);
        assert(s.drop_first() =~= entries@.skip(i as int + 1));
        assert(decreases_to!(entries@ => entries@[i as int]));
        assert(decreases_to!(entries@[i as int] => entries@[i as int].value));
    }
    let entry = &entries[i];
    match downcast(impls, &entry.value) {
        Err(e) => Err(e),
        Ok(w) => {
            let ne = MapEntry { key: entry.key.clone(), value: w };
            let ghost nev = ne@;
            let ghost mid = out@;
            out.push(ne);
            proof {
                lemma_entries_view_push(mid, out@[mid.len() as int]);
                assert(entries_view(out@) == entries_view(mid).push(nev));
            }
            match downcast_entries_from(impls, entries, i + 1, out) {
                Err(e) => Err(e),
                Ok(u) => {
                    proof {
                        match spec_downcast_entries(
                            impls_view(impls@),
                            entries_view(s.drop_first()),
                        ) {
                            Ok(ws2) => {
                                assert(entries_view(out@) == (entries_view(mid).push(nev)) + ws2);
                                assert((entries_view(mid).push(nev)) + ws2 =~= entries_view(mid) + (
                                seq![nev] + ws2));
                            }
                            Err(_) => {
                            }
                        }
                    }
                    Ok(u)
                }
            }
        }
    }
}

/// Converts every value of a map, keys passed through unchanged, fail-fast
/// on the first failing value, entry order kept.
pub fn convert_hashmap_try_from(impls: &Vec<StructImpl>, entries: &Vec<MapEntry>) -> (r: Result<
    Vec<MapEntry>,
    Error,
>)
    ensures
        match r {
            Ok(ws) => spec_downcast_entries(impls_view(impls@), entries_view(entries@)) == Ok::<
                Seq<MapEntryV>,
                Seq<char>,
            >(entries_view(ws@)),
            Err(e) => spec_downcast_entries(impls_view(impls@), entries_view(entries@)) == Err::<
                Seq<MapEntryV>,
                Seq<char>,
            >(e@),
        },
{
    proof {
        assert(entries@.skip(0) =~= entries@);
    }
    let mut out: Vec<MapEntry> = Vec::new();
    match downcast_entries_from(impls, entries, 0, &mut out) {
        Ok(_) => {
            proof {
                assert(entries_view(Seq::<MapEntry>::empty()) + entries_view(out@)
                    =~= entries_view(out@));
            }
            Ok(out)
        }
        Err(e) => Err(e),
    }
}

/// Downcast of one record field, as `spec_field_conv` describes it.
fn downcast_field(
    impls: &Vec<StructImpl>,
    fqn: &Vec<String>,
    required: &Vec<String>,
    f: &FieldVal,
) -> (r: Result<FieldVal, Error>)
    ensures
        match r {
            Ok(w) => spec_field_conv(impls_view(impls@), fqn.deep_view(), required.deep_view(), f@)
                == Ok::<ValueV, Seq<char>>(value_view(w.value)) && w.name@ == f.name@,
            Err(e) => spec_field_conv(
                impls_view(impls@),
                fqn.deep_view(),
                required.deep_view(),
                f@,
            ) == Err::<ValueV, Seq<char>>(e@),
        },
    decreases *f, 0int,
{
    if crate::paths::string_vec_contains(required, &f.name) {
        match &f.value {
            Value::Optional(o) => {
                match o {
                    Option::Some(b) => {
                        proof {
                            assert(decreases_to!(*f => f.value));
                            assert(decreases_to!(f.value => *o));
                            assert(decreases_to!(*o => **b));
                        }
                        match downcast(impls, b) {
                            Ok(w) => Ok(FieldVal { name: f.name.clone(), value: w }),
                            Err(e) => Err(e),
                        }
                    }
                    Option::None => Err(required_error(fqn, &f.name)),
                }
            }
            _ => Err(required_error(fqn, &f.name)),
        }
    } else {
        proof {
            assert(decreases_to!(*f => f.value));
        }
        match downcast(impls, &f.value) {
            Ok(w) => Ok(FieldVal { name: f.name.clone(), value: w }),
            Err(e) => Err(e),
        }
    }
}

/// Converts the fields from position `i` on, appending the converted fields
/// to `out` in declared order; stops at the first failure.
pub(crate) fn downcast_fields_from(
    impls: &Vec<StructImpl>,
    fqn: &Vec<String>,
    required: &Vec<String>,
    fields: &Vec<FieldVal>,
    i: usize,
    out: &mut Vec<FieldVal>,
) -> (r: Result<(), Error>)
    requires
        i <= fields.len(),
    ensures
        match r {
            Ok(_) => spec_downcast_fields(
                impls_view(impls@),
                fqn.deep_view(),
                required.deep_view(),
                fields_view(fields@.skip(i as int)),
            ) matches Ok(ws) && fields_view(final(out)@) == fields_view(old(out)@) + ws,
            Err(e) => spec_downcast_fields(
                impls_view(impls@),
                fqn.deep_view(),
                required.deep_view(),
                fields_view(fields@.skip(i as int)),
            ) == Err::<Seq<FieldValV>, Seq<char>>(e@),
        },
    decreases fields@, fields.len() - i,
{
    if i == fields.len() {
        proof {
            assert(fields@.skip(i as int) =~= Seq::<FieldVal>::empty());
            assert(fields_view(out@) + Seq::<FieldValV>::empty() =~= fields_view(out@));
        }
        return Ok(());
    }
    let ghost s = fields@.skip(i as int);
    proof {
        assert(s[0] == fields@[i as int]);
        lemma_fields_view_drop_first(s);
        assert(s.drop_first() =~= fields@.skip(i as int + 1));
        assert(decreases_to!(fields@ => fields@[i as int]));
    }
    match downcast_field(impls, fqn, required, &fields[i]) {
        Err(e) => Err(e),
        Ok(w) => {
            let ghost wv = w@;
            let ghost mid = out@;
            out.push(w);
            proof {
                lemma_fields_view_push(mid, out@[mid.len() as int]);
                assert(fields_view(out@) == fields_view(mid).push(wv));
            }
            match downcast_fields_from(impls, fqn, required, fields, i + 1, out) {
                Err(e) => Err(e),
                Ok(u) => {
                    proof {
                        match spec_downcast_fields(
                            impls_view(impls@),
                            fqn.deep_view(),
                            required.deep_view(),
                            fields_view(s.drop_first()),
                        ) {
                            Ok(ws2) => {
                                assert(fields_view(out@) == (fields_view(mid).push(wv)) + ws2);
                                assert((fields_view(mid).push(wv)) + ws2 =~= fields_view(mid) + (
                                seq![wv] + ws2));
                            }
                            Err(_) => {
                            }
                        }
                    }
                    Ok(u)
                }
            }
        }
    }
}

/// Downcast of a record value: its conversion pair is found by the record's
/// qualified name, and its fields convert in declared order, fail-fast.
pub fn downcast_record(impls: &Vec<StructImpl>, rv: &RecordValue) -> (r: Result<
    RecordValue,
    Error,
>)
    ensures
        match r {
            Ok(w) => spec_downcast(impls_view(impls@), ValueV::Record(rv@)) == Ok::<
                ValueV,
                Seq<char>,
            >(ValueV::Record(w@)),
            Err(e) => spec_downcast(impls_view(impls@), ValueV::Record(rv@)) == Err::<
                ValueV,
                Seq<char>,
            >(e@),
        },
    decreases *rv, 0int,
{
    let found = find_struct_impl(impls, &rv.fqn);
    let empty_req: Vec<String> = Vec::new();
    let required: &Vec<String> = match found {
        Option::Some(im) => &im.required,
        Option::None => &empty_req,
    };
    proof {
        assert(empty_req.deep_view() =~= Seq::<Seq<char>>::empty());
        assert(required.deep_view() == required_of(impls_view(impls@), rv@.fqn));
        assert(decreases_to!(*rv => rv.fields));
        assert(decreases_to!(rv.fields => rv.fields@));
        assert(rv.fields@.skip(0) =~= rv.fields@);
    }
    let mut out: Vec<FieldVal> = Vec::new();
    match downcast_fields_from(impls, &rv.fqn, required, &rv.fields, 0, &mut out) {
        Err(e) => Err(e),
        Ok(_) => {
            proof {
                assert(fields_view(Seq::<FieldVal>::empty()) + fields_view(out@) =~= fields_view(
                    out@,
                ));
            }
            Ok(RecordValue { fqn: crate::paths::clone_string_vec(&rv.fqn), fields: out })
        }
    }
}

// ---------------------------------------------------------------------------
// The executable upcast
// ---------------------------------------------------------------------------

/// Total upcast of a runtime value: the mirror representation back into the
/// source one. Cannot fail.
pub fn upcast(impls: &Vec<StructImpl>, v: &Value) -> (w: Value)
    ensures
        w@ == spec_upcast(impls_view(impls@), v@),
    decreases *v, 0int,
{
    match v {
        Value::Bool(b) => Value::Bool(*b),
        Value::Int(n) => Value::Int(*n),
        Value::Uint(n) => Value::Uint(*n),
        Value::Str(s) => Value::Str(s.clone()),
        Value::Optional(o) => {
            proof {
                assert(v@ == ValueV::Optional(opt_view(*o)));
            }
            let w = convert_option_into(impls, o);
            proof {
                assert(Value::Optional(w)@ == ValueV::Optional(opt_view(w)));
            }
            Value::Optional(w)
        }
        Value::Sequence(items) => {
            proof {
                assert(decreases_to!(*v => *items));
                assert(decreases_to!(*items => items@));
                assert(items@.skip(0) =~= items@);
            }
            let mut out: Vec<Value> = Vec::new();
            upcast_vec_from(impls, items, 0, &mut out);
            proof {
                assert(values_view(Seq::<Value>::empty()) + spec_upcast_seq(
                    impls_view(impls@),
                    values_view(items@),
                ) =~= spec_upcast_seq(impls_view(impls@), values_view(items@)));
            }
            Value::Sequence(out)
        }
        Value::Mapping(entries) => {
            proof {
                assert(decreases_to!(*v => *entries));
                assert(decreases_to!(*entries => entries@));
                assert(entries@.skip(0) =~= entries@);
            }
            let mut out: Vec<MapEntry> = Vec::new();
            upcast_entries_from(impls, entries, 0, &mut out);
            proof {
                assert(entries_view(Seq::<MapEntry>::empty()) + spec_upcast_entries(
                    impls_view(impls@),
                    entries_view(entries@),
                ) =~= spec_upcast_entries(impls_view(impls@), entries_view(entries@)));
            }
            Value::Mapping(out)
        }
        Value::Record(rv) => {
            let w = upcast_record(impls, rv);
            Value::Record(w)
        }
        Value::Union(uv) => {
            match &uv.payload {
                Option::None => {
                    let w = UnionValue {
                        fqn: crate::paths::clone_string_vec(&uv.fqn),
                        variant: uv.variant.clone(),
                        payload: None,
                    };
                    proof {
                        assert(w@ == uv@);
                    }
                    Value::Union(w)
                }
                Option::Some(b) => {
                    proof {
                        assert(v@ == ValueV::Union(uv@));
                        assert(uv@.payload == Some(Box::new(value_view(**b))));
                        assert(decreases_to!(*v => *uv));
                        assert(decreases_to!(*uv => uv.payload));
                        assert(decreases_to!(uv.payload => **b));
                        assert(decreases_to!(*v => **b));
                    }
                    let w = upcast(impls, b);
                    let ghost wv = w@;
                    let nw = UnionValue {
                        fqn: crate::paths::clone_string_vec(&uv.fqn),
                        variant: uv.variant.clone(),
                        payload: Some(Box::new(w)),
                    };
                    proof {
                        assert(nw@ == (UnionValueV {
                            fqn: uv@.fqn,
                            variant: uv@.variant,
                            payload: Some(Box::new(wv)),
                        }));
                    }
                    Value::Union(nw)
                }
            }
        }
    }
}

/// Total upcast lifted over an optional value.
pub fn convert_option_into(impls: &Vec<StructImpl>, o: &Option<Box<Value>>) -> (w: Option<
    Box<Value>,
>)
    ensures
        opt_view(w) == spec_upcast_opt(impls_view(impls@), opt_view(*o)),
    decreases *o, 0int,
{
    match o {
        Option::None => None,
        Option::Some(b) => {
            proof {
                assert(decreases_to!(*o => **b));
            }
            Some(Box::new(upcast(impls, b)))
        }
    }
}

/// Upcasts the elements of `items` from position `i` on, appending the
/// restored elements to `out` in order.
fn upcast_vec_from(impls: &Vec<StructImpl>, items: &Vec<Value>, i: usize, out: &mut Vec<Value>)
    requires
        i <= items.len(),
    ensures
        values_view(final(out)@) == values_view(old(out)@) + spec_upcast_seq(
            impls_view(impls@),
            values_view(items@.skip(i as int)),
        ),
    decreases items@, items.len() - i,
{
    if i == items.len() {
        proof {
            assert(items@.skip(i as int) =~= Seq::<Value>::empty());
            assert(values_view(out@) + Seq::<ValueV>::empty() =~= values_view(out@));
        }
        return ;
    }
    let ghost s = items@.skip(i as int);
    proof {
        assert(s[0] == items@[i as int]);
        lemma_values_view_drop_first(s);
        assert(s.drop_first() =~= items@.skip(i as int + 1));
        assert(decreases_to!(items@ => items@[i as int]));
    }
    let w = upcast(impls, &items[i]);
    let ghost wv = w@;
    let ghost mid = out@;
    out.push(w);
    proof {
        lemma_values_view_push(mid, out@[mid.len() as int]);
        assert(values_view(out@) == values_view(mid).push(wv));
    }
    upcast_vec_from(impls, items, i + 1, out);
    proof {
        let rest = spec_upcast_seq(impls_view(impls@), values_view(s.drop_first()));
        assert(values_view(out@) == (values_view(mid).push(wv)) + rest);
        assert((values_view(mid).push(wv)) + rest =~= values_view(mid) + (seq![wv] + rest));
    }
}

/// Restores every element of a mirror sequence, order kept.
pub fn convert_vec_into(impls: &Vec<StructImpl>, items: &Vec<Value>) -> (ws: Vec<Value>)
    ensures
        values_view(ws@) == spec_upcast_seq(impls_view(impls@), values_view(items@)),
{
    proof {
        assert(items@.skip(0) =~= items@);
    }
    let mut out: Vec<Value> = Vec::new();
    upcast_vec_from(impls, items, 0, &mut out);
    proof {
        assert(values_view(Seq::<Value>::empty()) + spec_upcast_seq(
            impls_view(impls@),
            values_view(items@),
        ) =~= spec_upcast_seq(impls_view(impls@), values_view(items@)));
    }
    out
}

/// Upcasts the values of `entries` from position `i` on, appending the
/// restored entries to `out` with their keys unchanged, in order.
fn upcast_entries_from(
    impls: &Vec<StructImpl>,
    entries: &Vec<MapEntry>,
    i: usize,
    out: &mut Vec<MapEntry>,
)
    requires
        i <= entries.len(),
    ensures
        entries_view(final(out)@) == entries_view(old(out)@) + spec_upcast_entries(
            impls_view(impls@),
            entries_view(entries@.skip(i as int)),
        ),
    decreases entries@, entries.len() - i,
{
    if i == entries.len() {
        proof {
            assert(entries@.skip(i as int) =~= Seq::<MapEntry>::empty());
            assert(entries_view(out@) + Seq::<MapEntryV>::empty() =~= entries_view(out@));
        }
        return ;
    }
    let ghost s = entries@.skip(i as int);
    proof {
        assert(s[0] == entries@[i as int]);
        lemma_entries_view_drop_first(s);
        assert(s.drop_first() =~= entries@.skip(i as int + 1));
        assert(decreases_to!(entries@ => entries@[i as int]));
        assert(decreases_to!(entries@[i as int] => entries@[i as int].value));
    }
    let entry = &entries[i];
    let w = upcast(impls, &entry.value);
    let ne = MapEntry { key: entry.key.clone(), value: w };
    let ghost nev = ne@;
    let ghost mid = out@;
    out.push(ne);
    proof {
        lemma_entries_view_push(mid, out@[mid.len() as int]);
        assert(entries_view(out@) == entries_view(mid).push(nev));
    }
    upcast_entries_from(impls, entries, i + 1, out);
    proof {
        let rest = spec_upcast_entries(impls_view(impls@), entries_view(s.drop_first()));
        assert(entries_view(out@) == (entries_view(mid).push(nev)) + rest);
        assert((entries_view(mid).push(nev)) + rest =~= entries_view(mid) + (seq![nev] + rest));
    }
}

/// Restores every value of a mirror map, keys and entry order kept.
pub fn convert_hashmap_into(impls: &Vec<StructImpl>, entries: &Vec<MapEntry>) -> (ws: Vec<
    MapEntry,
>)
    ensures
        entries_view(ws@) == spec_upcast_entries(impls_view(impls@), entries_view(entries@)),
{
    proof {
        assert(entries@.skip(0) =~= entries@);
    }
    let mut out: Vec<MapEntry> = Vec::new();
    upcast_entries_from(impls, entries, 0, &mut out);
    proof {
        assert(entries_view(Seq::<MapEntry>::empty()) + spec_upcast_entries(
            impls_view(impls@),
            entries_view(entries@),
        ) =~= spec_upcast_entries(impls_view(impls@), entries_view(entries@)));
    }
    out
}

/// Upcast of one mirror record field, as `spec_upcast_field` describes it.
fn upcast_field(impls: &Vec<StructImpl>, required: &Vec<String>, f: &FieldVal) -> (w: FieldVal)
    ensures
        w.name@ == f.name@,
        value_view(w.value) == spec_upcast_field(impls_view(impls@), required.deep_view(), f@),
    decreases *f, 0int,
{
    proof {
        assert(decreases_to!(*f => f.value));
    }
    if crate::paths::string_vec_contains(required, &f.name) {
        let w = upcast(impls, &f.value);
        let ghost wv = w@;
        let nv = Value::Optional(Some(Box::new(w)));
        proof {
            assert(nv@ == ValueV::Optional(Some(Box::new(wv))));
        }
        FieldVal { name: f.name.clone(), value: nv }
    } else {
        FieldVal { name: f.name.clone(), value: upcast(impls, &f.value) }
    }
}

/// Upcasts the fields from position `i` on, appending the restored fields
/// to `out` in declared order.
pub(crate) fn upcast_fields_from(
    impls: &Vec<StructImpl>,
    required: &Vec<String>,
    fields: &Vec<FieldVal>,
    i: usize,
    out: &mut Vec<FieldVal>,
)
    requires
        i <= fields.len(),
    ensures
        fields_view(final(out)@) == fields_view(old(out)@) + spec_upcast_fields(
            impls_view(impls@),
            required.deep_view(),
            fields_view(fields@.skip(i as int)),
        ),
    decreases fields@, fields.len() - i,
{
    if i == fields.len() {
        proof {
            assert(fields@.skip(i as int) =~= Seq::<FieldVal>::empty());
            assert(fields_view(out@) + Seq::<FieldValV>::empty() =~= fields_view(out@));
        }
        return ;
    }
    let ghost s = fields@.skip(i as int);
    proof {
        assert(s[0] == fields@[i as int]);
        lemma_fields_view_drop_first(s);
        assert(s.drop_first() =~= fields@.skip(i as int + 1));
        assert(decreases_to!(fields@ => fields@[i as int]));
    }
    let w = upcast_field(impls, required, &fields[i]);
    let ghost wv = w@;
    let ghost mid = out@;
    out.push(w);
    proof {
        lemma_fields_view_push(mid, out@[mid.len() as int]);
        assert(fields_view(out@) == fields_view(mid).push(wv));
    }
    upcast_fields_from(impls, required, fields, i + 1, out);
    proof {
        let rest = spec_upcast_fields(
            impls_view(impls@),
            required.deep_view(),
            fields_view(s.drop_first()),
        );
        assert(fields_view(out@) == (fields_view(mid).push(wv)) + rest);
        assert((fields_view(mid).push(wv)) + rest =~= fields_view(mid) + (seq![wv] + rest));
    }
}

/// Upcast of a mirror record value: its conversion pair is found by the
/// record's qualified name, previously unwrapped fields are re-wrapped.
pub fn upcast_record(impls: &Vec<StructImpl>, rv: &RecordValue) -> (w: RecordValue)
    ensures
        ValueV::Record(w@) == spec_upcast(impls_view(impls@), ValueV::Record(rv@)),
    decreases *rv, 0int,
{
    let found = find_struct_impl(impls, &rv.fqn);
    let empty_req: Vec<String> = Vec::new();
    let required: &Vec<String> = match found {
        Option::Some(im) => &im.required,
        Option::None => &empty_req,
    };
    proof {
        assert(empty_req.deep_view() =~= Seq::<Seq<char>>::empty());
        assert(required.deep_view() == required_of(impls_view(impls@), rv@.fqn));
        assert(decreases_to!(*rv => rv.fields));
        assert(decreases_to!(rv.fields => rv.fields@));
        assert(rv.fields@.skip(0) =~= rv.fields@);
    }
    let mut out: Vec<FieldVal> = Vec::new();
    upcast_fields_from(impls, required, &rv.fields, 0, &mut out);
    proof {
        assert(fields_view(Seq::<FieldVal>::empty()) + spec_upcast_fields(
            impls_view(impls@),
            required.deep_view(),
            fields_view(rv.fields@),
        ) =~= spec_upcast_fields(
            impls_view(impls@),
            required.deep_view(),
            fields_view(rv.fields@),
        ));
    }
    RecordValue { fqn: crate::paths::clone_string_vec(&rv.fqn), fields: out }
}

} // verus!
