//! Runtime values of the source and mirror schemas: the domain on which the
//! synthesized conversions operate. A value is a scalar, an optional, a
//! sequence, a map with string keys and kept entry order, a record tagged
//! with its qualified name, or a union variant.

use vstd::prelude::*;

verus! {

/// A field of a record value.
#[derive(Debug, PartialEq)]
pub struct FieldVal {
    pub name: String,
    pub value: Value,
}

/// One entry of a map value; entries keep their insertion order.
#[derive(Debug, PartialEq)]
pub struct MapEntry {
    pub key: String,
    pub value: Value,
}

/// A record value, tagged with the record's fully-qualified name.
#[derive(Debug, PartialEq)]
pub struct RecordValue {
    pub fqn: Vec<String>,
    pub fields: Vec<FieldVal>,
}

/// A union value: the chosen variant and its payload, if any.
#[derive(Debug, PartialEq)]
pub struct UnionValue {
    pub fqn: Vec<String>,
    pub variant: String,
    pub payload: Option<Box<Value>>,
}

/// A runtime value.
#[derive(Debug, PartialEq)]
pub enum Value {
    Bool(bool),
    Int(i64),
    Uint(u64),
    Str(String),
    Optional(Option<Box<Value>>),
    Sequence(Vec<Value>),
    Mapping(Vec<MapEntry>),
    Record(RecordValue),
    Union(UnionValue),
}

// ---------------------------------------------------------------------------
// Mathematical models
// ---------------------------------------------------------------------------

pub ghost struct FieldValV {
    pub name: Seq<char>,
    pub value: ValueV,
}

pub ghost struct MapEntryV {
    pub key: Seq<char>,
    pub value: ValueV,
}

pub ghost struct RecordValueV {
    pub fqn: Seq<Seq<char>>,
    pub fields: Seq<FieldValV>,
}

pub ghost struct UnionValueV {
    pub fqn: Seq<Seq<char>>,
    pub variant: Seq<char>,
    pub payload: Option<Box<ValueV>>,
}

pub ghost enum ValueV {
    Bool(bool),
    Int(int),
    Uint(int),
    Str(Seq<char>),
    Optional(Option<Box<ValueV>>),
    Sequence(Seq<ValueV>),
    Mapping(Seq<MapEntryV>),
    Record(RecordValueV),
    Union(UnionValueV),
}

pub open spec fn value_view(v: Value) -> ValueV
    decreases v,
{
    match v {
        Value::Bool(b) => ValueV::Bool(b),
        Value::Int(n) => ValueV::Int(n as int),
        Value::Uint(n) => ValueV::Uint(n as int),
        Value::Str(s) => ValueV::Str(s@),
        Value::Optional(o) => ValueV::Optional(
            match o {
                Option::None => None,
                Option::Some(b) => Some(Box::new(value_view(*b))),
            },
        ),
        Value::Sequence(items) => ValueV::Sequence(values_view(items@)),
        Value::Mapping(entries) => ValueV::Mapping(entries_view(entries@)),
        Value::Record(rv) => ValueV::Record(record_value_view(rv)),
        Value::Union(uv) => ValueV::Union(union_value_view(uv)),
    }
}

pub open spec fn values_view(vs: Seq<Value>) -> Seq<ValueV>
    decreases vs,
{
    if vs.len() == 0 {
        Seq::empty()
    } else {
        values_view(vs.drop_last()).push(value_view(vs.last()))
    }
}

pub open spec fn fields_view(fs: Seq<FieldVal>) -> Seq<FieldValV>
    decreases fs,
{
    if fs.len() == 0 {
        Seq::empty()
    } else {
        fields_view(fs.drop_last()).push(
            FieldValV { name: fs.last().name@, value: value_view(fs.last().value) },
        )
    }
}

pub open spec fn entries_view(es: Seq<MapEntry>) -> Seq<MapEntryV>
    decreases es,
{
    if es.len() == 0 {
        Seq::empty()
    } else {
        entries_view(es.drop_last()).push(
            MapEntryV { key: es.last().key@, value: value_view(es.last().value) },
        )
    }
}

pub open spec fn record_value_view(rv: RecordValue) -> RecordValueV
    decreases rv,
{
    RecordValueV { fqn: rv.fqn.deep_view(), fields: fields_view(rv.fields@) }
}

pub open spec fn union_value_view(uv: UnionValue) -> UnionValueV
    decreases uv,
{
    UnionValueV {
        fqn: uv.fqn.deep_view(),
        variant: uv.variant@,
        payload: match uv.payload {
            Option::None => None,
            Option::Some(b) => Some(Box::new(value_view(*b))),
        },
    }
}

impl View for Value {
    type V = ValueV;

    open spec fn view(&self) -> ValueV {
        value_view(*self)
    }
}

impl View for FieldVal {
    type V = FieldValV;

    open spec fn view(&self) -> FieldValV {
        FieldValV { name: self.name@, value: value_view(self.value) }
    }
}

impl View for MapEntry {
    type V = MapEntryV;

    open spec fn view(&self) -> MapEntryV {
        MapEntryV { key: self.key@, value: value_view(self.value) }
    }
}

impl View for RecordValue {
    type V = RecordValueV;

    open spec fn view(&self) -> RecordValueV {
        record_value_view(*self)
    }
}

impl View for UnionValue {
    type V = UnionValueV;

    open spec fn view(&self) -> UnionValueV {
        union_value_view(*self)
    }
}

// ---------------------------------------------------------------------------
// Indexing lemmas for the sequence views
// ---------------------------------------------------------------------------

pub proof fn lemma_values_view_len(vs: Seq<Value>)
    ensures
        values_view(vs).len() == vs.len(),
    decreases vs.len(),
{
    if vs.len() > 0 {
        lemma_values_view_len(vs.drop_last());
    }
}

pub proof fn lemma_values_view_index(vs: Seq<Value>, i: int)
    requires
        0 <= i < vs.len(),
    ensures
        values_view(vs).len() == vs.len(),
        values_view(vs)[i] == value_view(vs[i]),
    decreases vs.len(),
{
    lemma_values_view_len(vs);
    if i < vs.len() - 1 {
        lemma_values_view_index(vs.drop_last(), i);
    }
}

pub proof fn lemma_fields_view_len(fs: Seq<FieldVal>)
    ensures
        fields_view(fs).len() == fs.len(),
    decreases fs.len(),
{
    if fs.len() > 0 {
        lemma_fields_view_len(fs.drop_last());
    }
}

pub proof fn lemma_fields_view_index(fs: Seq<FieldVal>, i: int)
    requires
        0 <= i < fs.len(),
    ensures
        fields_view(fs).len() == fs.len(),
        fields_view(fs)[i] == fs[i]@,
    decreases fs.len(),
{
    lemma_fields_view_len(fs);
    if i < fs.len() - 1 {
        lemma_fields_view_index(fs.drop_last(), i);
    }
}

pub proof fn lemma_entries_view_len(es: Seq<MapEntry>)
    ensures
        entries_view(es).len() == es.len(),
    decreases es.len(),
{
    if es.len() > 0 {
        lemma_entries_view_len(es.drop_last());
    }
}

pub proof fn lemma_entries_view_index(es: Seq<MapEntry>, i: int)
    requires
        0 <= i < es.len(),
    ensures
        entries_view(es).len() == es.len(),
        entries_view(es)[i] == es[i]@,
    decreases es.len(),
{
    lemma_entries_view_len(es);
    if i < es.len() - 1 {
        lemma_entries_view_index(es.drop_last(), i);
    }
}

pub proof fn lemma_values_view_push(vs: Seq<Value>, x: Value)
    ensures
        values_view(vs.push(x)) == values_view(vs).push(value_view(x)),
{
    assert(vs.push(x).drop_last() =~= vs);
    assert(vs.push(x).last() == x);
}

pub proof fn lemma_fields_view_push(fs: Seq<FieldVal>, x: FieldVal)
    ensures
        fields_view(fs.push(x)) == fields_view(fs).push(x@),
{
    assert(fs.push(x).drop_last() =~= fs);
    assert(fs.push(x).last() == x);
}

pub proof fn lemma_entries_view_push(es: Seq<MapEntry>, x: MapEntry)
    ensures
        entries_view(es.push(x)) == entries_view(es).push(x@),
{
    assert(es.push(x).drop_last() =~= es);
    assert(es.push(x).last() == x);
}

pub proof fn lemma_values_view_drop_first(vs: Seq<Value>)
    requires
        vs.len() > 0,
    ensures
        values_view(vs).len() == vs.len(),
        values_view(vs)[0] == value_view(vs[0]),
        values_view(vs).drop_first() == values_view(vs.drop_first()),
{
    lemma_values_view_index(vs, 0);
    assert forall|k: int|
        0 <= k < values_view(vs).drop_first().len() implies values_view(vs).drop_first()[k]
        == values_view(vs.drop_first())[k] by {
        lemma_values_view_index(vs, k + 1);
        lemma_values_view_index(vs.drop_first(), k);
        assert(vs.drop_first()[k] == vs[k + 1]);
    }
    lemma_values_view_len(vs.drop_first());
    assert(values_view(vs).drop_first() =~= values_view(vs.drop_first()));
}

pub proof fn lemma_fields_view_drop_first(fs: Seq<FieldVal>)
    requires
        fs.len() > 0,
    ensures
        fields_view(fs).len() == fs.len(),
        fields_view(fs)[0] == fs[0]@,
        fields_view(fs).drop_first() == fields_view(fs.drop_first()),
{
    lemma_fields_view_index(fs, 0);
    assert forall|k: int|
        0 <= k < fields_view(fs).drop_first().len() implies fields_view(fs).drop_first()[k]
        == fields_view(fs.drop_first())[k] by {
        lemma_fields_view_index(fs, k + 1);
        lemma_fields_view_index(fs.drop_first(), k);
        assert(fs.drop_first()[k] == fs[k + 1]);
    }
    lemma_fields_view_len(fs.drop_first());
    assert(fields_view(fs).drop_first() =~= fields_view(fs.drop_first()));
}

pub proof fn lemma_entries_view_drop_first(es: Seq<MapEntry>)
    requires
        es.len() > 0,
    ensures
        entries_view(es).len() == es.len(),
        entries_view(es)[0] == es[0]@,
        entries_view(es).drop_first() == entries_view(es.drop_first()),
{
    lemma_entries_view_index(es, 0);
    assert forall|k: int|
        0 <= k < entries_view(es).drop_first().len() implies entries_view(es).drop_first()[k]
        == entries_view(es.drop_first())[k] by {
        lemma_entries_view_index(es, k + 1);
        lemma_entries_view_index(es.drop_first(), k);
        assert(es.drop_first()[k] == es[k + 1]);
    }
    lemma_entries_view_len(es.drop_first());
    assert(entries_view(es).drop_first() =~= entries_view(es.drop_first()));
}

/// The model of an optional runtime value's content.
pub open spec fn opt_view(o: Option<Box<Value>>) -> Option<Box<ValueV>> {
    match o {
        Option::None => None,
        Option::Some(b) => Some(Box::new(value_view(*b))),
    }
}

} // verus!
