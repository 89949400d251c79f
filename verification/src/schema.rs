//! The schema model: a tree of modules holding records (structs with named,
//! typed fields) and unions (enums whose variants carry at most one payload
//! type). Built once by the schema-loading collaborator, immutable during
//! traversal.

use vstd::prelude::*;

use crate::type_path::TypeName;
use crate::type_path::TypeNameV;
use crate::type_path::type_name_view;

verus! {

/// A named field with its declared type.
#[derive(Debug, PartialEq)]
pub struct FieldDef {
    pub name: String,
    pub ty: TypeName,
}

/// A record definition: a name and its ordered fields.
#[derive(Debug, PartialEq)]
pub struct Struct {
    pub name: String,
    pub fields: Vec<FieldDef>,
}

/// A union variant: a name and an optional payload type.
#[derive(Debug, PartialEq)]
pub struct VariantDef {
    pub name: String,
    pub payload: Option<TypeName>,
}

/// A union definition: a name and its ordered variants.
#[derive(Debug, PartialEq)]
pub struct Enum {
    pub name: String,
    pub variants: Vec<VariantDef>,
}

/// One item declared in a module.
#[derive(Debug, PartialEq)]
pub enum SchemaItem {
    Mod(Mod),
    Struct(Struct),
    Enum(Enum),
}

/// A module: a name and the items declared directly in it.
#[derive(Debug, PartialEq)]
pub struct Mod {
    pub name: String,
    pub items: Vec<SchemaItem>,
}

// ---------------------------------------------------------------------------
// Mathematical models
// ---------------------------------------------------------------------------

pub ghost struct FieldDefV {
    pub name: Seq<char>,
    pub ty: TypeNameV,
}

pub ghost struct StructV {
    pub name: Seq<char>,
    pub fields: Seq<FieldDefV>,
}

pub ghost struct VariantDefV {
    pub name: Seq<char>,
    pub payload: Option<TypeNameV>,
}

pub ghost struct EnumV {
    pub name: Seq<char>,
    pub variants: Seq<VariantDefV>,
}

pub ghost enum SchemaItemV {
    Mod(ModV),
    Struct(StructV),
    Enum(EnumV),
}

pub ghost struct ModV {
    pub name: Seq<char>,
    pub items: Seq<SchemaItemV>,
}

impl View for FieldDef {
    type V = FieldDefV;

    open spec fn view(&self) -> FieldDefV {
        FieldDefV { name: self.name@, ty: self.ty@ }
    }
}

/// The models of a record's fields.
pub open spec fn field_defs_view(fs: Seq<FieldDef>) -> Seq<FieldDefV> {
    Seq::new(fs.len(), |i: int| fs[i]@)
}

/// The models of a union's variants.
pub open spec fn variant_defs_view(vs: Seq<VariantDef>) -> Seq<VariantDefV> {
    Seq::new(vs.len(), |i: int| vs[i]@)
}

impl View for Struct {
    type V = StructV;

    open spec fn view(&self) -> StructV {
        StructV { name: self.name@, fields: field_defs_view(self.fields@) }
    }
}

impl View for VariantDef {
    type V = VariantDefV;

    open spec fn view(&self) -> VariantDefV {
        VariantDefV {
            name: self.name@,
            payload: match self.payload {
                Option::None => None,
                Option::Some(t) => Some(type_name_view(t)),
            },
        }
    }
}

impl View for Enum {
    type V = EnumV;

    open spec fn view(&self) -> EnumV {
        EnumV { name: self.name@, variants: variant_defs_view(self.variants@) }
    }
}

pub open spec fn schema_item_view(it: SchemaItem) -> SchemaItemV
    decreases it,
{
    match it {
        SchemaItem::Mod(m) => SchemaItemV::Mod(mod_view(m)),
        SchemaItem::Struct(s) => SchemaItemV::Struct(s@),
        SchemaItem::Enum(e) => SchemaItemV::Enum(e@),
    }
}

pub open spec fn schema_items_view(its: Seq<SchemaItem>) -> Seq<SchemaItemV>
    decreases its,
{
    if its.len() == 0 {
        Seq::empty()
    } else {
        schema_items_view(its.drop_last()).push(schema_item_view(its.last()))
    }
}

pub open spec fn mod_view(m: Mod) -> ModV
    decreases m,
{
    ModV { name: m.name@, items: schema_items_view(m.items@) }
}

impl View for SchemaItem {
    type V = SchemaItemV;

    open spec fn view(&self) -> SchemaItemV {
        schema_item_view(*self)
    }
}

impl View for Mod {
    type V = ModV;

    open spec fn view(&self) -> ModV {
        mod_view(*self)
    }
}

pub proof fn lemma_schema_items_view_len(its: Seq<SchemaItem>)
    ensures
        schema_items_view(its).len() == its.len(),
    decreases its.len(),
{
    if its.len() > 0 {
        lemma_schema_items_view_len(its.drop_last());
    }
}

pub proof fn lemma_schema_items_view_index(its: Seq<SchemaItem>, i: int)
    requires
        0 <= i < its.len(),
    ensures
        schema_items_view(its).len() == its.len(),
        schema_items_view(its)[i] == schema_item_view(its[i]),
    decreases its.len(),
{
    lemma_schema_items_view_len(its);
    if i < its.len() - 1 {
        lemma_schema_items_view_index(its.drop_last(), i);
    }
}

pub proof fn lemma_schema_items_view_drop_first(its: Seq<SchemaItem>)
    requires
        its.len() > 0,
    ensures
        schema_items_view(its).len() == its.len(),
        schema_items_view(its)[0] == schema_item_view(its[0]),
        schema_items_view(its).drop_first() == schema_items_view(its.drop_first()),
{
    lemma_schema_items_view_index(its, 0);
    assert forall|k: int|
        0 <= k < schema_items_view(its).drop_first().len() implies schema_items_view(
        its,
    ).drop_first()[k] == schema_items_view(its.drop_first())[k] by {
        lemma_schema_items_view_index(its, k + 1);
        lemma_schema_items_view_index(its.drop_first(), k);
        assert(its.drop_first()[k] == its[k + 1]);
    }
    lemma_schema_items_view_len(its.drop_first());
    assert(schema_items_view(its).drop_first() =~= schema_items_view(its.drop_first()));
}

} // verus!
