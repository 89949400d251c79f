//! The conversion pair synthesized for one record: which of its fields are
//! unwrapped as required, keyed by the record's fully-qualified name. Its
//! `try_from_original` and `into_original` methods carry out the record's
//! downcast and upcast on runtime values.

use vstd::prelude::*;

use crate::config::Config;
use crate::convert::Error;
use crate::convert::downcast_fields_from;
use crate::convert::impls_view;
use crate::convert::spec_downcast_fields;
use crate::convert::spec_upcast_fields;
use crate::convert::upcast_fields_from;
use crate::paths::clone_string_vec;
use crate::schema::Struct;
use crate::spec_tree::SpecTreeLeaf;
use crate::spec_tree::SpecTreeLeafV;
use crate::spec_tree::get_spec;
use crate::traverse::TraverseError;
use crate::traverse::TraverseErrorV;
use crate::traverse::required_in_tree;
use crate::value::FieldVal;
use crate::value::FieldValV;
use crate::value::RecordValue;
use crate::value::fields_view;

verus! {

/// The conversion pair emitted for one record: the record's qualified name
/// and the names of the fields whose optional wrapper is stripped.
#[derive(Debug, PartialEq)]
pub struct StructImpl {
    pub fqn: Vec<String>,
    pub required: Vec<String>,
}

pub ghost struct StructImplV {
    pub fqn: Seq<Seq<char>>,
    pub required: Seq<Seq<char>>,
}

impl View for StructImpl {
    type V = StructImplV;

    open spec fn view(&self) -> StructImplV {
        StructImplV { fqn: self.fqn.deep_view(), required: self.required.deep_view() }
    }
}

impl StructImpl {
    /// The conversion pair for the record at the path on the stack: its
    /// qualified name and the required-field names of its record marker. A
    /// union marker on the record's path is the same hard mismatch the
    /// mirror-definition step reports.
    pub fn traverse(config: &Config, item: &Struct, ident_stack: &Vec<String>) -> (r: Result<
        StructImpl,
        TraverseError,
    >)
        ensures
            match r {
                Ok(si) => !(get_spec(config@.spec_tree, ident_stack.deep_view()) matches Some(
                    SpecTreeLeafV::Enum(_),
                )) && si@ == (StructImplV {
                    fqn: ident_stack.deep_view(),
                    required: required_in_tree(config@.spec_tree, ident_stack.deep_view()),
                }),
                Err(e) => get_spec(config@.spec_tree, ident_stack.deep_view()) matches Some(
                    SpecTreeLeafV::Enum(_),
                ) && e@ == (TraverseErrorV::ExpectedEnumFoundStruct {
                    fqn: ident_stack.deep_view(),
                }),
            },
    {
        match config.spec_tree.get_leaf(ident_stack) {
            Option::None => {
                let required: Vec<String> = Vec::new();
                proof {
                    assert(required.deep_view() =~= Seq::<Seq<char>>::empty());
                }
                Ok(StructImpl { fqn: clone_string_vec(ident_stack), required })
            }
            Option::Some(leaf) => match leaf {
                SpecTreeLeaf::Enum(_) => Err(
                    TraverseError::ExpectedEnumFoundStruct { fqn: clone_string_vec(ident_stack) },
                ),
                SpecTreeLeaf::Struct(sp) => Ok(
                    StructImpl {
                        fqn: clone_string_vec(ident_stack),
                        required: clone_string_vec(&sp.fields),
                    },
                ),
            },
        }
    }

    /// The record's downcast: converts the fields of `value` in declared
    /// order under this pair's required set, fail-fast; an absent required
    /// field fails with the reason naming this pair's qualified path.
    pub fn try_from_original(&self, impls: &Vec<StructImpl>, value: &RecordValue) -> (r: Result<
        RecordValue,
        Error,
    >)
        ensures
            match r {
                Ok(w) => spec_downcast_fields(
                    impls_view(impls@),
                    self@.fqn,
                    self@.required,
                    fields_view(value.fields@),
                ) == Ok::<Seq<FieldValV>, Seq<char>>(fields_view(w.fields@)) && w.fqn.deep_view()
                    == value.fqn.deep_view(),
                Err(e) => spec_downcast_fields(
                    impls_view(impls@),
                    self@.fqn,
                    self@.required,
                    fields_view(value.fields@),
                ) == Err::<Seq<FieldValV>, Seq<char>>(e@),
            },
    {
        proof {
            assert(value.fields@.skip(0) =~= value.fields@);
        }
        let mut out: Vec<FieldVal> = Vec::new();
        match downcast_fields_from(impls, &self.fqn, &self.required, &value.fields, 0, &mut out) {
            Err(e) => Err(e),
            Ok(_) => {
                proof {
                    assert(fields_view(Seq::<FieldVal>::empty()) + fields_view(out@)
                        =~= fields_view(out@));
                }
                Ok(RecordValue { fqn: clone_string_vec(&value.fqn), fields: out })
            }
        }
    }

    /// The record's upcast: total; re-wraps this pair's required fields in
    /// a present optional and restores the others.
    pub fn into_original(&self, impls: &Vec<StructImpl>, value: &RecordValue) -> (w: RecordValue)
        ensures
            fields_view(w.fields@) == spec_upcast_fields(
                impls_view(impls@),
                self@.required,
                fields_view(value.fields@),
            ),
            w.fqn.deep_view() == value.fqn.deep_view(),
    {
        proof {
            assert(value.fields@.skip(0) =~= value.fields@);
        }
        let mut out: Vec<FieldVal> = Vec::new();
        upcast_fields_from(impls, &self.required, &value.fields, 0, &mut out);
        proof {
            assert(fields_view(Seq::<FieldVal>::empty()) + spec_upcast_fields(
                impls_view(impls@),
                self.required.deep_view(),
                fields_view(value.fields@),
            ) =~= spec_upcast_fields(
                impls_view(impls@),
                self.required.deep_view(),
                fields_view(value.fields@),
            ));
        }
        RecordValue { fqn: clone_string_vec(&value.fqn), fields: out }
    }
}

} // verus!
