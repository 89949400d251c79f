//! The conversion pair synthesized for one union. Variants are not
//! individually configurable, so the pair is keyed by the union's
//! fully-qualified name alone; its `try_from_original` and `into_original`
//! methods convert the variant payload recursively.

use vstd::prelude::*;

use crate::config::Config;
use crate::convert::Error;
use crate::convert::downcast;
use crate::convert::impls_view;
use crate::convert::spec_downcast;
use crate::convert::spec_upcast;
use crate::convert::upcast;
use crate::paths::clone_string_vec;
use crate::schema::Enum;
use crate::traverse::item_struct_impl::StructImpl;
use crate::value::UnionValue;
use crate::value::UnionValueV;
use crate::value::ValueV;
use crate::value::value_view;

verus! {

/// The conversion pair emitted for one union.
#[derive(Debug, PartialEq)]
pub struct EnumImpl {
    pub fqn: Vec<String>,
}

pub ghost struct EnumImplV {
    pub fqn: Seq<Seq<char>>,
}

impl View for EnumImpl {
    type V = EnumImplV;

    open spec fn view(&self) -> EnumImplV {
        EnumImplV { fqn: self.fqn.deep_view() }
    }
}

impl EnumImpl {
    /// The conversion pair for the union at the path on the stack.
    pub fn traverse(_config: &Config, _item: &Enum, ident_stack: &Vec<String>) -> (r: EnumImpl)
        ensures
            r@ == (EnumImplV { fqn: ident_stack.deep_view() }),
    {
        EnumImpl { fqn: clone_string_vec(ident_stack) }
    }

    /// The union's downcast: the variant is kept and its payload, if any,
    /// converts recursively; a failing payload fails the whole downcast.
    pub fn try_from_original(&self, impls: &Vec<StructImpl>, value: &UnionValue) -> (r: Result<
        UnionValue,
        Error,
    >)
        ensures
            match r {
                Ok(w) => spec_downcast(impls_view(impls@), ValueV::Union(value@)) == Ok::<
                    ValueV,
                    Seq<char>,
                >(ValueV::Union(w@)),
                Err(e) => spec_downcast(impls_view(impls@), ValueV::Union(value@)) == Err::<
                    ValueV,
                    Seq<char>,
                >(e@),
            },
    {
        match &value.payload {
            Option::None => {
                let w = UnionValue {
                    fqn: clone_string_vec(&value.fqn),
                    variant: value.variant.clone(),
                    payload: None,
                };
                proof {
                    assert(w@ == value@);
                }
                Ok(w)
            }
            Option::Some(b) => {
                proof {
                    assert(value@.payload == Some(Box::new(value_view(**b))));
                }
                match downcast(impls, b) {
                    Ok(w) => {
                        let ghost wv = w@;
                        let nw = UnionValue {
                            fqn: clone_string_vec(&value.fqn),
                            variant: value.variant.clone(),
                            payload: Some(Box::new(w)),
                        };
                        proof {
                            assert(nw@ == (UnionValueV {
                                fqn: value@.fqn,
                                variant: value@.variant,
                                payload: Some(Box::new(wv)),
                            }));
                        }
                        Ok(nw)
                    }
                    Err(e) => Err(e),
                }
            }
        }
    }

    /// The union's upcast: total; the variant is kept and its payload, if
    /// any, is restored recursively.
    pub fn into_original(&self, impls: &Vec<StructImpl>, value: &UnionValue) -> (w: UnionValue)
        ensures
            ValueV::Union(w@) == spec_upcast(impls_view(impls@), ValueV::Union(value@)),
    {
        match &value.payload {
            Option::None => {
                let w = UnionValue {
                    fqn: clone_string_vec(&value.fqn),
                    variant: value.variant.clone(),
                    payload: None,
                };
                proof {
                    assert(w@ == value@);
                }
                w
            }
            Option::Some(b) => {
                proof {
                    assert(value@.payload == Some(Box::new(value_view(**b))));
                }
                let w = upcast(impls, b);
                let ghost wv = w@;
                let nw = UnionValue {
                    fqn: clone_string_vec(&value.fqn),
                    variant: value.variant.clone(),
                    payload: Some(Box::new(w)),
                };
                proof {
                    assert(nw@ == (UnionValueV {
                        fqn: value@.fqn,
                        variant: value@.variant,
                        payload: Some(Box::new(wv)),
                    }));
                }
                nw
            }
        }
    }
}

} // verus!
