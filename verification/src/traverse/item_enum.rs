//! Mirroring one union definition. Variants are not individually
//! configurable: the union is copied as it stands; the only hard error is a
//! record marker sitting on a union path.

use vstd::prelude::*;

use crate::config::Config;
use crate::paths::clone_string_vec;
use crate::schema::Enum;
use crate::schema::EnumV;
use crate::schema::VariantDef;
use crate::schema::variant_defs_view;
use crate::spec_tree::SpecTreeLeaf;
use crate::spec_tree::SpecTreeLeafV;
use crate::spec_tree::SpecTreeNodeV;
use crate::spec_tree::get_spec;
use crate::traverse::TraverseError;
use crate::traverse::TraverseErrorV;

verus! {

/// The mirror definition of one union: the union itself, unless a record
/// marker occupies its path, which is a hard mismatch.
pub open spec fn spec_mirror_enum(
    tree: SpecTreeNodeV,
    path: Seq<Seq<char>>,
    e: EnumV,
) -> Result<EnumV, TraverseErrorV> {
    match get_spec(tree, path) {
        Option::None => Ok(e),
        Option::Some(leaf) => match leaf {
            SpecTreeLeafV::Struct(_) => Err(
                TraverseErrorV::ExpectedStructFoundEnum { fqn: path },
            ),
            SpecTreeLeafV::Enum(_) => Ok(e),
        },
    }
}

/// A structurally equal copy of a variant definition.
fn duplicate_variant(v: &VariantDef) -> (r: VariantDef)
    ensures
        r@ == v@,
{
    let payload = match &v.payload {
        Option::None => None,
        Option::Some(t) => Some(t.duplicate()),
    };
    VariantDef { name: v.name.clone(), payload }
}

/// A structurally equal copy of a union definition.
fn duplicate_enum(item: &Enum) -> (r: Enum)
    ensures
        r@ == item@,
{
    let mut variants: Vec<VariantDef> = Vec::new();
    let mut i: usize = 0;
    #[verifier::loop_isolation(false)]
    while i < item.variants.len()
        invariant
            i <= item.variants.len(),
            variants@.len() == i,
            forall|k: int| 0 <= k < i ==> (#[trigger] variants@[k])@ == item.variants@[k]@,
        decreases item.variants.len() - i,
    {
        let v = duplicate_variant(&item.variants[i]);
        variants.push(v);
        i = i + 1;
    }
    let r = Enum { name: item.name.clone(), variants };
    proof {
        assert(variant_defs_view(r.variants@) =~= variant_defs_view(item.variants@));
    }
    r
}

impl Enum {
    /// The mirror definition of this union at the path on the stack; see
    /// `spec_mirror_enum`.
    pub fn traverse(config: &Config, item: &Enum, ident_stack: &Vec<String>) -> (r: Result<
        Enum,
        TraverseError,
    >)
        ensures
            match r {
                Ok(m) => spec_mirror_enum(config@.spec_tree, ident_stack.deep_view(), item@)
                    == Ok::<EnumV, TraverseErrorV>(m@),
                Err(e) => spec_mirror_enum(config@.spec_tree, ident_stack.deep_view(), item@)
                    == Err::<EnumV, TraverseErrorV>(e@),
            },
    {
        match config.spec_tree.get_leaf(ident_stack) {
            Option::None => Ok(duplicate_enum(item)),
            Option::Some(leaf) => match leaf {
                SpecTreeLeaf::Struct(_) => Err(
                    TraverseError::ExpectedStructFoundEnum { fqn: clone_string_vec(ident_stack) },
                ),
                SpecTreeLeaf::Enum(_) => Ok(duplicate_enum(item)),
            },
        }
    }
}

} // verus!
