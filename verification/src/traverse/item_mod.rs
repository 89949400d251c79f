//! Traversal of one module: recurse into its items with the module's name
//! pushed on the path stack; a module whose traversal contributes nothing
//! is omitted from the output.

use vstd::prelude::*;

use crate::config::Config;
use crate::paths::clone_string_vec;
use crate::schema::Mod;
use crate::schema::SchemaItemV;
use crate::schema::mod_view;
use crate::traverse::OutputItem;
use crate::traverse::OutputItemV;
use crate::traverse::OutputMod;
use crate::traverse::OutputModV;
use crate::traverse::TraverseError;
use crate::traverse::TraverseErrorV;
use crate::traverse::copy_items_from;
use crate::traverse::lemma_output_items_view_len;
use crate::traverse::output_item_view;
use crate::traverse::output_items_view;
use crate::traverse::spec_traverse_item;
use crate::traverse::spec_traverse_items;

verus! {

impl Mod {
    /// The output of this module: its traversed contents wrapped in a
    /// module of the same name, or nothing when the contents are empty.
    pub fn traverse(config: &Config, item: &Mod, ident_stack: &Vec<String>) -> (r: Result<
        Option<OutputItem>,
        TraverseError,
    >)
        ensures
            match r {
                Ok(o) => spec_traverse_item(
                    config@.spec_tree,
                    ident_stack.deep_view(),
                    SchemaItemV::Mod(mod_view(*item)),
                ) matches Ok(ws) && ws == (match o {
                    Option::Some(x) => seq![output_item_view(x)],
                    Option::None => Seq::<OutputItemV>::empty(),
                }),
                Err(e) => spec_traverse_item(
                    config@.spec_tree,
                    ident_stack.deep_view(),
                    SchemaItemV::Mod(mod_view(*item)),
                ) == Err::<Seq<OutputItemV>, TraverseErrorV>(e@),
            },
        decreases *item, 0int,
    {
        let mut stack2 = clone_string_vec(ident_stack);
        stack2.push(item.name.clone());
        proof {
            assert(stack2.deep_view() =~= ident_stack.deep_view().push(item.name@));
            assert(decreases_to!(*item => item.items));
            assert(decreases_to!(item.items => item.items@));
            assert(item.items@.skip(0) =~= item.items@);
        }
        let mut out: Vec<OutputItem> = Vec::new();
        match copy_items_from(config, &stack2, &item.items, 0, &mut out) {
            Err(e) => Err(e),
            Ok(_) => {
                proof {
                    assert(output_items_view(Seq::<OutputItem>::empty()) + spec_traverse_items(
                        config@.spec_tree,
                        stack2.deep_view(),
                        mod_view(*item).items,
                    )->Ok_0 =~= spec_traverse_items(
                        config@.spec_tree,
                        stack2.deep_view(),
                        mod_view(*item).items,
                    )->Ok_0);
                    lemma_output_items_view_len(out@);
                }
                if out.len() == 0 {
                    Ok(None)
                } else {
                    let m = OutputMod { name: item.name.clone(), items: out };
                    proof {
                        assert(output_item_view(OutputItem::Mod(m)) == OutputItemV::Mod(
                            OutputModV { name: item.name@, items: output_items_view(m.items@) },
                        ));
                    }
                    Ok(Some(OutputItem::Mod(m)))
                }
            }
        }
    }
}

} // verus!
