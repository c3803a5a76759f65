//! The walk over a command tree that collects the records of a page.

use vstd::prelude::*;
use crate::command::{fmt_cmd, record};
use crate::node::{descendants_supported, supported_throughout, CommandNode, CommandSpec};
use crate::record::{CommandRecord, FmtCommands, Page, PageModel};
use crate::text::{copy_texts, views};

verus! {

/// The records of the visible commands among `subs` and of everything
/// visible below them: each command before its subcommands, siblings in
/// declaration order. `chain` names the commands above `subs`, outermost
/// first. A hidden command is left out together with all that stands below it.
pub open spec fn forest_records(subs: Seq<CommandSpec>, chain: Seq<Seq<char>>) -> Seq<
    CommandRecord,
>
    decreases subs,
{
    if subs.len() == 0 {
        Seq::empty()
    } else {
        let last = subs.last();
        forest_records(subs.drop_last(), chain) + (if last.hidden {
            Seq::empty()
        } else {
            seq![record(last, chain)] + forest_records(last.subcommands, chain.push(last.name))
        })
    }
}

/// The records of everything visible below `c`, where `parents` names the
/// commands above `c`.
pub open spec fn descendant_records(c: CommandSpec, parents: Seq<Seq<char>>) -> Seq<
    CommandRecord,
> {
    forest_records(c.subcommands, parents.push(c.name))
}

/// The page of a command tree: the record of the root, which is shown
/// whether hidden or not, and the records of everything visible below it.
pub open spec fn page_of(root: CommandSpec) -> PageModel {
    PageModel {
        main: record(root, Seq::empty()),
        subcommands: descendant_records(root, Seq::empty()),
    }
}

/// A page is a function of the tree it is built from: what two runs make
/// of one tree, or of two trees with the same content, agrees in every
/// record and every character.
pub proof fn lemma_same_tree_same_page(
    first_tree: CommandNode,
    second_tree: CommandNode,
    first: Page,
    second: Page,
)
    requires
        first_tree@ == second_tree@,
        first@ == page_of(first_tree@),
        second@ == page_of(second_tree@),
    ensures
        first@ == second@,
        first.main.title@ == second.main.title@,
        first.main.cmd_chain@ == second.main.cmd_chain@,
        first.subcommands.len() == second.subcommands.len(),
        forall|i: int|
            0 <= i < first.subcommands.len() ==> (#[trigger] first.subcommands[i])@
                == second.subcommands[i]@,
{
    assert(views(first.subcommands@) == views(second.subcommands@));
    assert forall|i: int| 0 <= i < first.subcommands.len() implies (#[trigger] first.subcommands[i])@
        == second.subcommands[i]@ by {
        assert(views(first.subcommands@)[i] == first.subcommands[i]@);
        assert(views(second.subcommands@)[i] == second.subcommands[i]@);
    }
}

/// Appends to `children_commands` the records of everything visible below
/// `subcommand`, where `parents` names the commands above `subcommand`.
pub fn extract_subcommands(
    subcommand: &CommandNode,
    children_commands: &mut Vec<FmtCommands>,
    parents: Vec<String>,
)
    requires
        descendants_supported(subcommand@),
    ensures
        views(final(children_commands)@) == views(old(children_commands)@) + descendant_records(
            subcommand@,
            views(parents@),
        ),
    decreases subcommand,
{
    let ghost before = views(children_commands@);
    let ghost subs = subcommand@.subcommands;
    let ghost above = views(parents@);
    let mut parents = parents;
    parents.push(subcommand.name.clone());
    let ghost chain = views(parents@);
    proof {
        subcommand.lemma_view_subcommands();
        assert(chain =~= above.push(subcommand@.name));
        assert(before + forest_records(subs.take(0), chain) =~= before);
    }
    let mut i: usize = 0;
    while i < subcommand.subcommands.len()
        invariant
            i <= subcommand.subcommands.len(),
            subs == subcommand@.subcommands,
            subs.len() == subcommand.subcommands.len(),
            forall|j: int|
                0 <= j < subs.len() ==> #[trigger] subs[j] == subcommand.subcommands[j]@,
            descendants_supported(subcommand@),
            chain == views(parents@),
            views(children_commands@) == before + forest_records(subs.take(i as int), chain),
        decreases subcommand.subcommands.len() - i,
    {
        let child = &subcommand.subcommands[i];
        let ghost so_far = views(children_commands@);
        proof {
            assert(subs[i as int] == child@);
            assert(subs.take(i + 1).drop_last() =~= subs.take(i as int));
            assert(subs.take(i + 1).last() == child@);
        }
        if !child.hidden {
            children_commands.push(fmt_cmd(child, copy_texts(&parents)));
            proof {
                assert(views(children_commands@) =~= so_far.push(record(child@, chain)));
            }
            extract_subcommands(child, children_commands, copy_texts(&parents));
            proof {
                assert(views(children_commands@) =~= so_far + (seq![record(child@, chain)]
                    + forest_records(child@.subcommands, chain.push(child@.name))));
            }
        }
        proof {
            assert(views(children_commands@) =~= before + forest_records(
                subs.take(i + 1),
                chain,
            ));
        }
        i = i + 1;
    }
    proof {
        assert(subs.take(subs.len() as int) =~= subs);
    }
}

/// Builds the page of the command tree under `command`.
pub fn build_cmd(command: &CommandNode) -> (r: Page)
    requires
        supported_throughout(command@),
    ensures
        r@ == page_of(command@),
{
    let main = fmt_cmd(command, Vec::new());
    let mut children_commands: Vec<FmtCommands> = Vec::new();
    extract_subcommands(command, &mut children_commands, Vec::new());
    proof {
        assert(views(Seq::<String>::empty()) =~= Seq::<Seq<char>>::empty());
        assert(views(Seq::<FmtCommands>::empty()) + descendant_records(command@, Seq::empty())
            =~= descendant_records(command@, Seq::empty()));
    }
    Page { main, subcommands: children_commands }
}

/// Collects the help of `command` and of every visible command below it as
/// the records of one page.
pub fn help_command(command: &CommandNode) -> (r: Page)
    requires
        supported_throughout(command@),
    ensures
        r@ == page_of(command@),
{
    build_cmd(command)
}

} // verus!
