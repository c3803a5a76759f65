//! Which commands of a tree a page shows, told by their positions.
//!
//! A position is a list of indices: the first picks a command from a list of
//! commands, each further one a subcommand of the command picked before.
//! Names cannot tell commands apart, since two siblings may share one.

use vstd::prelude::*;
use crate::command::record;
use crate::helpers::{anchor_text, lemma_anchor_of_plain_chain};
use crate::node::CommandSpec;
use crate::record::CommandRecord;
use crate::text::{join, lemma_join_push};
use crate::walk::{forest_records, page_of};

verus! {

/// Whether `path` leads from the list `subs` to a command, and neither that
/// command nor any command on the way is hidden.
pub open spec fn visible_in(subs: Seq<CommandSpec>, path: Seq<int>) -> bool
    decreases path.len(),
{
    &&& path.len() > 0
    &&& 0 <= path[0] < subs.len()
    &&& !subs[path[0]].hidden
    &&& (path.len() == 1 || visible_in(subs[path[0]].subcommands, path.skip(1)))
}

/// The names of the commands that `path` passes, from the one in `subs` to
/// the one it ends at.
pub open spec fn names_in(subs: Seq<CommandSpec>, path: Seq<int>) -> Seq<Seq<char>>
    decreases path.len(),
{
    if path.len() == 0 {
        Seq::empty()
    } else {
        seq![subs[path[0]].name] + names_in(subs[path[0]].subcommands, path.skip(1))
    }
}

/// Whether `path` leads from the list `subs` to a command that is hidden.
pub open spec fn hidden_at(subs: Seq<CommandSpec>, path: Seq<int>) -> bool
    decreases path.len(),
{
    &&& path.len() > 0
    &&& 0 <= path[0] < subs.len()
    &&& if path.len() == 1 {
        subs[path[0]].hidden
    } else {
        hidden_at(subs[path[0]].subcommands, path.skip(1))
    }
}

/// The record of the command that `path` ends at, where `chain` names the
/// commands above `subs`.
pub open spec fn record_in(
    subs: Seq<CommandSpec>,
    path: Seq<int>,
    chain: Seq<Seq<char>>,
) -> CommandRecord
    decreases path.len(),
{
    if path.len() <= 1 {
        record(subs[path[0]], chain)
    } else {
        record_in(subs[path[0]].subcommands, path.skip(1), chain.push(subs[path[0]].name))
    }
}

/// Puts the index `k` in front of a position.
pub open spec fn below(k: int) -> spec_fn(Seq<int>) -> Seq<int> {
    |q: Seq<int>| seq![k] + q
}

/// The positions of the commands that a page shows of `subs`, in the order
/// in which it shows them.
pub open spec fn forest_paths(subs: Seq<CommandSpec>) -> Seq<Seq<int>>
    decreases subs,
{
    if subs.len() == 0 {
        Seq::empty()
    } else {
        let k = subs.len() - 1;
        let last = subs.last();
        forest_paths(subs.drop_last()) + (if last.hidden {
            Seq::empty()
        } else {
            seq![seq![k]] + forest_paths(last.subcommands).map_values(below(k))
        })
    }
}

proof fn lemma_longer_list(subs: Seq<CommandSpec>, path: Seq<int>, chain: Seq<Seq<char>>)
    requires
        subs.len() > 0,
        visible_in(subs.drop_last(), path),
    ensures
        visible_in(subs, path),
        record_in(subs, path, chain) == record_in(subs.drop_last(), path, chain),
{
    assert(subs.drop_last()[path[0]] == subs[path[0]]);
}

/// The records of a list of commands stand one to one beside the positions
/// of its visible commands: as many, and each the record of the command at
/// its position.
pub proof fn lemma_forest_entries(subs: Seq<CommandSpec>, chain: Seq<Seq<char>>)
    ensures
        forest_records(subs, chain).len() == forest_paths(subs).len(),
        forall|j: int|
            0 <= j < forest_paths(subs).len() ==> visible_in(subs, #[trigger] forest_paths(subs)[j])
                && forest_records(subs, chain)[j] == record_in(subs, forest_paths(subs)[j], chain),
    decreases subs,
{
    if subs.len() > 0 {
        let k = subs.len() - 1;
        let last = subs.last();
        let init = subs.drop_last();
        let inner = chain.push(last.name);
        let paths = forest_paths(subs);
        let records = forest_records(subs, chain);
        let n = forest_paths(init).len() as int;
        lemma_forest_entries(init, chain);
        lemma_forest_entries(last.subcommands, inner);
        assert forall|j: int| 0 <= j < paths.len() implies visible_in(subs, #[trigger] paths[j])
            && records[j] == record_in(subs, paths[j], chain) by {
            if j < n {
                assert(paths[j] == forest_paths(init)[j]);
                lemma_longer_list(subs, paths[j], chain);
            } else if j == n {
                assert(paths[j] == seq![k]);
            } else {
                let q = forest_paths(last.subcommands)[j - n - 1];
                assert(paths[j] == seq![k] + q);
                assert(paths[j].skip(1) =~= q);
                assert(records[j] == forest_records(last.subcommands, inner)[j - n - 1]);
            }
        }
    }
}

/// Every visible command of a list has its position among those that a
/// page shows.
pub proof fn lemma_forest_paths_complete(subs: Seq<CommandSpec>, path: Seq<int>)
    requires
        visible_in(subs, path),
    ensures
        forest_paths(subs).contains(path),
    decreases subs,
{
    let k = subs.len() - 1;
    let last = subs.last();
    let init = subs.drop_last();
    let paths = forest_paths(subs);
    let n = forest_paths(init).len() as int;
    if path[0] < k {
        assert(init[path[0]] == subs[path[0]]);
        assert(visible_in(init, path));
        lemma_forest_paths_complete(init, path);
        let j = choose|j: int| 0 <= j < n && forest_paths(init)[j] == path;
        assert(paths[j] == path);
    } else if path.len() == 1 {
        assert(path =~= seq![k]);
        assert(paths[n] == path);
    } else {
        let q = path.skip(1);
        lemma_forest_paths_complete(last.subcommands, q);
        let m = choose|m: int|
            0 <= m < forest_paths(last.subcommands).len() && forest_paths(last.subcommands)[m]
                == q;
        assert(paths[n + 1 + m] == seq![k] + q);
        assert(seq![k] + q =~= path);
    }
}

/// No position is shown twice.
pub proof fn lemma_forest_paths_distinct(subs: Seq<CommandSpec>)
    ensures
        forest_paths(subs).no_duplicates(),
    decreases subs,
{
    if subs.len() > 0 {
        let k = subs.len() - 1;
        let last = subs.last();
        let init = subs.drop_last();
        let paths = forest_paths(subs);
        let deeper = forest_paths(last.subcommands);
        let n = forest_paths(init).len() as int;
        lemma_forest_paths_distinct(init);
        lemma_forest_paths_distinct(last.subcommands);
        lemma_forest_entries(init, Seq::empty());
        lemma_forest_entries(last.subcommands, Seq::empty());
        assert forall|i: int, j: int| 0 <= i < j < paths.len() implies paths[i] != paths[j] by {
            if j < n {
                assert(paths[i] == forest_paths(init)[i]);
                assert(paths[j] == forest_paths(init)[j]);
            } else if i < n {
                assert(paths[i] == forest_paths(init)[i]);
                assert(visible_in(init, paths[i]));
                assert(paths[i][0] < k);
                assert(paths[j][0] == k);
            } else if i == n {
                assert(paths[i].len() == 1);
                assert(visible_in(last.subcommands, deeper[j - n - 1]));
                assert(paths[j] == seq![k] + deeper[j - n - 1]);
                assert(paths[j].len() > 1);
            } else {
                let p = deeper[i - n - 1];
                let q = deeper[j - n - 1];
                assert(paths[i] == seq![k] + p);
                assert(paths[j] == seq![k] + q);
                assert((seq![k] + p).skip(1) =~= p);
                assert((seq![k] + q).skip(1) =~= q);
                assert(p != q);
            }
        }
    }
}

/// A page holds, behind the record of the root, exactly one record for
/// every visible command below the root, and no other: none for a hidden
/// command, and none for what stands below one. The records come in the
/// order of the positions, each the record of the command at its position.
pub proof fn lemma_one_record_per_visible_command(root: CommandSpec)
    ensures
        page_of(root).main == record(root, Seq::empty()),
        page_of(root).subcommands.len() == forest_paths(root.subcommands).len(),
        forest_paths(root.subcommands).no_duplicates(),
        forall|j: int|
            0 <= j < forest_paths(root.subcommands).len() ==> (#[trigger] page_of(
                root,
            ).subcommands[j]) == record_in(
                root.subcommands,
                forest_paths(root.subcommands)[j],
                seq![root.name],
            ),
        forall|path: Seq<int>|
            #[trigger] forest_paths(root.subcommands).contains(path) <==> visible_in(
                root.subcommands,
                path,
            ),
{
    let subs = root.subcommands;
    let chain = Seq::<Seq<char>>::empty().push(root.name);
    assert(chain =~= seq![root.name]);
    lemma_forest_entries(subs, chain);
    lemma_forest_paths_distinct(subs);
    assert forall|path: Seq<int>| #[trigger]
        forest_paths(subs).contains(path) <==> visible_in(subs, path) by {
        if visible_in(subs, path) {
            lemma_forest_paths_complete(subs, path);
        }
        if forest_paths(subs).contains(path) {
            let j = choose|j: int| 0 <= j < forest_paths(subs).len() && forest_paths(subs)[j] == path;
            assert(visible_in(subs, forest_paths(subs)[j]));
        }
    }
}

proof fn lemma_hidden_is_not_visible(subs: Seq<CommandSpec>, path: Seq<int>)
    requires
        hidden_at(subs, path),
    ensures
        !visible_in(subs, path),
    decreases path.len(),
{
    if path.len() > 1 {
        lemma_hidden_is_not_visible(subs[path[0]].subcommands, path.skip(1));
    }
}

proof fn lemma_visible_prefix(subs: Seq<CommandSpec>, path: Seq<int>, depth: int)
    requires
        visible_in(subs, path),
        0 < depth <= path.len(),
    ensures
        visible_in(subs, path.take(depth)),
    decreases depth,
{
    let head = path.take(depth);
    assert(head[0] == path[0]);
    if depth > 1 {
        assert(head.skip(1) =~= path.skip(1).take(depth - 1));
        lemma_visible_prefix(subs[path[0]].subcommands, path.skip(1), depth - 1);
    }
}

/// A position that passes a hidden command is not shown, whatever stands
/// behind the hidden command.
pub proof fn lemma_hidden_subtree_is_left_out(subs: Seq<CommandSpec>, path: Seq<int>, depth: int)
    requires
        0 < depth <= path.len(),
        hidden_at(subs, path.take(depth)),
    ensures
        !visible_in(subs, path),
        !forest_paths(subs).contains(path),
{
    lemma_hidden_is_not_visible(subs, path.take(depth));
    if visible_in(subs, path) {
        lemma_visible_prefix(subs, path, depth);
    }
    if forest_paths(subs).contains(path) {
        lemma_forest_entries(subs, Seq::empty());
        let j = choose|j: int| 0 <= j < forest_paths(subs).len() && forest_paths(subs)[j] == path;
        assert(visible_in(subs, forest_paths(subs)[j]));
    }
}

/// The chain of a record names the commands above the list and then the
/// commands that its position passes, with single spaces between them.
pub proof fn lemma_chain_names(subs: Seq<CommandSpec>, path: Seq<int>, chain: Seq<Seq<char>>)
    requires
        path.len() > 0,
    ensures
        record_in(subs, path, chain).cmd_chain == join(chain + names_in(subs, path), " "@),
    decreases path.len(),
{
    let first = subs[path[0]];
    if path.len() == 1 {
        assert(names_in(first.subcommands, path.skip(1)) =~= Seq::<Seq<char>>::empty());
        assert(chain + names_in(subs, path) =~= chain.push(first.name));
    } else {
        lemma_chain_names(first.subcommands, path.skip(1), chain.push(first.name));
        assert(chain.push(first.name) + names_in(first.subcommands, path.skip(1)) =~= chain
            + names_in(subs, path));
    }
}

/// The chain of a command is the chain of its parent, a space, and its own
/// name.
pub proof fn lemma_chain_extends_parent(
    parent: CommandSpec,
    child: CommandSpec,
    parents: Seq<Seq<char>>,
)
    ensures
        record(child, parents.push(parent.name)).cmd_chain == record(parent, parents).cmd_chain
            + " "@ + child.name,
{
    lemma_join_push(parents.push(parent.name), " "@, child.name);
}

/// On the page of a root, the command two levels down has the chain
/// `root child grandchild`; where none of the three names holds a space, its
/// anchor is `root-child-grandchild`.
pub proof fn lemma_grandchild_chain(root: CommandSpec, i: int, j: int)
    requires
        0 <= i < root.subcommands.len(),
        0 <= j < root.subcommands[i].subcommands.len(),
    ensures
        ({
            let child = root.subcommands[i];
            let grandchild = child.subcommands[j];
            let chain = record_in(root.subcommands, seq![i, j], seq![root.name]).cmd_chain;
            &&& chain == root.name + " "@ + child.name + " "@ + grandchild.name
            &&& !root.name.contains(' ') && !child.name.contains(' ') && !grandchild.name.contains(
                ' ',
            ) ==> anchor_text(chain) == root.name + "-"@ + child.name + "-"@ + grandchild.name
        }),
{
    let child = root.subcommands[i];
    let grandchild = child.subcommands[j];
    let path = seq![i, j];
    let names = seq![root.name, child.name, grandchild.name];
    assert(path.skip(1) =~= seq![j]);
    assert(seq![root.name].push(child.name).push(grandchild.name) =~= names);
    let above = seq![root.name].push(child.name);
    assert(record_in(root.subcommands, path, seq![root.name]) == record_in(
        child.subcommands,
        seq![j],
        above,
    ));
    assert(record_in(child.subcommands, seq![j], above) == record(grandchild, above));
    assert(names.drop_last() =~= seq![root.name, child.name]);
    assert(names.drop_last().drop_last() =~= seq![root.name]);
    reveal_with_fuel(join, 3);
    assert(join(names, " "@) == root.name + " "@ + child.name + " "@ + grandchild.name);
    assert(join(names, "-"@) == root.name + "-"@ + child.name + "-"@ + grandchild.name);
    if !root.name.contains(' ') && !child.name.contains(' ') && !grandchild.name.contains(' ') {
        lemma_anchor_of_plain_chain(names);
    }
}

} // verus!
