//! The record of a single command.

use vstd::prelude::*;
use crate::flags::{flags_text, fmt_flags};
use crate::node::{ArgumentNode, ArgumentSpec, CommandNode, CommandSpec};
use crate::record::{CommandRecord, CommandSummary, FlagRecord, FmtArg, FmtCmd, FmtCommands};
use crate::text::{
    all_blank, drop_leading_words, drop_words, is_blank, join, join_texts, lemma_drop_word,
    no_blank, views,
};

verus! {

/// A rendered usage line without its first two words, which are the label
/// and the name of the program. Words are parted by white space.
pub open spec fn usage_tail(rendered: Seq<char>) -> Seq<char> {
    drop_words(rendered, 2)
}

/// The long description of a command, else its short one, else nothing.
pub open spec fn description_of(c: CommandSpec) -> Seq<char> {
    match c.long_about {
        Some(t) => t,
        None => match c.about {
            Some(t) => t,
            None => Seq::empty(),
        },
    }
}

/// The long help of an argument, else its short help, else nothing.
pub open spec fn help_of(a: ArgumentSpec) -> Seq<char> {
    match a.long_help {
        Some(t) => t,
        None => match a.help {
            Some(t) => t,
            None => Seq::empty(),
        },
    }
}

/// What a page shows of one argument.
pub open spec fn flag_record(a: ArgumentSpec) -> FlagRecord {
    FlagRecord { flags: flags_text(a), description: help_of(a) }
}

/// The arguments that a page lists as positionals, or as options.
pub open spec fn is_listed(positional: bool) -> spec_fn(ArgumentSpec) -> bool {
    |a: ArgumentSpec| !a.hidden && a.positional == positional
}

/// The records of the visible positionals among `args`, or of the visible
/// options, in declaration order.
pub open spec fn flag_records(args: Seq<ArgumentSpec>, positional: bool) -> Seq<FlagRecord> {
    args.filter(is_listed(positional)).map_values(|a: ArgumentSpec| flag_record(a))
}

/// The commands that a page shows.
pub open spec fn is_visible() -> spec_fn(CommandSpec) -> bool {
    |c: CommandSpec| !c.hidden
}

/// What a parent's section shows of one subcommand.
pub open spec fn summary(c: CommandSpec) -> CommandSummary {
    CommandSummary {
        name: c.name,
        description: match c.about {
            Some(t) => t,
            None => Seq::empty(),
        },
    }
}

/// The summaries of the visible commands among `subs`, in declaration order.
pub open spec fn summaries(subs: Seq<CommandSpec>) -> Seq<CommandSummary> {
    subs.filter(is_visible()).map_values(|c: CommandSpec| summary(c))
}

/// The record of the command `c` that stands below the commands named by
/// `parents`, outermost first.
pub open spec fn record(c: CommandSpec, parents: Seq<Seq<char>>) -> CommandRecord {
    CommandRecord {
        title: c.name,
        usage: usage_tail(c.usage),
        cmd_chain: join(parents.push(c.name), " "@),
        description: description_of(c),
        commands: summaries(c.subcommands),
        arguments: flag_records(c.arguments, true),
        options: flag_records(c.arguments, false),
    }
}

/// Whether `entry` is the summary of a command of `subs` that is not hidden.
pub open spec fn summarises_visible(subs: Seq<CommandSpec>, entry: CommandSummary) -> bool {
    exists|i: int| 0 <= i < subs.len() && !(#[trigger] subs[i]).hidden && entry == summary(subs[i])
}

/// Whether `entry` is the record of an argument of `args` that is not hidden
/// and is positional, or is not, as asked.
pub open spec fn records_listed(
    args: Seq<ArgumentSpec>,
    positional: bool,
    entry: FlagRecord,
) -> bool {
    exists|i: int|
        0 <= i < args.len() && !(#[trigger] args[i]).hidden && args[i].positional == positional
            && entry == flag_record(args[i])
}

/// Every entry of a list of subcommands is the summary of a command of the
/// list that is not hidden, and every such command has its entry.
pub proof fn lemma_summaries_show_visible_commands(subs: Seq<CommandSpec>)
    ensures
        forall|k: int|
            0 <= k < summaries(subs).len() ==> summarises_visible(
                subs,
                #[trigger] summaries(subs)[k],
            ),
        forall|i: int|
            0 <= i < subs.len() && !subs[i].hidden ==> summaries(subs).contains(
                #[trigger] summary(subs[i]),
            ),
{
    let kept = subs.filter(is_visible());
    assert forall|k: int| 0 <= k < summaries(subs).len() implies summarises_visible(
        subs,
        #[trigger] summaries(subs)[k],
    ) by {
        subs.lemma_filter_pred(is_visible(), k);
        assert(kept.contains(kept[k]));
        subs.lemma_filter_contains_rev(is_visible(), kept[k]);
        let i = choose|i: int| 0 <= i < subs.len() && subs[i] == kept[k];
        assert(!subs[i].hidden && summaries(subs)[k] == summary(subs[i]));
    }
    assert forall|i: int| 0 <= i < subs.len() && !subs[i].hidden implies summaries(
        subs,
    ).contains(#[trigger] summary(subs[i])) by {
        subs.lemma_filter_contains(is_visible(), i);
        let k = choose|k: int| 0 <= k < kept.len() && kept[k] == subs[i];
        assert(summaries(subs)[k] == summary(subs[i]));
    }
}

/// Every entry of a list of arguments is the record of an argument that is
/// not hidden and has the asked position, and every such argument has its
/// entry.
pub proof fn lemma_flag_records_show_visible_arguments(args: Seq<ArgumentSpec>, positional: bool)
    ensures
        forall|k: int|
            0 <= k < flag_records(args, positional).len() ==> records_listed(
                args,
                positional,
                #[trigger] flag_records(args, positional)[k],
            ),
        forall|i: int|
            0 <= i < args.len() && !args[i].hidden && args[i].positional == positional
                ==> flag_records(args, positional).contains(#[trigger] flag_record(args[i])),
{
    let listed = is_listed(positional);
    let kept = args.filter(listed);
    let records = flag_records(args, positional);
    assert forall|k: int| 0 <= k < records.len() implies records_listed(
        args,
        positional,
        #[trigger] records[k],
    ) by {
        args.lemma_filter_pred(listed, k);
        assert(kept.contains(kept[k]));
        args.lemma_filter_contains_rev(listed, kept[k]);
        let i = choose|i: int| 0 <= i < args.len() && args[i] == kept[k];
        assert(!args[i].hidden && args[i].positional == positional && records[k] == flag_record(
            args[i],
        ));
    }
    assert forall|i: int|
        0 <= i < args.len() && !args[i].hidden && args[i].positional
            == positional implies records.contains(#[trigger] flag_record(args[i])) by {
        assert(listed(args[i]));
        args.lemma_filter_contains(listed, i);
        let k = choose|k: int| 0 <= k < kept.len() && kept[k] == args[i];
        assert(records[k] == flag_record(args[i]));
    }
}

/// A usage line made of a label, the name of the program and the rest,
/// parted by white space, keeps the rest as it is and nothing else. Nothing
/// is kept of a line that ends with the name of the program.
pub proof fn lemma_usage_keeps_the_rest(
    lead: Seq<char>,
    label: Seq<char>,
    gap: Seq<char>,
    program: Seq<char>,
    stop: Seq<char>,
    rest: Seq<char>,
)
    requires
        all_blank(lead),
        label.len() > 0 && no_blank(label),
        gap.len() > 0 && all_blank(gap),
        program.len() > 0 && no_blank(program),
        all_blank(stop),
        rest.len() == 0 || (stop.len() > 0 && !is_blank(rest[0])),
    ensures
        usage_tail(lead + label + gap + program + stop + rest) == rest,
{
    let line = lead + label + gap + program + stop + rest;
    let tail = program + stop + rest;
    assert(line =~= lead + label + gap + tail);
    assert(tail[0] == program[0]);
    lemma_drop_word(lead, label, gap, tail);
    assert(tail =~= Seq::<char>::empty() + program + stop + rest);
    lemma_drop_word(Seq::empty(), program, stop, rest);
    reveal_with_fuel(drop_words, 3);
}

/// Strips the label and the program name from a rendered usage line: the
/// first two words go, with the white space before, between and behind them,
/// and what follows is kept as it is. A line of two words or fewer gives the
/// empty string.
pub fn get_usage(rendered: &str) -> (r: String)
    ensures
        r@ == usage_tail(rendered@),
{
    drop_leading_words(rendered, 2)
}

fn text_or_empty(first: &Option<String>, second: &Option<String>) -> (r: String)
    ensures
        r@ == match first {
            Some(t) => t@,
            None => match second {
                Some(t) => t@,
                None => Seq::empty(),
            },
        },
{
    match first {
        Some(t) => t.clone(),
        None => match second {
            Some(t) => t.clone(),
            None => String::new(),
        },
    }
}

fn fmt_arg(arg: &ArgumentNode) -> (r: FmtArg)
    requires
        arg@.well_formed(),
    ensures
        r@ == flag_record(arg@),
{
    FmtArg { flags: fmt_flags(arg), description: text_or_empty(&arg.long_help, &arg.help) }
}

fn fmt_summary(command: &CommandNode) -> (r: FmtCmd)
    ensures
        r@ == summary(command@),
{
    FmtCmd { name: command.name.clone(), description: text_or_empty(&command.about, &None) }
}

/// Builds the record of `command`, which stands below the commands named by
/// `parents`. Hidden arguments and hidden subcommands are left out.
pub fn fmt_cmd(command: &CommandNode, parents: Vec<String>) -> (r: FmtCommands)
    requires
        command@.supported(),
    ensures
        r@ == record(command@, views(parents@)),
{
    let description = text_or_empty(&command.long_about, &command.about);

    let ghost args = command@.arguments;
    let mut arguments: Vec<FmtArg> = Vec::new();
    let mut options: Vec<FmtArg> = Vec::new();
    let mut i: usize = 0;
    proof {
        assert(args.take(0).filter(is_listed(true)) =~= Seq::empty()) by {
            reveal(Seq::filter);
        }
        assert(args.take(0).filter(is_listed(false)) =~= Seq::empty()) by {
            reveal(Seq::filter);
        }
    }
    while i < command.arguments.len()
        invariant
            i <= command.arguments.len(),
            args == command@.arguments,
            args.len() == command.arguments.len(),
            command@.supported(),
            views(arguments@) =~= flag_records(args.take(i as int), true),
            views(options@) =~= flag_records(args.take(i as int), false),
        decreases command.arguments.len() - i,
    {
        let arg = &command.arguments[i];
        let ghost old_arguments = views(arguments@);
        let ghost old_options = views(options@);
        if !arg.hidden {
            let fmt = fmt_arg(arg);
            if arg.positional {
                arguments.push(fmt);
            } else {
                options.push(fmt);
            }
        }
        proof {
            let seen = args.take(i as int);
            let to_record = |a: ArgumentSpec| flag_record(a);
            assert(args[i as int] == arg@);
            assert(args.take(i + 1) =~= seen.push(arg@));
            seen.lemma_filter_push(arg@, is_listed(true));
            seen.lemma_filter_push(arg@, is_listed(false));
            assert(is_listed(true)(arg@) == (!arg.hidden && arg.positional));
            assert(is_listed(false)(arg@) == (!arg.hidden && !arg.positional));
            if is_listed(true)(arg@) {
                assert(views(arguments@) =~= old_arguments.push(flag_record(arg@)));
                assert(seen.filter(is_listed(true)).push(arg@).map_values(to_record)
                    =~= seen.filter(is_listed(true)).map_values(to_record).push(
                    flag_record(arg@),
                ));
            }
            if is_listed(false)(arg@) {
                assert(views(options@) =~= old_options.push(flag_record(arg@)));
                assert(seen.filter(is_listed(false)).push(arg@).map_values(to_record)
                    =~= seen.filter(is_listed(false)).map_values(to_record).push(
                    flag_record(arg@),
                ));
            }
        }
        i = i + 1;
    }

    let ghost subs = command@.subcommands;
    let mut subcommands: Vec<FmtCmd> = Vec::new();
    let mut k: usize = 0;
    proof {
        command.lemma_view_subcommands();
        assert(args.take(args.len() as int) =~= args);
        assert(subs.take(0).filter(is_visible()) =~= Seq::empty()) by {
            reveal(Seq::filter);
        }
    }
    while k < command.subcommands.len()
        invariant
            k <= command.subcommands.len(),
            subs == command@.subcommands,
            subs.len() == command.subcommands.len(),
            forall|j: int|
                0 <= j < subs.len() ==> #[trigger] subs[j] == command.subcommands[j]@,
            views(subcommands@) =~= summaries(subs.take(k as int)),
        decreases command.subcommands.len() - k,
    {
        let sub = &command.subcommands[k];
        let ghost old_subcommands = views(subcommands@);
        if !sub.hidden {
            subcommands.push(fmt_summary(sub));
        }
        proof {
            let seen = subs.take(k as int);
            let to_summary = |c: CommandSpec| summary(c);
            assert(subs[k as int] == sub@);
            assert(subs.take(k + 1) =~= seen.push(sub@));
            seen.lemma_filter_push(sub@, is_visible());
            assert(is_visible()(sub@) == !sub.hidden);
            if !sub.hidden {
                assert(views(subcommands@) =~= old_subcommands.push(summary(sub@)));
                assert(seen.filter(is_visible()).push(sub@).map_values(to_summary)
                    =~= seen.filter(is_visible()).map_values(to_summary).push(summary(sub@)));
            }
        }
        k = k + 1;
    }

    let usage = get_usage(command.usage.as_str());

    let mut ancestors = parents;
    let ghost above = views(ancestors@);
    ancestors.push(command.name.clone());
    proof {
        assert(subs.take(subs.len() as int) =~= subs);
        assert(views(ancestors@) =~= above.push(command@.name));
    }

    FmtCommands {
        title: command.name.clone(),
        usage,
        cmd_chain: join_texts(&ancestors, " "),
        description,
        commands: subcommands,
        arguments,
        options,
    }
}

} // verus!
