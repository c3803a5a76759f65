//! The command tree that a page is built from.

use vstd::prelude::*;
use crate::text::{copy_texts, opt_text, views};

verus! {

/// One declared argument of a command: a positional, a flag or an option.
#[derive(Debug, PartialEq, Eq)]
pub struct ArgumentNode {
    /// The identifier the argument was declared under.
    pub id: String,
    /// The character of the short flag, as in `-f`.
    pub short: Option<char>,
    /// The name of the long flag, as in `--flag`.
    pub long: Option<String>,
    /// The value names that were declared, if any were.
    pub value_names: Option<Vec<String>>,
    /// Whether the argument consumes values.
    pub takes_values: bool,
    /// Whether the argument is given by position, without a flag.
    pub positional: bool,
    /// Whether the argument must be given.
    pub required: bool,
    /// The largest number of values one occurrence accepts, where declared.
    pub max_values: Option<usize>,
    /// The short help text.
    pub help: Option<String>,
    /// The long help text.
    pub long_help: Option<String>,
    /// Whether the argument is kept out of the documentation.
    pub hidden: bool,
}

/// The mathematical content of an [`ArgumentNode`].
pub ghost struct ArgumentSpec {
    pub id: Seq<char>,
    pub short: Option<char>,
    pub long: Option<Seq<char>>,
    pub value_names: Option<Seq<Seq<char>>>,
    pub takes_values: bool,
    pub positional: bool,
    pub required: bool,
    pub max_values: Option<nat>,
    pub help: Option<Seq<char>>,
    pub long_help: Option<Seq<char>>,
    pub hidden: bool,
}

impl View for ArgumentNode {
    type V = ArgumentSpec;

    open spec fn view(&self) -> ArgumentSpec {
        ArgumentSpec {
            id: self.id@,
            short: self.short,
            long: opt_text(self.long),
            value_names: match self.value_names {
                Some(names) => Some(views(names@)),
                None => None,
            },
            takes_values: self.takes_values,
            positional: self.positional,
            required: self.required,
            max_values: match self.max_values {
                Some(n) => Some(n as nat),
                None => None,
            },
            help: opt_text(self.help),
            long_help: opt_text(self.long_help),
            hidden: self.hidden,
        }
    }
}

/// A command with its arguments and its subcommands, in declaration order.
#[derive(Debug, PartialEq, Eq)]
pub struct CommandNode {
    /// The name the command is invoked by.
    pub name: String,
    /// The short description.
    pub about: Option<String>,
    /// The long description.
    pub long_about: Option<String>,
    /// The usage line as the argument parser renders it.
    pub usage: String,
    /// Whether the command is kept out of the documentation.
    pub hidden: bool,
    /// Free text shown before the help, which a page has no place for.
    pub before_help: Option<String>,
    /// Free text shown after the help, which a page has no place for.
    pub after_help: Option<String>,
    /// The declared arguments.
    pub arguments: Vec<ArgumentNode>,
    /// The direct subcommands.
    pub subcommands: Vec<CommandNode>,
}

/// The mathematical content of a [`CommandNode`].
pub ghost struct CommandSpec {
    pub name: Seq<char>,
    pub about: Option<Seq<char>>,
    pub long_about: Option<Seq<char>>,
    pub usage: Seq<char>,
    pub hidden: bool,
    pub before_help: Option<Seq<char>>,
    pub after_help: Option<Seq<char>>,
    pub arguments: Seq<ArgumentSpec>,
    pub subcommands: Seq<CommandSpec>,
}

impl ArgumentSpec {
    /// A value-taking argument with declared value names has at least one.
    pub open spec fn well_formed(self) -> bool {
        self.takes_values ==> match self.value_names {
            Some(names) => names.len() > 0,
            None => true,
        }
    }
}

impl CommandSpec {
    /// A command that a record can be built of: it has no free text before
    /// or after its help, and its visible arguments are well formed.
    pub open spec fn supported(self) -> bool {
        &&& self.before_help is None
        &&& self.after_help is None
        &&& forall|i: int|
            0 <= i < self.arguments.len() && !(#[trigger] self.arguments[i]).hidden
                ==> self.arguments[i].well_formed()
    }
}

/// Whether every visible command below `c` can be shown on a page.
pub open spec fn descendants_supported(c: CommandSpec) -> bool
    decreases c, 0nat,
{
    forall|i: int|
        0 <= i < c.subcommands.len() && !(#[trigger] c.subcommands[i]).hidden
            ==> supported_throughout(c.subcommands[i])
}

/// Whether `c` and every visible command below it can be shown on a page.
/// What stands below a hidden command is never looked at.
pub open spec fn supported_throughout(c: CommandSpec) -> bool
    decreases c, 1nat,
{
    c.supported() && descendants_supported(c)
}

/// The content of a command: its own fields by their views, and the
/// contents of its subcommands in order.
pub open spec fn command_spec(node: CommandNode) -> CommandSpec
    decreases node,
{
    CommandSpec {
        name: node.name@,
        about: opt_text(node.about),
        long_about: opt_text(node.long_about),
        usage: node.usage@,
        hidden: node.hidden,
        before_help: opt_text(node.before_help),
        after_help: opt_text(node.after_help),
        arguments: views(node.arguments@),
        subcommands: Seq::new(
            node.subcommands.len() as nat,
            |i: int|
                if 0 <= i < node.subcommands.len() {
                    command_spec(node.subcommands[i])
                } else {
                    arbitrary()
                },
        ),
    }
}

impl View for CommandNode {
    type V = CommandSpec;

    open spec fn view(&self) -> CommandSpec {
        command_spec(*self)
    }
}

impl Clone for CommandNode {
    /// Copies the command with all that stands below it.
    fn clone(&self) -> (r: CommandNode)
        ensures
            r@ == self@,
        decreases self,
    {
        let mut arguments: Vec<ArgumentNode> = Vec::new();
        let mut i: usize = 0;
        while i < self.arguments.len()
            invariant
                i <= self.arguments.len(),
                arguments.len() == i,
                forall|j: int| 0 <= j < i ==> (#[trigger] arguments[j])@ == self.arguments[j]@,
            decreases self.arguments.len() - i,
        {
            arguments.push(self.arguments[i].clone());
            i = i + 1;
        }
        let mut subcommands: Vec<CommandNode> = Vec::new();
        let mut k: usize = 0;
        while k < self.subcommands.len()
            invariant
                k <= self.subcommands.len(),
                subcommands.len() == k,
                forall|j: int| 0 <= j < k ==> (#[trigger] subcommands[j])@ == self.subcommands[j]@,
            decreases self.subcommands.len() - k,
        {
            subcommands.push(self.subcommands[k].clone());
            k = k + 1;
        }
        let r = CommandNode {
            name: self.name.clone(),
            about: copy_text(&self.about),
            long_about: copy_text(&self.long_about),
            usage: self.usage.clone(),
            hidden: self.hidden,
            before_help: copy_text(&self.before_help),
            after_help: copy_text(&self.after_help),
            arguments,
            subcommands,
        };
        proof {
            assert(r@.arguments =~= self@.arguments);
            assert(r@.subcommands =~= self@.subcommands);
        }
        r
    }
}

fn copy_text(text: &Option<String>) -> (r: Option<String>)
    ensures
        opt_text(r) == opt_text(*text),
{
    match text {
        Some(t) => Some(t.clone()),
        None => None,
    }
}

impl Clone for ArgumentNode {
    /// Copies the argument.
    fn clone(&self) -> (r: ArgumentNode)
        ensures
            r@ == self@,
    {
        ArgumentNode {
            id: self.id.clone(),
            short: self.short,
            long: copy_text(&self.long),
            value_names: match &self.value_names {
                Some(names) => Some(copy_texts(names)),
                None => None,
            },
            takes_values: self.takes_values,
            positional: self.positional,
            required: self.required,
            max_values: self.max_values,
            help: copy_text(&self.help),
            long_help: copy_text(&self.long_help),
            hidden: self.hidden,
        }
    }
}

impl ArgumentNode {
    /// Tells whether the argument is well formed.
    pub fn is_well_formed(&self) -> (b: bool)
        ensures
            b == self@.well_formed(),
    {
        if !self.takes_values {
            return true;
        }
        match &self.value_names {
            Some(names) => {
                proof {
                    assert(views(names@).len() == names.len());
                }
                names.len() > 0
            },
            None => true,
        }
    }
}

impl CommandNode {
    /// Tells whether a record can be built of this command.
    pub fn is_supported(&self) -> (b: bool)
        ensures
            b == self@.supported(),
    {
        if self.before_help.is_some() || self.after_help.is_some() {
            return false;
        }
        let mut i: usize = 0;
        while i < self.arguments.len()
            invariant
                i <= self.arguments.len(),
                self@.arguments == views(self.arguments@),
                forall|j: int|
                    0 <= j < i && !(#[trigger] self@.arguments[j]).hidden
                        ==> self@.arguments[j].well_formed(),
            decreases self.arguments.len() - i,
        {
            let arg = &self.arguments[i];
            proof {
                assert(self@.arguments[i as int] == arg@);
            }
            if !arg.hidden && !arg.is_well_formed() {
                return false;
            }
            i = i + 1;
        }
        true
    }

    /// Tells whether a page can be built of this command and of all that is
    /// visible below it.
    pub fn is_supported_throughout(&self) -> (b: bool)
        ensures
            b == supported_throughout(self@),
        decreases self,
    {
        if !self.is_supported() {
            return false;
        }
        proof {
            self.lemma_view_subcommands();
        }
        let mut i: usize = 0;
        while i < self.subcommands.len()
            invariant
                i <= self.subcommands.len(),
                self@.supported(),
                self@.subcommands.len() == self.subcommands.len(),
                forall|j: int|
                    0 <= j < self.subcommands.len() ==> #[trigger] self@.subcommands[j]
                        == self.subcommands[j]@,
                forall|j: int|
                    0 <= j < i && !(#[trigger] self@.subcommands[j]).hidden
                        ==> supported_throughout(self@.subcommands[j]),
            decreases self.subcommands.len() - i,
        {
            let child = &self.subcommands[i];
            proof {
                assert(self@.subcommands[i as int] == child@);
            }
            if !child.hidden && !child.is_supported_throughout() {
                return false;
            }
            i = i + 1;
        }
        true
    }

    /// The view of a command holds the views of its subcommands, in order.
    pub proof fn lemma_view_subcommands(&self)
        ensures
            self@.subcommands.len() == self.subcommands.len(),
            forall|i: int|
                0 <= i < self.subcommands.len() ==> #[trigger] self@.subcommands[i]
                    == self.subcommands[i]@,
    {
    }
}

} // verus!
