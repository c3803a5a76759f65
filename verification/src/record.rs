//! The flat records that a page is laid out from.

use vstd::prelude::*;
use crate::text::views;

verus! {

/// One argument as a page shows it.
#[derive(Clone, Debug, PartialEq, Eq)]
pub struct FmtArg {
    /// The flags and value placeholders, as in `-f, --flag <VALUE>`.
    pub flags: String,
    /// The help text.
    pub description: String,
}

/// The mathematical content of a [`FmtArg`].
pub ghost struct FlagRecord {
    pub flags: Seq<char>,
    pub description: Seq<char>,
}

impl View for FmtArg {
    type V = FlagRecord;

    open spec fn view(&self) -> FlagRecord {
        FlagRecord { flags: self.flags@, description: self.description@ }
    }
}

/// One subcommand as its parent's section lists it.
#[derive(Clone, Debug, PartialEq, Eq)]
pub struct FmtCmd {
    /// The name of the subcommand.
    pub name: String,
    /// Its short description.
    pub description: String,
}

/// The mathematical content of a [`FmtCmd`].
pub ghost struct CommandSummary {
    pub name: Seq<char>,
    pub description: Seq<char>,
}

impl View for FmtCmd {
    type V = CommandSummary;

    open spec fn view(&self) -> CommandSummary {
        CommandSummary { name: self.name@, description: self.description@ }
    }
}

/// Everything a page shows of one command.
#[derive(Clone, Debug, PartialEq, Eq)]
pub struct FmtCommands {
    /// The name of the command.
    pub title: String,
    /// The usage line without its label and without the program name.
    pub usage: String,
    /// The names from the root down to this command, separated by spaces.
    pub cmd_chain: String,
    /// The long description, or the short one where no long one is given.
    pub description: String,
    /// The visible direct subcommands.
    pub commands: Vec<FmtCmd>,
    /// The visible positional arguments.
    pub arguments: Vec<FmtArg>,
    /// The visible flags and options.
    pub options: Vec<FmtArg>,
}

/// The mathematical content of a [`FmtCommands`].
pub ghost struct CommandRecord {
    pub title: Seq<char>,
    pub usage: Seq<char>,
    pub cmd_chain: Seq<char>,
    pub description: Seq<char>,
    pub commands: Seq<CommandSummary>,
    pub arguments: Seq<FlagRecord>,
    pub options: Seq<FlagRecord>,
}

impl View for FmtCommands {
    type V = CommandRecord;

    open spec fn view(&self) -> CommandRecord {
        CommandRecord {
            title: self.title@,
            usage: self.usage@,
            cmd_chain: self.cmd_chain@,
            description: self.description@,
            commands: views(self.commands@),
            arguments: views(self.arguments@),
            options: views(self.options@),
        }
    }
}

/// A whole page: the root command and every visible command below it.
#[derive(Clone, Debug, PartialEq, Eq)]
pub struct Page {
    /// The record of the root command.
    pub main: FmtCommands,
    /// The records of the visible descendants, parents before children.
    pub subcommands: Vec<FmtCommands>,
}

/// The mathematical content of a [`Page`].
pub ghost struct PageModel {
    pub main: CommandRecord,
    pub subcommands: Seq<CommandRecord>,
}

impl View for Page {
    type V = PageModel;

    open spec fn view(&self) -> PageModel {
        PageModel { main: self.main@, subcommands: views(self.subcommands@) }
    }
}

} // verus!
