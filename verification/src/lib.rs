//! Documentation pages for command-line interfaces.
//!
//! A command tree is walked depth first; every visible command becomes a flat
//! record of strings that a template renderer can lay out as a page.

pub mod command;
pub mod flags;
pub mod helpers;
pub mod node;
pub mod paths;
pub mod record;
pub mod template;
pub mod text;
pub mod walk;

pub use crate::command::{fmt_cmd, get_usage};
pub use crate::flags::fmt_flags;
pub use crate::helpers::{anchor, paragraph};
pub use crate::node::{ArgumentNode, CommandNode};
pub use crate::record::{FmtArg, FmtCmd, FmtCommands, Page};
pub use crate::template::{fault_of, load_templates, Asset, Registry, TemplateFault};
pub use crate::walk::{build_cmd, extract_subcommands, help_command};
