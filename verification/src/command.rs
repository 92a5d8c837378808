//! The command contract: the identity and completion surface of a pluggable
//! command.
//!
//! The asynchronous halves of the contract (argument completion against a
//! live workspace, and running the command to produce an event stream) are
//! the host's concern: a host drives them and delivers the resulting events
//! to [`crate::output::SlashCommandOutput::from_event_stream`].

use crate::completion::CodeLabel;
use vstd::prelude::*;

verus! {

/// A pluggable unit of behavior identified by name.
///
/// Implementations supply the identity methods; `label` and
/// `accepts_arguments` have defaults derived from them, and the contracts
/// pin the derivations: a command's label shows its name, and exactly the
/// commands that require an argument accept one.
pub trait SlashCommand {
    /// The command's name, as a mathematical value: what `name` returns and
    /// what `label` displays.
    spec fn spec_name(&self) -> Seq<char>;

    /// Whether the command cannot run without an argument, as a
    /// mathematical value: what `requires_argument` returns and what
    /// `accepts_arguments` is derived from.
    spec fn spec_requires_argument(&self) -> bool;

    /// The stable identifier used for lookup. Uniqueness within a registry
    /// is the registry's responsibility, not this contract's.
    fn name(&self) -> (r: String)
        ensures
            r@ == self.spec_name(),
    ;

    /// A human-readable description of what the command does.
    fn description(&self) -> String;

    /// The text shown for the command in a menu.
    fn menu_text(&self) -> String;

    /// Whether the command cannot run without an argument.
    fn requires_argument(&self) -> (r: bool)
        ensures
            r == self.spec_requires_argument(),
    ;

    /// Whether the command accepts arguments at all: exactly the commands
    /// that require one do, which the default body derives by one call.
    fn accepts_arguments(&self) -> (r: bool)
        ensures
            r == self.spec_requires_argument(),
    {
        self.requires_argument()
    }

    /// The label to display for the command: a rendering of its name, plain
    /// by default.
    fn label(&self) -> (r: CodeLabel)
        ensures
            r.text@ == self.spec_name(),
    {
        CodeLabel::plain(self.name())
    }
}

} // verus!
