//! The completion protocol: what a suggested argument completion looks like
//! and what happens when the user accepts one.

use vstd::prelude::*;
use vstd::std_specs::convert::FromSpec;

verus! {

/// A display label for a command or a completion, as the host UI shows it.
#[derive(Debug)]
pub struct CodeLabel {
    /// The text of the label.
    pub text: String,
}

impl CodeLabel {
    /// A plain label that displays the given text unstyled.
    pub fn plain(text: String) -> (r: CodeLabel)
        ensures
            r.text == text,
    {
        CodeLabel { text }
    }
}

/// The policy applied after the user accepts a suggested completion.
#[derive(Clone, Copy, Debug, PartialEq, Eq, Structural)]
pub enum AfterCompletion {
    /// Run the command
    Run,
    /// Continue composing the current argument, doesn't add a space
    Compose,
    /// Continue the command composition, adds a space
    Continue,
}

impl From<bool> for AfterCompletion {
    /// `true` means "accept and run"; `false` means "accept and keep
    /// composing the next argument". `Compose` is reachable only through
    /// explicit construction, never through this conversion.
    fn from(value: bool) -> (r: AfterCompletion) {
        if value {
            AfterCompletion::Run
        } else {
            AfterCompletion::Continue
        }
    }
}

impl vstd::std_specs::convert::FromSpecImpl<bool> for AfterCompletion {
    open spec fn obeys_from_spec() -> bool {
        true
    }

    open spec fn from_spec(value: bool) -> AfterCompletion {
        if value {
            AfterCompletion::Run
        } else {
            AfterCompletion::Continue
        }
    }
}

impl AfterCompletion {
    /// Whether accepting the completion should immediately run the command.
    pub fn run(&self) -> (r: bool)
        ensures
            r == (*self is Run),
    {
        match self {
            AfterCompletion::Run => true,
            AfterCompletion::Compose | AfterCompletion::Continue => false,
        }
    }
}

/// The boolean conversion is asymmetric: `true` converts to `Run` and `false`
/// to `Continue`, and no boolean converts to `Compose`.
pub proof fn lemma_boolean_conversion_asymmetry(value: bool)
    ensures
        AfterCompletion::from_spec(true) == AfterCompletion::Run,
        AfterCompletion::from_spec(false) == AfterCompletion::Continue,
        AfterCompletion::from_spec(value) != AfterCompletion::Compose,
{
}

/// A suggested completion for a partially typed command argument.
#[derive(Debug)]
pub struct ArgumentCompletion {
    /// The label to display for this completion.
    pub label: CodeLabel,
    /// The new text that should be inserted into the command when this completion is accepted.
    pub new_text: String,
    /// Whether the command should be run when accepting this completion.
    pub after_completion: AfterCompletion,
    /// Whether to replace the all arguments, or whether to treat this as an independent argument.
    pub replace_previous_arguments: bool,
}

} // verus!
