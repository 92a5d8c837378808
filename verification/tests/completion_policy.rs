use assistant_slash_command::{
    AfterCompletion, ArgumentCompletion, CodeLabel, SlashCommand, SlashCommandOutput,
};

// from(true) is Run and from(false) is Continue; Compose is never produced
// by the boolean conversion.
#[test]
fn boolean_conversion_is_asymmetric() {
    assert_eq!(AfterCompletion::from(true), AfterCompletion::Run);
    assert_eq!(AfterCompletion::from(false), AfterCompletion::Continue);
    assert_ne!(AfterCompletion::from(true), AfterCompletion::Compose);
    assert_ne!(AfterCompletion::from(false), AfterCompletion::Compose);
}

// Only Run means "run the command now".
#[test]
fn only_run_runs() {
    assert!(AfterCompletion::Run.run());
    assert!(!AfterCompletion::Compose.run());
    assert!(!AfterCompletion::Continue.run());
}

#[test]
fn plain_label_keeps_its_text() {
    let label = CodeLabel::plain("search".to_string());
    assert_eq!(label.text, "search".to_string());
}

#[test]
fn argument_completion_holds_its_parts() {
    let completion = ArgumentCompletion {
        label: CodeLabel::plain("main.rs".to_string()),
        new_text: "main.rs ".to_string(),
        after_completion: AfterCompletion::Continue,
        replace_previous_arguments: false,
    };
    assert_eq!(completion.label.text, "main.rs".to_string());
    assert_eq!(completion.new_text, "main.rs ".to_string());
    assert!(!completion.after_completion.run());
    assert!(!completion.replace_previous_arguments);
}

struct EchoCommand {
    needs_argument: bool,
}

impl SlashCommand for EchoCommand {
    // The two spec members are ghost: proof-only views of the command that
    // are never called at run time.
    fn spec_name(&self) -> vstd::seq::Seq<char> {
        unreachable!()
    }

    fn spec_requires_argument(&self) -> bool {
        unreachable!()
    }

    fn name(&self) -> String {
        "echo".to_string()
    }

    fn description(&self) -> String {
        "repeats its argument".to_string()
    }

    fn menu_text(&self) -> String {
        "Echo".to_string()
    }

    fn requires_argument(&self) -> bool {
        self.needs_argument
    }
}

// accepts_arguments defaults to requires_argument, and label derives from
// the command's name.
#[test]
fn command_defaults_derive_from_required_methods() {
    let strict = EchoCommand { needs_argument: true };
    let lax = EchoCommand { needs_argument: false };
    assert!(strict.accepts_arguments());
    assert!(!lax.accepts_arguments());
    assert_eq!(strict.label().text, "echo".to_string());
    assert_eq!(strict.description(), "repeats its argument".to_string());
    assert_eq!(strict.menu_text(), "Echo".to_string());
}

// A command's events drain into the same output it would materialize.
#[test]
fn command_output_survives_replay() {
    let output = SlashCommandOutput {
        text: b"echo: hi".to_vec(),
        sections: vec![],
        run_commands_in_text: false,
    };
    let rebuilt = SlashCommandOutput::from_event_stream(&output.to_event_stream());
    assert_eq!(rebuilt, output);
}
