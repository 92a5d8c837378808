//! Output model and streaming protocol for pluggable slash commands.
//!
//! A command produces a [`SlashCommandOutput`]: a text blob together with an
//! ordered list of labeled, optionally metadata-carrying sections over byte
//! ranges of that text. The output can be replayed as a flat sequence of
//! [`SlashCommandEvent`]s (`StartSection` / `Content` / `EndSection`) and a
//! consumer can reconstruct the output from such a sequence. The two
//! directions are exact inverses on well-formed outputs, which is proved here.

pub mod codec;
pub mod command;
pub mod completion;
pub mod event;
pub mod metadata;
pub mod output;

pub use codec::{
    RecState, apply_event, byte_slice, content_concat, cursor_at, events_from, events_of, finish,
    gap_events, initial_state, lemma_defensive_close, lemma_empty_section_fidelity,
    lemma_gap_preservation, lemma_metadata_override, lemma_round_trip, output_of_events, replay,
    section_events, view_current,
};
pub use command::SlashCommand;
pub use completion::{
    AfterCompletion, ArgumentCompletion, CodeLabel, lemma_boolean_conversion_asymmetry,
};
pub use event::{EventView, SlashCommandContent, SlashCommandEvent, view_events};
pub use output::{
    IconName, OutputView, SectionView, SlashCommandOutput, SlashCommandOutputSection,
    view_sections, well_formed,
};
