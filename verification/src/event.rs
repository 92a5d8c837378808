//! The event vocabulary of the streaming protocol.

use crate::output::IconName;
use vstd::prelude::*;

verus! {

/// One chunk of content delivered by a command.
#[derive(Debug, PartialEq, Eq)]
pub enum SlashCommandContent {
    Text {
        /// The bytes to append to the output text.
        text: Vec<u8>,
        /// Whether command-like text inside this chunk should be
        /// re-interpreted; the last chunk observed wins.
        run_commands_in_text: bool,
    },
}

/// One unit of the incremental production protocol.
///
/// At most one section is open at a time: a `StartSection` while a section is
/// open closes the open one first, and an `EndSection` with no open section
/// is a no-op.
#[derive(Debug, PartialEq, Eq)]
pub enum SlashCommandEvent {
    /// Opens a section at the current end of the accumulated text.
    StartSection {
        icon: IconName,
        label: String,
        metadata: Option<serde_json::Value>,
    },
    /// Appends content, to the open section if any, else to untagged text.
    Content(SlashCommandContent),
    /// Closes the open section, overriding its metadata with the value
    /// carried here.
    EndSection { metadata: Option<serde_json::Value> },
}

/// The mathematical model of an event.
pub ghost enum EventView {
    StartSection { icon: IconName, label: Seq<char>, metadata: Option<serde_json::Value> },
    Content { text: Seq<u8>, run_commands_in_text: bool },
    EndSection { metadata: Option<serde_json::Value> },
}

impl View for SlashCommandEvent {
    type V = EventView;

    open spec fn view(&self) -> EventView {
        match self {
            SlashCommandEvent::StartSection { icon, label, metadata } => EventView::StartSection {
                icon: *icon,
                label: label@,
                metadata: *metadata,
            },
            SlashCommandEvent::Content(
                SlashCommandContent::Text { text, run_commands_in_text },
            ) => EventView::Content {
                text: text@,
                run_commands_in_text: *run_commands_in_text,
            },
            SlashCommandEvent::EndSection { metadata } => EventView::EndSection {
                metadata: *metadata,
            },
        }
    }
}

/// The models of a sequence of events.
pub open spec fn view_events(events: Seq<SlashCommandEvent>) -> Seq<EventView> {
    events.map_values(|e: SlashCommandEvent| e@)
}

} // verus!
