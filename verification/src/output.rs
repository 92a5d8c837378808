//! The section model: a materialized command output and its labeled sections.

use vstd::prelude::*;

verus! {

/// A symbolic icon tag for displaying a section, drawn from the host UI's
/// fixed icon vocabulary. This crate treats icons as opaque
/// equality-comparable tokens.
#[derive(Clone, Copy, Debug, PartialEq, Eq, Structural)]
pub enum IconName {
    Check,
    Code,
    FileCode,
    FileDoc,
    FileGit,
    FileToml,
    Library,
    Terminal,
}

/// A labeled sub-range of a command's output text.
///
/// The range endpoints are generic: a materialized output addresses its text
/// by byte offset (`usize`), while output embedded live in a document binds
/// its sections to position-stable anchors owned by the host editor.
#[derive(Debug, PartialEq, Eq)]
pub struct SlashCommandOutputSection<T> {
    /// The extent of the section within the output text.
    pub range: core::ops::Range<T>,
    /// The icon shown for the section.
    pub icon: IconName,
    /// A short descriptive label for the section.
    pub label: String,
    /// An open-ended structured payload, opaque to this crate.
    pub metadata: Option<serde_json::Value>,
}

/// The mathematical model of a byte-offset section: its endpoints, icon,
/// label and metadata.
pub ghost struct SectionView {
    pub start: int,
    pub end: int,
    pub icon: IconName,
    pub label: Seq<char>,
    pub metadata: Option<serde_json::Value>,
}

impl View for SlashCommandOutputSection<usize> {
    type V = SectionView;

    open spec fn view(&self) -> SectionView {
        SectionView {
            start: self.range.start as int,
            end: self.range.end as int,
            icon: self.icon,
            label: self.label@,
            metadata: self.metadata,
        }
    }
}

/// The fully-materialized output of a command: a text blob plus the sections
/// that annotate sub-ranges of it.
#[derive(Debug, PartialEq)]
pub struct SlashCommandOutput {
    /// The full text the command produced, as bytes.
    pub text: Vec<u8>,
    /// The sections, in emission order: starts are non-decreasing, and gaps
    /// between sections are legal and preserved.
    pub sections: Vec<SlashCommandOutputSection<usize>>,
    /// Whether command-like text embedded in the output should itself be
    /// re-interpreted; across a stream of content chunks the last writer wins.
    pub run_commands_in_text: bool,
}

/// The mathematical model of a materialized output.
pub ghost struct OutputView {
    pub text: Seq<u8>,
    pub sections: Seq<SectionView>,
    pub run_commands_in_text: bool,
}

/// The models of a sequence of byte-offset sections.
pub open spec fn view_sections(sections: Seq<SlashCommandOutputSection<usize>>) -> Seq<
    SectionView,
> {
    sections.map_values(|s: SlashCommandOutputSection<usize>| s@)
}

impl View for SlashCommandOutput {
    type V = OutputView;

    open spec fn view(&self) -> OutputView {
        OutputView {
            text: self.text@,
            sections: view_sections(self.sections@),
            run_commands_in_text: self.run_commands_in_text,
        }
    }
}

/// A well-formed output: every section lies within the text and the sections
/// are sorted by start and non-overlapping.
pub open spec fn well_formed(o: OutputView) -> bool {
    &&& forall|i: int|
        0 <= i < o.sections.len() ==> {
            &&& 0 <= (#[trigger] o.sections[i]).start
            &&& o.sections[i].start <= o.sections[i].end
            &&& o.sections[i].end <= o.text.len()
        }
    &&& forall|i: int|
        0 < i < o.sections.len() ==> (#[trigger] o.sections[i]).start >= o.sections[i - 1].end
}

impl<T> SlashCommandOutputSection<T> {
    /// Whether an anchor-bound section is still valid against a document
    /// snapshot: its start anchor must still resolve there, and the range it
    /// resolves to must be non-empty. Anchor resolution belongs to the host
    /// editor, which supplies what it reports for this section's range
    /// against an explicit snapshot — whether the start anchor resolves, and
    /// the offsets the range resolves to. Validity must be recomputed per
    /// snapshot, never cached.
    pub fn is_valid(&self, start_resolves: bool, resolved: &core::ops::Range<usize>) -> (r:
        bool)
        ensures
            r == (start_resolves && resolved.start != resolved.end),
    {
        start_resolves && resolved.start != resolved.end
    }
}

impl SlashCommandOutput {
    /// An empty output: no text, no sections, and command re-interpretation
    /// disabled.
    pub fn new() -> (r: SlashCommandOutput)
        ensures
            r@.text == Seq::<u8>::empty(),
            r@.sections.len() == 0,
            !r@.run_commands_in_text,
    {
        SlashCommandOutput { text: Vec::new(), sections: Vec::new(), run_commands_in_text: false }
    }
}

impl Default for SlashCommandOutput {
    /// The default output is the empty output.
    fn default() -> (r: SlashCommandOutput)
        ensures
            r@.text == Seq::<u8>::empty(),
            r@.sections.len() == 0,
            !r@.run_commands_in_text,
    {
        SlashCommandOutput::new()
    }
}

} // verus!
