//! The event protocol: replaying an output as events and reconstructing an
//! output from events.
//!
//! Both directions are specified by spec functions — [`events_of`] for
//! emission and [`output_of_events`] for reconstruction — and the executable
//! conversions are proved to compute exactly those. On well-formed outputs
//! the two compose to the identity; see [`lemma_round_trip`].

use crate::event::{EventView, SlashCommandContent, SlashCommandEvent, view_events};
use crate::metadata::clone_metadata;
use crate::output::{
    IconName, OutputView, SectionView, SlashCommandOutput, SlashCommandOutputSection,
    view_sections, well_formed,
};
use vstd::prelude::*;

verus! {

/// The bytes of `t` between `a` and `b`, or the empty sequence where the
/// range is invalid (reversed or past the end). Mirrors slicing that yields
/// nothing rather than failing on an invalid range.
pub open spec fn byte_slice(t: Seq<u8>, a: int, b: int) -> Seq<u8> {
    if 0 <= a <= b <= t.len() {
        t.subrange(a, b)
    } else {
        Seq::empty()
    }
}

/// The gap content emitted before a section that starts past the cursor:
/// one `Content` event carrying the uncovered text, or nothing when the
/// section starts at (or before) the cursor.
pub open spec fn gap_events(text: Seq<u8>, run: bool, last: int, start: int) -> Seq<EventView> {
    if last < start {
        seq![
            EventView::Content { text: byte_slice(text, last, start), run_commands_in_text: run },
        ]
    } else {
        Seq::empty()
    }
}

/// The three events emitted for one section: `StartSection`, one `Content`
/// carrying the section's slice of the text (empty for a zero-length
/// section, never elided), and `EndSection` repeating the metadata.
pub open spec fn section_events(text: Seq<u8>, run: bool, s: SectionView) -> Seq<EventView> {
    seq![
        EventView::StartSection { icon: s.icon, label: s.label, metadata: s.metadata },
        EventView::Content { text: byte_slice(text, s.start, s.end), run_commands_in_text: run },
        EventView::EndSection { metadata: s.metadata },
    ]
}

/// The end of the last section before section `i`, or the beginning of the
/// text for the first section: the emission cursor when section `i` is
/// reached.
pub open spec fn cursor_at(o: OutputView, i: int) -> int {
    if i == 0 {
        0
    } else {
        o.sections[i - 1].end
    }
}

/// The events emitted from section `i` on, with the cursor at `last`: each
/// remaining section's gap and triple, then one final `Content` event for
/// any trailing text past the last section.
pub open spec fn events_from(o: OutputView, i: int, last: int) -> Seq<EventView>
    decreases o.sections.len() - i,
{
    if i < 0 || i >= o.sections.len() {
        if last < o.text.len() {
            seq![
                EventView::Content {
                    text: byte_slice(o.text, last, o.text.len() as int),
                    run_commands_in_text: o.run_commands_in_text,
                },
            ]
        } else {
            Seq::empty()
        }
    } else {
        gap_events(o.text, o.run_commands_in_text, last, o.sections[i].start)
            + section_events(o.text, o.run_commands_in_text, o.sections[i]) + events_from(
            o,
            i + 1,
            o.sections[i].end,
        )
    }
}

/// The full event sequence that replays `o`.
pub open spec fn events_of(o: OutputView) -> Seq<EventView> {
    events_from(o, 0, 0)
}

/// The reconstruction state: the output accumulated so far plus the section
/// currently open, if any.
pub ghost struct RecState {
    pub text: Seq<u8>,
    pub sections: Seq<SectionView>,
    pub run_commands_in_text: bool,
    pub current: Option<SectionView>,
}

/// Reconstruction starts from the empty output with no open section.
pub open spec fn initial_state() -> RecState {
    RecState {
        text: Seq::empty(),
        sections: Seq::empty(),
        run_commands_in_text: false,
        current: None,
    }
}

/// One step of reconstruction:
/// - `StartSection` first closes any open section (defensive, for producers
///   that forget `EndSection`), then opens an empty section at the end of
///   the accumulated text;
/// - `Content` appends its bytes, records its flag (last writer wins), and
///   extends the open section, if any, to the new end of text;
/// - `EndSection` closes the open section with the metadata carried here,
///   overriding the metadata from `StartSection`; with no open section it is
///   a no-op.
pub open spec fn apply_event(st: RecState, e: EventView) -> RecState {
    match e {
        EventView::StartSection { icon, label, metadata } => {
            let closed = match st.current {
                Some(s) => st.sections.push(s),
                None => st.sections,
            };
            RecState {
                sections: closed,
                current: Some(
                    SectionView {
                        start: st.text.len() as int,
                        end: st.text.len() as int,
                        icon,
                        label,
                        metadata,
                    },
                ),
                ..st
            }
        },
        EventView::Content { text, run_commands_in_text } => {
            let new_len = st.text.len() + text.len();
            RecState {
                text: st.text + text,
                run_commands_in_text,
                current: match st.current {
                    Some(s) => Some(SectionView { end: new_len as int, ..s }),
                    None => None,
                },
                ..st
            }
        },
        EventView::EndSection { metadata } => {
            match st.current {
                Some(s) => RecState {
                    sections: st.sections.push(SectionView { metadata, ..s }),
                    current: None,
                    ..st
                },
                None => st,
            }
        },
    }
}

/// The state after consuming a whole event sequence.
pub open spec fn replay(st: RecState, events: Seq<EventView>) -> RecState
    decreases events.len(),
{
    if events.len() == 0 {
        st
    } else {
        replay(apply_event(st, events[0]), events.drop_first())
    }
}

/// The output a final state denotes: a section still open at stream end is
/// closed as-is, with whatever metadata it currently holds.
pub open spec fn finish(st: RecState) -> OutputView {
    OutputView {
        text: st.text,
        sections: match st.current {
            Some(s) => st.sections.push(s),
            None => st.sections,
        },
        run_commands_in_text: st.run_commands_in_text,
    }
}

/// The output reconstructed from an arbitrary event sequence.
pub open spec fn output_of_events(events: Seq<EventView>) -> OutputView {
    finish(replay(initial_state(), events))
}

/// The bytes of `t` from `a` (inclusive) to `b` (exclusive), copied out; an
/// invalid range yields no bytes.
fn slice_bytes(t: &Vec<u8>, a: usize, b: usize) -> (r: Vec<u8>)
    ensures
        r@ == byte_slice(t@, a as int, b as int),
{
    let mut r: Vec<u8> = Vec::new();
    if a <= b && b <= t.len() {
        let mut j: usize = a;
        proof {
            assert(r@ =~= t@.subrange(a as int, a as int));
        }
        while j < b
            invariant
                a <= j <= b <= t.len(),
                r@ == t@.subrange(a as int, j as int),
            decreases b - j,
        {
            r.push(t[j]);
            j = j + 1;
            proof {
                assert(r@ =~= t@.subrange(a as int, j as int));
            }
        }
        proof {
            assert(r@ =~= byte_slice(t@, a as int, b as int));
        }
    }
    r
}

/// Taking the model of each section commutes with appending one section.
proof fn lemma_view_sections_push(
    sections: Seq<SlashCommandOutputSection<usize>>,
    s: SlashCommandOutputSection<usize>,
)
    ensures
        view_sections(sections.push(s)) == view_sections(sections).push(s@),
{
    assert(view_sections(sections.push(s)) =~= view_sections(sections).push(s@));
}

/// Replaying a sequence and then one more event is replaying the sequence
/// extended by that event.
proof fn lemma_replay_snoc(st: RecState, events: Seq<EventView>, e: EventView)
    ensures
        replay(st, events.push(e)) == apply_event(replay(st, events), e),
    decreases events.len(),
{
    if events.len() == 0 {
        assert(events.push(e)[0] == e);
        assert(events.push(e).drop_first() =~= Seq::<EventView>::empty());
        assert(replay(st, events.push(e)) == replay(apply_event(st, e), Seq::<EventView>::empty()));
    } else {
        assert(events.push(e)[0] == events[0]);
        assert(events.push(e).drop_first() =~= events.drop_first().push(e));
        lemma_replay_snoc(apply_event(st, events[0]), events.drop_first(), e);
        assert(replay(st, events.push(e)) == replay(
            apply_event(st, events[0]),
            events.drop_first().push(e),
        ));
        assert(replay(st, events) == replay(apply_event(st, events[0]), events.drop_first()));
    }
}

/// The model of the section a reconstructor keeps open, if any.
pub open spec fn view_current(current: Option<SlashCommandOutputSection<usize>>) -> Option<
    SectionView,
> {
    match current {
        Some(s) => Some(s@),
        None => None,
    }
}

/// Appends a copy of `src` to `dst`.
fn append_bytes(dst: &mut Vec<u8>, src: &Vec<u8>)
    ensures
        final(dst)@ == old(dst)@ + src@,
{
    let mut j: usize = 0;
    proof {
        assert(dst@ =~= old(dst)@ + src@.subrange(0, 0));
    }
    while j < src.len()
        invariant
            j <= src.len(),
            dst@ == old(dst)@ + src@.subrange(0, j as int),
        decreases src.len() - j,
    {
        dst.push(src[j]);
        j = j + 1;
        proof {
            assert(dst@ =~= old(dst)@ + src@.subrange(0, j as int));
        }
    }
    proof {
        assert(dst@ =~= old(dst)@ + src@);
    }
}

impl SlashCommandOutput {
    /// Replays this output as the event sequence that [`events_of`] gives:
    /// for each section in order, a `Content` event for any uncovered text
    /// before it, then `StartSection`, the section's text as one `Content`
    /// event (empty for a zero-length section), and `EndSection`; finally one
    /// `Content` event for any text after the last section.
    pub fn to_event_stream(&self) -> (r: Vec<SlashCommandEvent>)
        ensures
            view_events(r@) == events_of(self@),
    {
        let ghost o = self@;
        let mut events: Vec<SlashCommandEvent> = Vec::new();
        let mut last_section_end: usize = 0;
        let mut i: usize = 0;

        while i < self.sections.len()
            invariant
                i <= self.sections.len(),
                o == self@,
                view_events(events@) + events_from(o, i as int, last_section_end as int)
                    == events_of(o),
            decreases self.sections.len() - i,
        {
            let ghost events_before = events@;
            let ghost s_view = o.sections[i as int];
            let section = &self.sections[i];
            assert(s_view == section@);

            if last_section_end < section.range.start {
                let gap = slice_bytes(&self.text, last_section_end, section.range.start);
                events.push(
                    SlashCommandEvent::Content(
                        SlashCommandContent::Text {
                            text: gap,
                            run_commands_in_text: self.run_commands_in_text,
                        },
                    ),
                );
            }
            events.push(
                SlashCommandEvent::StartSection {
                    icon: section.icon,
                    label: section.label.clone(),
                    metadata: clone_metadata(&section.metadata),
                },
            );
            let body = slice_bytes(&self.text, section.range.start, section.range.end);
            events.push(
                SlashCommandEvent::Content(
                    SlashCommandContent::Text {
                        text: body,
                        run_commands_in_text: self.run_commands_in_text,
                    },
                ),
            );
            events.push(
                SlashCommandEvent::EndSection { metadata: clone_metadata(&section.metadata) },
            );

            proof {
                assert(view_events(events@) =~= view_events(events_before) + gap_events(
                    o.text,
                    o.run_commands_in_text,
                    last_section_end as int,
                    s_view.start,
                ) + section_events(o.text, o.run_commands_in_text, s_view));
                assert(view_events(events_before) + events_from(
                    o,
                    i as int,
                    last_section_end as int,
                ) =~= view_events(events@) + events_from(o, i as int + 1, s_view.end));
            }

            last_section_end = section.range.end;
            i = i + 1;
        }

        if last_section_end < self.text.len() {
            let ghost events_before = events@;
            let trailing = slice_bytes(&self.text, last_section_end, self.text.len());
            events.push(
                SlashCommandEvent::Content(
                    SlashCommandContent::Text {
                        text: trailing,
                        run_commands_in_text: self.run_commands_in_text,
                    },
                ),
            );
            proof {
                assert(view_events(events@) =~= view_events(events_before) + events_from(
                    o,
                    self.sections.len() as int,
                    last_section_end as int,
                ));
            }
        } else {
            proof {
                assert(view_events(events@) + events_from(
                    o,
                    self.sections.len() as int,
                    last_section_end as int,
                ) =~= view_events(events@));
            }
        }
        events
    }

    /// Reconstructs the output an event sequence denotes, exactly as
    /// [`output_of_events`] describes it: content accumulates in order, a
    /// `StartSection` while a section is open closes the open one first, a
    /// stray `EndSection` is a no-op, and a section left open at the end of
    /// the events is closed as-is.
    pub fn from_event_stream(events: &Vec<SlashCommandEvent>) -> (r: SlashCommandOutput)
        ensures
            r@ == output_of_events(view_events(events@)),
    {
        let ghost es = view_events(events@);
        let mut text: Vec<u8> = Vec::new();
        let mut sections: Vec<SlashCommandOutputSection<usize>> = Vec::new();
        let mut run_commands_in_text: bool = false;
        let mut current: Option<SlashCommandOutputSection<usize>> = None;
        let mut i: usize = 0;

        proof {
            assert(es.take(0) =~= Seq::<EventView>::empty());
            assert(view_sections(sections@) =~= Seq::<SectionView>::empty());
        }

        while i < events.len()
            invariant
                i <= events.len(),
                es == view_events(events@),
                es.len() == events.len(),
                ({
                    let st = replay(initial_state(), es.take(i as int));
                    &&& text@ == st.text
                    &&& view_sections(sections@) == st.sections
                    &&& run_commands_in_text == st.run_commands_in_text
                    &&& view_current(current) == st.current
                }),
            decreases events.len() - i,
        {
            let ghost st = replay(initial_state(), es.take(i as int));
            proof {
                assert(es.take(i + 1) =~= es.take(i as int).push(es[i as int]));
                lemma_replay_snoc(initial_state(), es.take(i as int), es[i as int]);
                assert(es[i as int] == events@[i as int]@);
            }

            match &events[i] {
                SlashCommandEvent::StartSection { icon, label, metadata } => {
                    let ghost sections_before = sections@;
                    let moved = current;
                    match moved {
                        Some(s) => {
                            proof {
                                lemma_view_sections_push(sections_before, s);
                            }
                            sections.push(s);
                        },
                        None => {},
                    }
                    let start = text.len();
                    current = Some(
                        SlashCommandOutputSection {
                            range: start..start,
                            icon: *icon,
                            label: label.clone(),
                            metadata: clone_metadata(metadata),
                        },
                    );
                },
                SlashCommandEvent::Content(
                    SlashCommandContent::Text { text: chunk, run_commands_in_text: run },
                ) => {
                    append_bytes(&mut text, chunk);
                    run_commands_in_text = *run;
                    let moved = current;
                    current = match moved {
                        Some(s) => Some(
                            SlashCommandOutputSection {
                                range: s.range.start..text.len(),
                                icon: s.icon,
                                label: s.label,
                                metadata: s.metadata,
                            },
                        ),
                        None => None,
                    };
                },
                SlashCommandEvent::EndSection { metadata } => {
                    let ghost sections_before = sections@;
                    let moved = current;
                    match moved {
                        Some(s) => {
                            let closed = SlashCommandOutputSection {
                                range: s.range,
                                icon: s.icon,
                                label: s.label,
                                metadata: clone_metadata(metadata),
                            };
                            proof {
                                lemma_view_sections_push(sections_before, closed);
                            }
                            sections.push(closed);
                            current = None;
                        },
                        None => {
                            current = None;
                        },
                    }
                },
            }
            i = i + 1;
        }

        proof {
            assert(es.take(i as int) =~= es);
        }
        let moved = current;
        match moved {
            Some(s) => {
                proof {
                    lemma_view_sections_push(sections@, s);
                }
                sections.push(s);
            },
            None => {},
        }
        SlashCommandOutput { text, sections, run_commands_in_text }
    }
}

/// Replaying a concatenation of two event sequences is replaying the first,
/// then the second.
proof fn lemma_replay_app(st: RecState, a: Seq<EventView>, b: Seq<EventView>)
    ensures
        replay(st, a + b) == replay(replay(st, a), b),
    decreases a.len(),
{
    if a.len() == 0 {
        assert(a + b =~= b);
    } else {
        assert((a + b)[0] == a[0]);
        assert((a + b).drop_first() =~= a.drop_first() + b);
        lemma_replay_app(apply_event(st, a[0]), a.drop_first(), b);
        assert(replay(st, a + b) == replay(apply_event(st, a[0]), a.drop_first() + b));
        assert(replay(st, a) == replay(apply_event(st, a[0]), a.drop_first()));
    }
}

/// Replaying the three events of one section from a state with no open
/// section appends exactly that section and accumulates exactly its text.
proof fn lemma_replay_section_triple(o: OutputView, i: int, st: RecState)
    requires
        well_formed(o),
        0 <= i < o.sections.len(),
        st.current is None,
        st.text == o.text.subrange(0, o.sections[i].start),
    ensures
        ({
            let fin = replay(st, section_events(o.text, o.run_commands_in_text, o.sections[i]));
            &&& fin.current is None
            &&& fin.text == o.text.subrange(0, o.sections[i].end)
            &&& fin.sections == st.sections.push(o.sections[i])
            &&& fin.run_commands_in_text == o.run_commands_in_text
        }),
{
    let s = o.sections[i];
    let run = o.run_commands_in_text;
    let triple = section_events(o.text, run, s);
    let e1 = EventView::StartSection { icon: s.icon, label: s.label, metadata: s.metadata };
    let e2 = EventView::Content {
        text: byte_slice(o.text, s.start, s.end),
        run_commands_in_text: run,
    };
    let e3 = EventView::EndSection { metadata: s.metadata };
    assert(triple[0] == e1);
    assert(triple.drop_first() =~= seq![e2, e3]);
    assert(seq![e2, e3].drop_first() =~= seq![e3]);
    assert(seq![e3].drop_first() =~= Seq::<EventView>::empty());
    let st1 = apply_event(st, e1);
    let st2 = apply_event(st1, e2);
    let st3 = apply_event(st2, e3);
    assert(replay(st, triple) == replay(st1, seq![e2, e3]));
    assert(replay(st1, seq![e2, e3]) == replay(st2, seq![e3]));
    assert(replay(st2, seq![e3]) == replay(st3, Seq::<EventView>::empty()));
    assert(st.text.len() == s.start);
    assert(byte_slice(o.text, s.start, s.end) == o.text.subrange(s.start, s.end));
    assert(st2.text =~= o.text.subrange(0, s.end));
    assert(st3.sections == st.sections.push(
        SectionView {
            start: s.start,
            end: s.end,
            icon: s.icon,
            label: s.label,
            metadata: s.metadata,
        },
    ));
    assert(SectionView {
        start: s.start,
        end: s.end,
        icon: s.icon,
        label: s.label,
        metadata: s.metadata,
    } == s);
}

/// Replaying the events emitted from section `i` on, starting from a state
/// that has accumulated exactly the text up to the emission cursor and has
/// no open section, accumulates the whole remaining text and appends exactly
/// the remaining sections.
#[verifier::rlimit(50)]
proof fn lemma_replay_sections(o: OutputView, i: int, st: RecState)
    requires
        well_formed(o),
        0 <= i <= o.sections.len(),
        st.current is None,
        st.text == o.text.subrange(0, cursor_at(o, i)),
    ensures
        ({
            let fin = replay(st, events_from(o, i, cursor_at(o, i)));
            &&& fin.current is None
            &&& fin.text == o.text
            &&& fin.sections == st.sections + o.sections.subrange(i, o.sections.len() as int)
            &&& fin.run_commands_in_text == (if i < o.sections.len() || cursor_at(o, i)
                < o.text.len() {
                o.run_commands_in_text
            } else {
                st.run_commands_in_text
            })
        }),
    decreases o.sections.len() - i,
{
    let last = cursor_at(o, i);
    let run = o.run_commands_in_text;
    if i == o.sections.len() {
        assert(last <= o.text.len());
        if last < o.text.len() {
            let e = EventView::Content {
                text: byte_slice(o.text, last, o.text.len() as int),
                run_commands_in_text: run,
            };
            let events = events_from(o, i, last);
            assert(events =~= seq![e]);
            assert(seq![e].drop_first() =~= Seq::<EventView>::empty());
            let fin = apply_event(st, e);
            assert(replay(st, events) == replay(fin, Seq::<EventView>::empty()));
            assert(fin.text =~= o.text);
            assert(fin.sections =~= st.sections + o.sections.subrange(
                i,
                o.sections.len() as int,
            ));
        } else {
            assert(st.text =~= o.text);
            assert(st.sections =~= st.sections + o.sections.subrange(i, o.sections.len() as int));
        }
    } else {
        let s = o.sections[i];
        let gap = gap_events(o.text, run, last, s.start);
        let triple = section_events(o.text, run, s);
        let rest = events_from(o, i + 1, s.end);
        assert(events_from(o, i, last) == gap + triple + rest);
        assert(last <= s.start && s.start <= s.end && s.end <= o.text.len());

        lemma_replay_app(st, gap + triple, rest);
        lemma_replay_app(st, gap, triple);
        assert((gap + triple) + rest == gap + triple + rest);

        let st1 = replay(st, gap);
        if last < s.start {
            let e = EventView::Content {
                text: byte_slice(o.text, last, s.start),
                run_commands_in_text: run,
            };
            assert(gap =~= seq![e]);
            assert(seq![e].drop_first() =~= Seq::<EventView>::empty());
            assert(replay(st, gap) == replay(apply_event(st, e), Seq::<EventView>::empty()));
            assert(st1.text =~= o.text.subrange(0, s.start));
        } else {
            assert(gap =~= Seq::<EventView>::empty());
            assert(st1 == st);
            assert(st1.text == o.text.subrange(0, s.start));
        }

        lemma_replay_section_triple(o, i, st1);
        let st2 = replay(st1, triple);

        assert(cursor_at(o, i + 1) == s.end);
        lemma_replay_sections(o, i + 1, st2);
        let fin = replay(st2, rest);
        assert(replay(st, events_from(o, i, last)) == fin);

        assert(fin.sections == st2.sections + o.sections.subrange(i + 1, o.sections.len() as int));
        assert(st2.sections == st1.sections.push(s));
        assert(st1.sections == st.sections);
        assert(st.sections.push(s) + o.sections.subrange(i + 1, o.sections.len() as int)
            =~= st.sections + o.sections.subrange(i, o.sections.len() as int));
    }
}

/// The bytes carried by the `Content` events of an event sequence, in order,
/// with all other events contributing nothing.
pub open spec fn content_concat(events: Seq<EventView>) -> Seq<u8>
    decreases events.len(),
{
    if events.len() == 0 {
        Seq::empty()
    } else {
        (match events[0] {
            EventView::Content { text, run_commands_in_text } => text,
            EventView::StartSection { icon, label, metadata } => Seq::empty(),
            EventView::EndSection { metadata } => Seq::empty(),
        }) + content_concat(events.drop_first())
    }
}

/// Content bytes concatenate across a concatenation of event sequences.
proof fn lemma_content_concat_app(a: Seq<EventView>, b: Seq<EventView>)
    ensures
        content_concat(a + b) == content_concat(a) + content_concat(b),
    decreases a.len(),
{
    if a.len() == 0 {
        assert(a + b =~= b);
        assert(content_concat(a) + content_concat(b) =~= content_concat(b));
    } else {
        assert((a + b)[0] == a[0]);
        assert((a + b).drop_first() =~= a.drop_first() + b);
        lemma_content_concat_app(a.drop_first(), b);
        assert(content_concat(a + b) =~= content_concat(a) + content_concat(b));
    }
}

/// The events emitted from section `i` on carry, in their `Content` events,
/// exactly the text from the emission cursor to the end.
proof fn lemma_content_from(o: OutputView, i: int)
    requires
        well_formed(o),
        0 <= i <= o.sections.len(),
    ensures
        content_concat(events_from(o, i, cursor_at(o, i))) == o.text.subrange(
            cursor_at(o, i),
            o.text.len() as int,
        ),
    decreases o.sections.len() - i,
{
    let last = cursor_at(o, i);
    let run = o.run_commands_in_text;
    if i == o.sections.len() {
        assert(last <= o.text.len());
        if last < o.text.len() {
            let e = EventView::Content {
                text: byte_slice(o.text, last, o.text.len() as int),
                run_commands_in_text: run,
            };
            assert(events_from(o, i, last) =~= seq![e]);
            assert(seq![e].drop_first() =~= Seq::<EventView>::empty());
            assert(content_concat(Seq::<EventView>::empty()) == Seq::<u8>::empty());
            assert(content_concat(seq![e]) =~= o.text.subrange(last, o.text.len() as int));
        } else {
            assert(content_concat(events_from(o, i, last)) =~= o.text.subrange(
                last,
                o.text.len() as int,
            ));
        }
    } else {
        let s = o.sections[i];
        let gap = gap_events(o.text, run, last, s.start);
        let triple = section_events(o.text, run, s);
        let rest = events_from(o, i + 1, s.end);
        assert(last <= s.start && s.start <= s.end && s.end <= o.text.len());

        lemma_content_concat_app(gap + triple, rest);
        lemma_content_concat_app(gap, triple);
        assert((gap + triple) + rest == gap + triple + rest);

        if last < s.start {
            let e = EventView::Content {
                text: byte_slice(o.text, last, s.start),
                run_commands_in_text: run,
            };
            assert(gap =~= seq![e]);
            assert(seq![e].drop_first() =~= Seq::<EventView>::empty());
            assert(content_concat(Seq::<EventView>::empty()) == Seq::<u8>::empty());
            assert(content_concat(gap) =~= o.text.subrange(last, s.start));
        } else {
            assert(content_concat(gap) =~= o.text.subrange(last, s.start));
        }

        assert(triple.drop_first() =~= seq![triple[1], triple[2]]);
        assert(seq![triple[1], triple[2]].drop_first() =~= seq![triple[2]]);
        assert(seq![triple[2]].drop_first() =~= Seq::<EventView>::empty());
        assert(content_concat(Seq::<EventView>::empty()) == Seq::<u8>::empty());
        assert(content_concat(seq![triple[2]]) =~= Seq::<u8>::empty());
        assert(content_concat(seq![triple[1], triple[2]]) =~= o.text.subrange(s.start, s.end));
        assert(content_concat(triple) =~= o.text.subrange(s.start, s.end));

        lemma_content_from(o, i + 1);
        assert(cursor_at(o, i + 1) == s.end);

        assert(o.text.subrange(last, s.start) + o.text.subrange(s.start, s.end) + o.text.subrange(
            s.end,
            o.text.len() as int,
        ) =~= o.text.subrange(last, o.text.len() as int));
    }
}

/// Gap preservation: the `Content` events of a well-formed output's event
/// sequence carry the whole text verbatim, in order — the text before,
/// between and after the sections included. That none of it is newly
/// attributed to a section is [`lemma_round_trip`]'s statement: the
/// reconstructed section list, ranges included, is exactly the original one.
pub proof fn lemma_gap_preservation(o: OutputView)
    requires
        well_formed(o),
    ensures
        content_concat(events_of(o)) == o.text,
{
    lemma_content_from(o, 0);
    assert(o.text.subrange(0, o.text.len() as int) =~= o.text);
}

/// Empty-section fidelity: a zero-length section still emits a
/// `StartSection`/`EndSection` pair with an empty `Content` event between
/// them — the empty event is not elided — and reconstruction yields the
/// zero-length section back unchanged.
pub proof fn lemma_empty_section_fidelity(o: OutputView, i: int)
    requires
        well_formed(o),
        0 <= i < o.sections.len(),
        o.sections[i].start == o.sections[i].end,
    ensures
        section_events(o.text, o.run_commands_in_text, o.sections[i]) == seq![
            EventView::StartSection {
                icon: o.sections[i].icon,
                label: o.sections[i].label,
                metadata: o.sections[i].metadata,
            },
            EventView::Content {
                text: Seq::<u8>::empty(),
                run_commands_in_text: o.run_commands_in_text,
            },
            EventView::EndSection { metadata: o.sections[i].metadata },
        ],
        output_of_events(events_of(o)).sections[i] == o.sections[i],
        output_of_events(events_of(o)).sections[i].start == output_of_events(
            events_of(o),
        ).sections[i].end,
        output_of_events(events_of(o)).sections[i].start == o.sections[i].start,
        output_of_events(events_of(o)).sections.len() == o.sections.len(),
{
    let s = o.sections[i];
    assert(byte_slice(o.text, s.start, s.end) =~= Seq::<u8>::empty());
    assert(section_events(o.text, o.run_commands_in_text, s) =~= seq![
        EventView::StartSection { icon: s.icon, label: s.label, metadata: s.metadata },
        EventView::Content {
            text: Seq::<u8>::empty(),
            run_commands_in_text: o.run_commands_in_text,
        },
        EventView::EndSection { metadata: s.metadata },
    ]);
    lemma_round_trip(o);
}

/// Metadata override: however a stream began, a section opened by
/// `StartSection` and closed by the matching `EndSection` is reconstructed
/// with the metadata the `EndSection` carried — the value given at
/// `StartSection` time does not appear in the result.
pub proof fn lemma_metadata_override(
    prefix: Seq<EventView>,
    icon: IconName,
    label: Seq<char>,
    metadata_at_start: Option<serde_json::Value>,
    chunk: Seq<u8>,
    run: bool,
    metadata_at_end: Option<serde_json::Value>,
)
    ensures
        ({
            let events = prefix + seq![
                EventView::StartSection { icon, label, metadata: metadata_at_start },
                EventView::Content { text: chunk, run_commands_in_text: run },
                EventView::EndSection { metadata: metadata_at_end },
            ];
            let out = output_of_events(events);
            &&& out.sections.len() > 0
            &&& out.sections.last() == SectionView {
                start: out.text.len() - chunk.len(),
                end: out.text.len() as int,
                icon,
                label,
                metadata: metadata_at_end,
            }
        }),
{
    let e1 = EventView::StartSection { icon, label, metadata: metadata_at_start };
    let e2 = EventView::Content { text: chunk, run_commands_in_text: run };
    let e3 = EventView::EndSection { metadata: metadata_at_end };
    let triple = seq![e1, e2, e3];
    lemma_replay_app(initial_state(), prefix, triple);
    let st = replay(initial_state(), prefix);
    assert(triple.drop_first() =~= seq![e2, e3]);
    assert(seq![e2, e3].drop_first() =~= seq![e3]);
    assert(seq![e3].drop_first() =~= Seq::<EventView>::empty());
    let st1 = apply_event(st, e1);
    let st2 = apply_event(st1, e2);
    let st3 = apply_event(st2, e3);
    assert(replay(st, triple) == replay(st1, seq![e2, e3]));
    assert(replay(st1, seq![e2, e3]) == replay(st2, seq![e3]));
    assert(replay(st2, seq![e3]) == replay(st3, Seq::<EventView>::empty()));
    assert(replay(st, triple) == st3);
    assert(st3.text == st.text + chunk);
    assert(st3.sections.last() == SectionView {
        start: st.text.len() as int,
        end: (st.text.len() + chunk.len()) as int,
        icon,
        label,
        metadata: metadata_at_end,
    });
}

/// Defensive close: a producer that opens a second section without closing
/// the first still yields two sections — the first closes exactly where the
/// second opens, keeping its start-time metadata, and the section left open
/// at stream end is closed as-is.
pub proof fn lemma_defensive_close(
    icon1: IconName,
    label1: Seq<char>,
    metadata1: Option<serde_json::Value>,
    chunk1: Seq<u8>,
    run1: bool,
    icon2: IconName,
    label2: Seq<char>,
    metadata2: Option<serde_json::Value>,
    chunk2: Seq<u8>,
    run2: bool,
)
    ensures
        ({
            let events = seq![
                EventView::StartSection { icon: icon1, label: label1, metadata: metadata1 },
                EventView::Content { text: chunk1, run_commands_in_text: run1 },
                EventView::StartSection { icon: icon2, label: label2, metadata: metadata2 },
                EventView::Content { text: chunk2, run_commands_in_text: run2 },
            ];
            let out = output_of_events(events);
            &&& out.text == chunk1 + chunk2
            &&& out.sections.len() == 2
            &&& out.sections[0] == SectionView {
                start: 0,
                end: chunk1.len() as int,
                icon: icon1,
                label: label1,
                metadata: metadata1,
            }
            &&& out.sections[1] == SectionView {
                start: chunk1.len() as int,
                end: (chunk1.len() + chunk2.len()) as int,
                icon: icon2,
                label: label2,
                metadata: metadata2,
            }
            &&& out.sections[0].end == out.sections[1].start
            &&& out.run_commands_in_text == run2
        }),
{
    let e1 = EventView::StartSection { icon: icon1, label: label1, metadata: metadata1 };
    let e2 = EventView::Content { text: chunk1, run_commands_in_text: run1 };
    let e3 = EventView::StartSection { icon: icon2, label: label2, metadata: metadata2 };
    let e4 = EventView::Content { text: chunk2, run_commands_in_text: run2 };
    let events = seq![e1, e2, e3, e4];
    assert(events.drop_first() =~= seq![e2, e3, e4]);
    assert(seq![e2, e3, e4].drop_first() =~= seq![e3, e4]);
    assert(seq![e3, e4].drop_first() =~= seq![e4]);
    assert(seq![e4].drop_first() =~= Seq::<EventView>::empty());
    let st1 = apply_event(initial_state(), e1);
    let st2 = apply_event(st1, e2);
    let st3 = apply_event(st2, e3);
    let st4 = apply_event(st3, e4);
    assert(replay(initial_state(), events) == replay(st1, seq![e2, e3, e4]));
    assert(replay(st1, seq![e2, e3, e4]) == replay(st2, seq![e3, e4]));
    assert(replay(st2, seq![e3, e4]) == replay(st3, seq![e4]));
    assert(replay(st3, seq![e4]) == replay(st4, Seq::<EventView>::empty()));
    assert(replay(initial_state(), events) == st4);
    assert(st2.text =~= chunk1);
    assert(st4.text =~= chunk1 + chunk2);
}

/// The round-trip law: replaying a well-formed output as events and
/// reconstructing from those events yields the output back, exactly — text,
/// section list, ranges, icons, labels, metadata and flag.
///
/// The one output the law cannot cover is the completely empty one whose
/// re-interpretation flag is set: it emits no events at all, so the flag has
/// no event to ride on and reconstruction yields the flag unset.
pub proof fn lemma_round_trip(o: OutputView)
    requires
        well_formed(o),
        o.sections.len() > 0 || o.text.len() > 0 || !o.run_commands_in_text,
    ensures
        output_of_events(events_of(o)) == o,
{
    let st = initial_state();
    assert(st.text =~= o.text.subrange(0, 0));
    assert(cursor_at(o, 0) == 0);
    lemma_replay_sections(o, 0, st);
    let fin = replay(st, events_from(o, 0, 0));
    assert(fin.sections =~= o.sections);
    assert(fin.text == o.text);
    assert(fin.run_commands_in_text == o.run_commands_in_text);
    assert(finish(fin) == o);
}

} // verus!
