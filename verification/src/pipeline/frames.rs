//! Which spans of the source timeline are written, and which of them are
//! interpolated.

use crate::cadence::{
    is_confident_duplicate, is_scene_change, is_smoothable_cadence_run,
    measure_frame_difference_rgb24, CadenceDiagnostics, ContentPreset, FrameDifference,
    DIFFERENCE_MAX,
};
use crate::pipeline::OUTPUT_FRAME_COUNT_MAX;
use crate::{cadence, text};
use vstd::prelude::*;

verus! {

/// How a frame relates to the anchor frame before it.
#[derive(Clone, Copy, Debug, PartialEq, Eq, Structural)]
pub enum FrameClass {
    /// The same drawing once more.
    Held,
    /// The first frame of another shot.
    Cut,
    /// Another frame of the same shot.
    Motion,
}

/// A stretch of the source timeline, from one frame index up to another, and
/// whether the frames inside it are interpolated.
#[derive(Clone, Copy, Debug, PartialEq, Eq, Structural)]
pub struct SourceSpan {
    pub source_index_start: u64,
    pub source_index_end: u64,
    pub interpolate: bool,
}

/// Where the analysis of the source stands: the anchor frame, from which the next
/// span starts, and the candidate, the next frame to read.
#[derive(Clone, Copy, Debug, PartialEq, Eq, Structural)]
pub struct FramePlanner {
    pub anime_mode: bool,
    pub scene_detection: bool,
    pub anchor_index: u64,
    pub candidate_index: u64,
    pub cadence_run_frame_count: u64,
    pub preserving_long_hold: bool,
}

/// A counter one higher, or unchanged at its limit.
pub open spec fn counted(count: u64) -> u64 {
    if count < u64::MAX {
        (count + 1) as u64
    } else {
        count
    }
}

impl FramePlanner {
    /// The run holds one to three frames, starting at the anchor and ending before
    /// the candidate; a long hold that is preserved is written frame by frame.
    pub open spec fn well_formed(self) -> bool {
        &&& 1 <= self.cadence_run_frame_count <= 3
        &&& self.candidate_index == self.anchor_index + self.cadence_run_frame_count
        &&& self.preserving_long_hold ==> self.cadence_run_frame_count == 1
        &&& !self.anime_mode ==> self.cadence_run_frame_count == 1 && !self.preserving_long_hold
        &&& self.anime_mode ==> self.scene_detection
    }

    /// The state after the first frame, which is the anchor.
    pub open spec fn initial(preset: ContentPreset, scene_detection: bool) -> FramePlanner {
        FramePlanner {
            anime_mode: preset == ContentPreset::Anime,
            scene_detection: scene_detection || preset == ContentPreset::Anime,
            anchor_index: 0,
            candidate_index: 1,
            cadence_run_frame_count: 1,
            preserving_long_hold: false,
        }
    }

    /// The class of a frame. Only the Anime preset looks for held drawings, and only
    /// scene protection looks for cuts.
    pub open spec fn class_of(self, difference: FrameDifference) -> FrameClass {
        if self.anime_mode && cadence::confident_duplicate(difference) {
            FrameClass::Held
        } else if self.scene_detection && cadence::scene_change(difference) {
            FrameClass::Cut
        } else {
            FrameClass::Motion
        }
    }

    /// The class of a frame, by what it holds itself.
    pub open spec fn class_of_frames(
        self,
        anchor: Seq<u8>,
        candidate: Seq<u8>,
        width: int,
        height: int,
    ) -> FrameClass {
        if self.anime_mode && cadence::holds_drawing(anchor, candidate, width, height) {
            FrameClass::Held
        } else if self.scene_detection && cadence::begins_shot(anchor, candidate, width, height) {
            FrameClass::Cut
        } else {
            FrameClass::Motion
        }
    }

    /// Whether the frame only lengthens the current run.
    pub open spec fn extends_run(self, class: FrameClass) -> bool {
        class == FrameClass::Held && !self.preserving_long_hold
            && cadence::smoothable_cadence_run(self.cadence_run_frame_count + 1)
    }

    /// The span that a frame completes, unless it lengthens the run. Only motion
    /// inside a shot is interpolated.
    pub open spec fn completed_span(self, class: FrameClass) -> Option<SourceSpan> {
        if self.extends_run(class) {
            None
        } else {
            Some(
                SourceSpan {
                    source_index_start: self.anchor_index,
                    source_index_end: self.candidate_index,
                    interpolate: class == FrameClass::Motion,
                },
            )
        }
    }

    /// The state after a frame: the run is one longer, or the frame is the new anchor.
    pub open spec fn after(self, class: FrameClass) -> FramePlanner {
        let next = (self.candidate_index + 1) as u64;
        if self.extends_run(class) {
            FramePlanner {
                candidate_index: next,
                cadence_run_frame_count: (self.cadence_run_frame_count + 1) as u64,
                ..self
            }
        } else {
            FramePlanner {
                anchor_index: self.candidate_index,
                candidate_index: next,
                cadence_run_frame_count: 1,
                preserving_long_hold: class == FrameClass::Held,
                ..self
            }
        }
    }

    /// What a frame adds to the counts: a held frame, the long hold that it starts,
    /// the cut that it makes, and the run that it ends and that is smoothed.
    pub open spec fn count(self, class: FrameClass, counts: CadenceDiagnostics) -> CadenceDiagnostics {
        CadenceDiagnostics {
            duplicate_frame_count: if class == FrameClass::Held {
                counted(counts.duplicate_frame_count)
            } else {
                counts.duplicate_frame_count
            },
            long_hold_count: if class == FrameClass::Held && !self.extends_run(class)
                && !self.preserving_long_hold {
                counted(counts.long_hold_count)
            } else {
                counts.long_hold_count
            },
            scene_cut_count: if class == FrameClass::Cut {
                counted(counts.scene_cut_count)
            } else {
                counts.scene_cut_count
            },
            cadence_run_count: if class == FrameClass::Motion
                && cadence::smoothable_cadence_run(self.cadence_run_frame_count as int) {
                counted(counts.cadence_run_count)
            } else {
                counts.cadence_run_count
            },
            ..counts
        }
    }

    /// Starts the analysis once the first frame has been read.
    pub fn new(preset: ContentPreset, scene_detection: bool) -> (planner: FramePlanner)
        ensures
            planner == FramePlanner::initial(preset, scene_detection),
            planner.well_formed(),
    {
        let anime_mode = preset == ContentPreset::Anime;
        FramePlanner {
            anime_mode,
            scene_detection: scene_detection || anime_mode,
            anchor_index: 0,
            candidate_index: 1,
            cadence_run_frame_count: 1,
            preserving_long_hold: false,
        }
    }

    /// What the front end shows while frames are processed.
    pub fn phase(&self) -> (phase: &'static str)
        ensures
            phase@ == if self.anime_mode {
                "Analyzing anime cadence, interpolating, and encoding"@
            } else {
                "Interpolating and encoding"@
            },
    {
        if self.anime_mode {
            "Analyzing anime cadence, interpolating, and encoding"
        } else {
            "Interpolating and encoding"
        }
    }

    /// Whether the next frame may be read: not once the job is cancelled, and not
    /// past the frame limit.
    pub fn before_read(&self, cancelled: bool) -> (result: Result<(), String>)
        ensures
            text::result_text(result) == if cancelled {
                Err("job cancelled"@)
            } else if self.candidate_index >= OUTPUT_FRAME_COUNT_MAX {
                Err("source exceeds the 100000000-frame safety limit"@)
            } else {
                Ok(())
            },
    {
        if cancelled {
            return Err("job cancelled".to_owned());
        }
        if self.candidate_index >= OUTPUT_FRAME_COUNT_MAX {
            return Err("source exceeds the 100000000-frame safety limit".to_owned());
        }
        Ok(())
    }

    /// Takes in how the candidate differs from the anchor: counts what it is, and
    /// returns the span that it completes. Where there is one, the candidate becomes
    /// the anchor.
    pub fn observe(
        &mut self,
        counts: &mut CadenceDiagnostics,
        difference: &FrameDifference,
    ) -> (span: Option<SourceSpan>)
        requires
            old(self).well_formed(),
            old(self).candidate_index < OUTPUT_FRAME_COUNT_MAX,
            difference.normalized(),
        ensures
            final(self).well_formed(),
            *final(self) == old(self).after(old(self).class_of(*difference)),
            *final(counts) == old(self).count(old(self).class_of(*difference), *old(counts)),
            span == old(self).completed_span(old(self).class_of(*difference)),
    {
        let held = self.anime_mode && is_confident_duplicate(*difference);
        let cut = !held && self.scene_detection && is_scene_change(difference);
        let candidate_index: u64 = self.candidate_index;
        if held {
            counts.duplicate_frame_count = counts.duplicate_frame_count.saturating_add(1);
            if !self.preserving_long_hold {
                if is_smoothable_cadence_run(self.cadence_run_frame_count + 1) {
                    self.cadence_run_frame_count = self.cadence_run_frame_count + 1;
                    self.candidate_index = candidate_index + 1;
                    return None;
                }
                counts.long_hold_count = counts.long_hold_count.saturating_add(1);
            }
        } else if cut {
            counts.scene_cut_count = counts.scene_cut_count.saturating_add(1);
        } else if is_smoothable_cadence_run(self.cadence_run_frame_count) {
            counts.cadence_run_count = counts.cadence_run_count.saturating_add(1);
        }
        let span = SourceSpan {
            source_index_start: self.anchor_index,
            source_index_end: candidate_index,
            interpolate: !held && !cut,
        };
        self.anchor_index = candidate_index;
        self.candidate_index = candidate_index + 1;
        self.cadence_run_frame_count = 1;
        self.preserving_long_hold = held;
        Some(span)
    }

    /// Compares the candidate frame with the anchor frame, where the preset asks for
    /// it, and takes in the result.
    pub fn observe_frames(
        &mut self,
        counts: &mut CadenceDiagnostics,
        frame_anchor: &[u8],
        frame_candidate: &[u8],
        width: u32,
        height: u32,
    ) -> (span: Option<SourceSpan>)
        requires
            old(self).well_formed(),
            old(self).candidate_index < OUTPUT_FRAME_COUNT_MAX,
            width > 0,
            height > 0,
            frame_anchor@.len() == width * height * 3,
            frame_candidate@.len() == width * height * 3,
            width * height * DIFFERENCE_MAX <= u64::MAX,
        ensures
            final(self).well_formed(),
            ({
                let class = old(self).class_of_frames(
                    frame_anchor@,
                    frame_candidate@,
                    width as int,
                    height as int,
                );
                &&& *final(self) == old(self).after(class)
                &&& *final(counts) == old(self).count(class, *old(counts))
                &&& span == old(self).completed_span(class)
            }),
    {
        let difference = if self.anime_mode || self.scene_detection {
            measure_frame_difference_rgb24(frame_anchor, frame_candidate, width, height)
        } else {
            FrameDifference::default()
        };
        proof {
            if self.scene_detection {
                cadence::frames_decide_their_difference(
                    difference,
                    frame_anchor@,
                    frame_candidate@,
                    width as int,
                    height as int,
                );
            }
        }
        self.observe(counts, &difference)
    }

    /// The span that ends with the source: the anchor is held to the end.
    pub fn last_span(&self) -> (span: SourceSpan)
        ensures
            span == (SourceSpan {
                source_index_start: self.anchor_index,
                source_index_end: self.candidate_index,
                interpolate: false,
            }),
    {
        SourceSpan {
            source_index_start: self.anchor_index,
            source_index_end: self.candidate_index,
            interpolate: false,
        }
    }
}

/// The classes that the frames after the first one have, in order, taken one by
/// one: the state they lead to.
pub open spec fn planned(start: FramePlanner, classes: Seq<FrameClass>) -> FramePlanner
    decreases classes.len(),
{
    if classes.len() == 0 {
        start
    } else {
        planned(start, classes.drop_last()).after(classes.last())
    }
}

/// The spans that the frames complete, in order.
pub open spec fn planned_spans(start: FramePlanner, classes: Seq<FrameClass>) -> Seq<SourceSpan>
    decreases classes.len(),
{
    if classes.len() == 0 {
        Seq::empty()
    } else {
        let earlier = planned_spans(start, classes.drop_last());
        match planned(start, classes.drop_last()).completed_span(classes.last()) {
            Some(span) => earlier.push(span),
            None => earlier,
        }
    }
}

/// All spans of a source whose frames after the first have the given classes: the
/// ones that frames complete, and the one that is held to the end.
pub open spec fn source_spans(start: FramePlanner, classes: Seq<FrameClass>) -> Seq<SourceSpan> {
    let last = planned(start, classes);
    planned_spans(start, classes).push(
        SourceSpan {
            source_index_start: last.anchor_index,
            source_index_end: last.candidate_index,
            interpolate: false,
        },
    )
}

/// Whether spans follow one another without gap or overlap, from `start` to `end`.
pub open spec fn spans_cover(spans: Seq<SourceSpan>, start: int, end: int) -> bool
    decreases spans.len(),
{
    if spans.len() == 0 {
        start == end
    } else {
        &&& spans.last().source_index_end == end
        &&& spans.last().source_index_start < end
        &&& spans_cover(spans.drop_last(), start, spans.last().source_index_start as int)
    }
}

/// Whether the classes can come up under a preset: only the Anime preset sees held
/// drawings.
pub open spec fn classes_fit(planner: FramePlanner, classes: Seq<FrameClass>) -> bool {
    !planner.anime_mode ==> forall|i: int|
        0 <= i < classes.len() ==> #[trigger] classes[i] != FrameClass::Held
}

/// One step keeps the planner well formed, and the span that it completes reaches
/// from the old anchor to the new one.
pub proof fn planner_stays_well_formed(planner: FramePlanner, class: FrameClass)
    requires
        planner.well_formed(),
        planner.candidate_index < OUTPUT_FRAME_COUNT_MAX,
        !planner.anime_mode ==> class != FrameClass::Held,
    ensures
        planner.after(class).well_formed(),
        planner.after(class).candidate_index == planner.candidate_index + 1,
        planner.completed_span(class) matches Some(span) ==> span.source_index_start
            == planner.anchor_index && span.source_index_end == planner.after(class).anchor_index,
        planner.completed_span(class) is None ==> planner.after(class).anchor_index
            == planner.anchor_index,
{
}

proof fn lemma_planned(start: FramePlanner, classes: Seq<FrameClass>)
    requires
        start.well_formed(),
        start.anchor_index == 0,
        start.candidate_index == 1,
        classes.len() + 1 < OUTPUT_FRAME_COUNT_MAX,
        classes_fit(start, classes),
    ensures
        planned(start, classes).well_formed(),
        planned(start, classes).candidate_index == classes.len() + 1,
        planned(start, classes).anime_mode == start.anime_mode,
        planned(start, classes).scene_detection == start.scene_detection,
        spans_cover(
            planned_spans(start, classes),
            0,
            planned(start, classes).anchor_index as int,
        ),
    decreases classes.len(),
{
    if classes.len() > 0 {
        let shorter = classes.drop_last();
        assert(classes_fit(start, shorter));
        lemma_planned(start, shorter);
        let planner = planned(start, shorter);
        assert(!planner.anime_mode ==> classes[classes.len() - 1] != FrameClass::Held);
        planner_stays_well_formed(planner, classes.last());
        if let Some(span) = planner.completed_span(classes.last()) {
            assert(planned_spans(start, classes).drop_last() =~= planned_spans(start, shorter));
        }
    }
}

/// The spans of a source cover its timeline exactly: every source frame lies in
/// one span, and output duration and timing are kept.
pub proof fn spans_cover_the_source(
    preset: ContentPreset,
    scene_detection: bool,
    classes: Seq<FrameClass>,
)
    requires
        classes.len() + 1 < OUTPUT_FRAME_COUNT_MAX,
        classes_fit(FramePlanner::initial(preset, scene_detection), classes),
    ensures
        spans_cover(
            source_spans(FramePlanner::initial(preset, scene_detection), classes),
            0,
            classes.len() as int + 1,
        ),
{
    let start = FramePlanner::initial(preset, scene_detection);
    lemma_planned(start, classes);
    assert(source_spans(start, classes).drop_last() =~= planned_spans(start, classes));
}

/// Only a frame of the same shot that is no held drawing ends an interpolated
/// span: neither a cut nor a hold is ever synthesized across.
pub proof fn only_motion_is_interpolated(planner: FramePlanner, class: FrameClass)
    ensures
        planner.completed_span(class) matches Some(span) ==> span.interpolate == (class
            == FrameClass::Motion),
{
}

/// A frame across a shot boundary is never interpolated to where scene protection
/// is on, whatever the cadence.
pub proof fn scene_protection_comes_first(planner: FramePlanner, difference: FrameDifference)
    requires
        planner.scene_detection,
        difference.mean.well_formed(),
        cadence::scene_change(difference),
    ensures
        planner.completed_span(planner.class_of(difference)) matches Some(span)
            && !span.interpolate,
{
    if cadence::confident_duplicate(difference) {
        cadence::duplicates_are_no_scene_changes(difference);
    }
}

/// An interpolated span is one source interval long, or bridges a run of two or
/// three held frames.
pub proof fn interpolated_spans_are_short(planner: FramePlanner, class: FrameClass)
    requires
        planner.well_formed(),
    ensures
        planner.completed_span(class) matches Some(span) ==> {
            &&& span.source_index_end - span.source_index_start == planner.cadence_run_frame_count
            &&& 1 <= span.source_index_end - span.source_index_start <= 3
        },
{
}

/// The Movie preset completes a span of one interval with every frame.
pub proof fn movie_takes_adjacent_pairs(planner: FramePlanner, difference: FrameDifference)
    requires
        planner.well_formed(),
        !planner.anime_mode,
    ensures
        planner.completed_span(planner.class_of(difference)) == Some(
            SourceSpan {
                source_index_start: planner.anchor_index,
                source_index_end: (planner.anchor_index + 1) as u64,
                interpolate: !(planner.scene_detection && cadence::scene_change(difference)),
            },
        ),
{
}

/// A hold of four frames or more is written without interpolation, from its first
/// frame to its last.
pub proof fn long_holds_are_preserved(planner: FramePlanner, class: FrameClass)
    requires
        planner.well_formed(),
        planner.preserving_long_hold || planner.cadence_run_frame_count == 3,
        class == FrameClass::Held,
    ensures
        planner.completed_span(class) matches Some(span) && !span.interpolate,
        planner.after(class).preserving_long_hold,
{
}

/// After a frame a long hold is being preserved exactly where the frame is held and did
/// not only lengthen the run; only a frame that lengthens the run leaves the anchor where
/// it was.
pub proof fn only_long_holds_are_preserved(planner: FramePlanner, class: FrameClass)
    requires
        planner.well_formed(),
        planner.candidate_index < 100_000_000,
        !planner.anime_mode ==> class != FrameClass::Held,
    ensures
        planner.after(class).preserving_long_hold <==> class == FrameClass::Held
            && planner.completed_span(class) is Some,
        planner.completed_span(class) is None <==> planner.after(class).anchor_index
            == planner.anchor_index,
        planner.completed_span(class) is None ==> class == FrameClass::Held,
        planner.completed_span(class) is Some ==> planner.after(class).anchor_index
            == planner.candidate_index && planner.after(class).cadence_run_frame_count == 1,
        planner.completed_span(class) is None ==> planner.after(class).cadence_run_frame_count
            == planner.cadence_run_frame_count + 1,
        planner.after(class).anime_mode == planner.anime_mode,
        planner.after(class).scene_detection == planner.scene_detection,
{
}

/// A run of frames of one class.
pub open spec fn repeated(class: FrameClass, count: nat) -> Seq<FrameClass> {
    Seq::new(count, |i: int| class)
}

proof fn lemma_repeated(class: FrameClass, count: nat)
    requires
        count > 0,
    ensures
        repeated(class, count).drop_last() == repeated(class, (count - 1) as nat),
        repeated(class, count).last() == class,
{
    assert(repeated(class, count).drop_last() =~= repeated(class, (count - 1) as nat));
}

/// The state and the spans after one more frame.
proof fn lemma_one_more(start: FramePlanner, classes: Seq<FrameClass>, class: FrameClass)
    ensures
        planned(start, classes.push(class)) == planned(start, classes).after(class),
        planned_spans(start, classes.push(class)) == match planned(start, classes).completed_span(
            class,
        ) {
            Some(span) => planned_spans(start, classes).push(span),
            None => planned_spans(start, classes),
        },
{
    assert(classes.push(class).drop_last() =~= classes);
}

proof fn lemma_short_run(start: FramePlanner, held: nat)
    requires
        start.well_formed(),
        start.anime_mode,
        start.cadence_run_frame_count == 1,
        !start.preserving_long_hold,
        held <= 2,
        start.candidate_index + held < 100_000_000,
    ensures
        planned(start, repeated(FrameClass::Held, held)) == (FramePlanner {
            candidate_index: (start.candidate_index + held) as u64,
            cadence_run_frame_count: (1 + held) as u64,
            ..start
        }),
        planned_spans(start, repeated(FrameClass::Held, held)) == Seq::<SourceSpan>::empty(),
    decreases held,
{
    if held == 0 {
        assert(repeated(FrameClass::Held, 0) =~= Seq::<FrameClass>::empty());
    } else {
        lemma_repeated(FrameClass::Held, held);
        lemma_short_run(start, (held - 1) as nat);
    }
}

/// Wherever a drawing begins, with motion or with a cut, one or two held frames after it
/// complete no span, and the frame that ends them completes one from the first frame of
/// the drawing to itself: motion an interpolated one, a cut one that is not.
pub proof fn short_runs_make_one_span(
    before: FramePlanner,
    begins: FrameClass,
    held: nat,
    ends: FrameClass,
)
    requires
        before.well_formed(),
        before.anime_mode,
        begins != FrameClass::Held,
        ends != FrameClass::Held,
        held <= 2,
        before.candidate_index + held + 2 < 100_000_000,
    ensures
        ({
            let start = before.after(begins);
            let first = before.candidate_index;
            let classes = repeated(FrameClass::Held, held).push(ends);
            &&& start.anchor_index == first
            &&& planned_spans(start, repeated(FrameClass::Held, held)).len() == 0
            &&& planned_spans(start, classes) == seq![
                SourceSpan {
                    source_index_start: first,
                    source_index_end: (first + held + 1) as u64,
                    interpolate: ends == FrameClass::Motion,
                },
            ]
            &&& planned(start, classes).anchor_index == first + held + 1
            &&& !planned(start, classes).preserving_long_hold
        }),
{
    let start = before.after(begins);
    let run = repeated(FrameClass::Held, held);
    lemma_short_run(start, held);
    lemma_one_more(start, run, ends);
    assert(planned_spans(start, run.push(ends)) =~= seq![
        SourceSpan {
            source_index_start: before.candidate_index,
            source_index_end: (before.candidate_index + held + 1) as u64,
            interpolate: ends == FrameClass::Motion,
        },
    ]);
}

/// Wherever a drawing begins, one that is held for three more frames or longer is
/// written as it is: its first three intervals as one span, each further one as its own,
/// none of them interpolated. Only the interval that leaves it is, where motion does.
pub proof fn long_holds_are_written_as_they_are(
    before: FramePlanner,
    begins: FrameClass,
    held: nat,
    ends: FrameClass,
)
    requires
        before.well_formed(),
        before.anime_mode,
        begins != FrameClass::Held,
        ends != FrameClass::Held,
        held >= 3,
        before.candidate_index + held + 2 < 100_000_000,
    ensures
        ({
            let start = before.after(begins);
            let first = before.candidate_index;
            let spans = planned_spans(start, repeated(FrameClass::Held, held).push(ends));
            &&& spans.len() == held - 1
            &&& spans[0] == SourceSpan {
                source_index_start: first,
                source_index_end: (first + 3) as u64,
                interpolate: false,
            }
            &&& forall|i: int|
                1 <= i < held - 2 ==> #[trigger] spans[i] == (SourceSpan {
                    source_index_start: (first + 2 + i) as u64,
                    source_index_end: (first + 3 + i) as u64,
                    interpolate: false,
                })
            &&& spans.last() == SourceSpan {
                source_index_start: (first + held) as u64,
                source_index_end: (first + held + 1) as u64,
                interpolate: ends == FrameClass::Motion,
            }
        }),
{
    let start = before.after(begins);
    let run = repeated(FrameClass::Held, held);
    lemma_long_hold(start, held);
    lemma_one_more(start, run, ends);
}

proof fn lemma_long_hold(start: FramePlanner, held: nat)
    requires
        start.well_formed(),
        start.anime_mode,
        start.cadence_run_frame_count == 1,
        !start.preserving_long_hold,
        held >= 3,
        start.candidate_index + held < 100_000_000,
    ensures
        ({
            let first = start.anchor_index;
            let spans = planned_spans(start, repeated(FrameClass::Held, held));
            let last = planned(start, repeated(FrameClass::Held, held));
            &&& last.well_formed()
            &&& last.preserving_long_hold
            &&& last.anime_mode
            &&& last.anchor_index == first + held
            &&& last.candidate_index == first + held + 1
            &&& spans.len() == held - 2
            &&& spans[0] == SourceSpan {
                source_index_start: first,
                source_index_end: (first + 3) as u64,
                interpolate: false,
            }
            &&& forall|i: int|
                1 <= i < held - 2 ==> #[trigger] spans[i] == (SourceSpan {
                    source_index_start: (first + 2 + i) as u64,
                    source_index_end: (first + 3 + i) as u64,
                    interpolate: false,
                })
        }),
    decreases held,
{
    lemma_repeated(FrameClass::Held, held);
    if held == 3 {
        lemma_short_run(start, 2);
    } else {
        lemma_long_hold(start, (held - 1) as nat);
    }
}

/// Where no drawing is looked for, every frame completes a span of one interval, and it
/// is interpolated unless the frame begins another shot.
pub proof fn movies_are_taken_pair_by_pair(planner: FramePlanner, class: FrameClass)
    requires
        planner.well_formed(),
        !planner.anime_mode,
        planner.candidate_index < 100_000_000,
        class != FrameClass::Held,
    ensures
        planner.completed_span(class) == Some(
            SourceSpan {
                source_index_start: planner.anchor_index,
                source_index_end: (planner.anchor_index + 1) as u64,
                interpolate: class == FrameClass::Motion,
            },
        ),
        planner.after(class).anchor_index == planner.anchor_index + 1,
        planner.after(class).candidate_index == planner.anchor_index + 2,
{
}

/// What is counted is what is done: every held frame, every cut, every interpolated span
/// that is longer than one interval, and every hold that begins to be preserved, each
/// once and nothing else.
pub proof fn frames_are_counted_by_what_is_done(
    planner: FramePlanner,
    class: FrameClass,
    counts: CadenceDiagnostics,
)
    requires
        planner.well_formed(),
        planner.candidate_index < 100_000_000,
        !planner.anime_mode ==> class != FrameClass::Held,
        counts.duplicate_frame_count < u64::MAX,
        counts.cadence_run_count < u64::MAX,
        counts.long_hold_count < u64::MAX,
        counts.scene_cut_count < u64::MAX,
    ensures
        ({
            let counted = planner.count(class, counts);
            let smooths = match planner.completed_span(class) {
                Some(span) => span.interpolate && span.source_index_end
                    - span.source_index_start > 1,
                None => false,
            };
            let begins_hold = planner.after(class).preserving_long_hold
                && !planner.preserving_long_hold;
            &&& counted.duplicate_frame_count == counts.duplicate_frame_count + if class
                == FrameClass::Held {
                1int
            } else {
                0int
            }
            &&& counted.scene_cut_count == counts.scene_cut_count + if class == FrameClass::Cut {
                1int
            } else {
                0int
            }
            &&& counted.cadence_run_count == counts.cadence_run_count + if smooths {
                1int
            } else {
                0int
            }
            &&& counted.long_hold_count == counts.long_hold_count + if begins_hold {
                1int
            } else {
                0int
            }
            &&& counted.inference_bypass_count == counts.inference_bypass_count
        }),
{
}

/// No counter ever runs over: one that is full stays full, and the others go on.
pub proof fn full_counters_stay_full(planner: FramePlanner, class: FrameClass, counts: CadenceDiagnostics)
    ensures
        counts.duplicate_frame_count == u64::MAX ==> planner.count(class, counts).duplicate_frame_count
            == u64::MAX,
        counts.cadence_run_count == u64::MAX ==> planner.count(class, counts).cadence_run_count
            == u64::MAX,
        counts.long_hold_count == u64::MAX ==> planner.count(class, counts).long_hold_count
            == u64::MAX,
        counts.scene_cut_count == u64::MAX ==> planner.count(class, counts).scene_cut_count
            == u64::MAX,
{
}

/// A frame is held only where drawings are looked for and every limit of a held drawing
/// is kept; it is a cut exactly where scene protection is on and the frames differ by
/// three twentieths at least; it is motion otherwise. A held drawing is never a cut.
pub proof fn frames_are_classed_by_their_difference(
    planner: FramePlanner,
    difference: FrameDifference,
    before: Seq<u8>,
    after: Seq<u8>,
    width: int,
    height: int,
)
    requires
        width > 0,
        height > 0,
        cadence::is_frame_difference(difference, before, after, width, height),
        difference.normalized(),
    ensures
        ({
            let class = planner.class_of_frames(before, after, width, height);
            &&& class == planner.class_of(difference)
            &&& class == FrameClass::Held <==> {
                &&& planner.anime_mode
                &&& 500 * difference.mean.numerator <= 3 * difference.mean.denominator
                &&& 200 * difference.changed_pixel_ratio.numerator
                    <= difference.changed_pixel_ratio.denominator
                &&& 100 * difference.tile_mean_max.numerator
                    <= difference.tile_mean_max.denominator
            }
            &&& class == FrameClass::Cut <==> planner.scene_detection && 20
                * difference.mean.numerator >= 3 * difference.mean.denominator
        }),
{
    cadence::frames_decide_their_difference(difference, before, after, width, height);
}

/// The analysis starts at the first frame, looks for held drawings with the Anime preset
/// alone, and protects shot boundaries with that preset or where it is asked to.
pub proof fn presets_decide_what_is_looked_for(preset: ContentPreset, scene_detection: bool)
    ensures
        FramePlanner::initial(preset, scene_detection).well_formed(),
        FramePlanner::initial(preset, scene_detection).anime_mode <==> preset
            == ContentPreset::Anime,
        FramePlanner::initial(ContentPreset::Anime, scene_detection).scene_detection,
        FramePlanner::initial(ContentPreset::Movie, scene_detection).scene_detection
            == scene_detection,
        FramePlanner::initial(preset, scene_detection).anchor_index == 0,
        FramePlanner::initial(preset, scene_detection).candidate_index == 1,
        !FramePlanner::initial(preset, scene_detection).preserving_long_hold,
{
}

} // verus!
