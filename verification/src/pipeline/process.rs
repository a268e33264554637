//! The frame loop of a job: which frame is read, interpolated or written next.

use crate::cadence::{CadenceDiagnostics, ContentPreset};
use crate::pipeline::frames::{FrameClass, FramePlanner, SourceSpan};
use crate::pipeline::scheduler::{OutputFrame, OutputScheduler, OutputSpan};
use crate::pipeline::{
    JobConfiguration, VideoMetadata, FRAME_SIZE_BYTES_MAX, OUTPUT_FRAME_COUNT_MAX,
};
use crate::{pipeline, text};
use vstd::prelude::*;

verus! {

/// How much of a frame has been read.
#[derive(Clone, Copy, Debug, PartialEq, Eq, Structural)]
pub struct FrameFill {
    pub offset: usize,
    pub size: usize,
}

/// What a read leaves to do.
#[derive(Clone, Copy, Debug, PartialEq, Eq, Structural)]
pub enum FrameRead {
    /// The rest of the frame is still to be read.
    More,
    /// The frame is complete.
    Complete,
    /// The source ended before the frame began.
    Ended,
}

impl FrameFill {
    /// The frame is within the limit, and not complete yet.
    pub open spec fn well_formed(self) -> bool {
        self.offset < self.size <= FRAME_SIZE_BYTES_MAX
    }

    /// The frame once a read has given `count` more bytes.
    pub open spec fn after(self, count: usize) -> FrameFill {
        FrameFill { offset: (self.offset + count) as usize, ..self }
    }

    /// What a read of `count` bytes leaves to do. A read that gives none ends the
    /// source, which is an error in the middle of a frame.
    pub open spec fn read(self, count: usize) -> Result<FrameRead, Seq<char>> {
        if count == 0 && self.offset == 0 {
            Ok(FrameRead::Ended)
        } else if count == 0 {
            Err("decoder ended in the middle of a video frame"@)
        } else if self.offset + count == self.size {
            Ok(FrameRead::Complete)
        } else {
            Ok(FrameRead::More)
        }
    }

    /// An empty frame of the given size.
    pub fn new(size: usize) -> (fill: FrameFill)
        requires
            0 < size <= FRAME_SIZE_BYTES_MAX,
        ensures
            fill == (FrameFill { offset: 0, size }),
            fill.well_formed(),
    {
        FrameFill { offset: 0, size }
    }

    /// Takes in that a read gave `count` bytes.
    pub fn received(&mut self, count: usize) -> (result: Result<FrameRead, String>)
        requires
            old(self).well_formed(),
            count <= old(self).size - old(self).offset,
        ensures
            *final(self) == old(self).after(count),
            text::result_text(result) == old(self).read(count),
            result == Ok::<FrameRead, String>(FrameRead::More) ==> final(self).well_formed(),
    {
        if count == 0 {
            if self.offset == 0 {
                return Ok(FrameRead::Ended);
            }
            return Err("decoder ended in the middle of a video frame".to_owned());
        }
        self.offset = self.offset + count;
        if self.offset == self.size {
            Ok(FrameRead::Complete)
        } else {
            Ok(FrameRead::More)
        }
    }
}

/// The bytes that reads gave together.
pub open spec fn bytes_read(counts: Seq<usize>) -> int
    decreases counts.len(),
{
    if counts.len() == 0 {
        0
    } else {
        bytes_read(counts.drop_last()) + counts.last()
    }
}

/// A frame after reads that gave the given numbers of bytes, in order.
pub open spec fn filled(fill: FrameFill, counts: Seq<usize>) -> FrameFill
    decreases counts.len(),
{
    if counts.len() == 0 {
        fill
    } else {
        filled(fill, counts.drop_last()).after(counts.last())
    }
}

proof fn lemma_filled(fill: FrameFill, counts: Seq<usize>)
    requires
        fill.offset + bytes_read(counts) <= fill.size,
    ensures
        bytes_read(counts) >= 0,
        filled(fill, counts) == (FrameFill {
            offset: (fill.offset + bytes_read(counts)) as usize,
            ..fill
        }),
    decreases counts.len(),
{
    if counts.len() > 0 {
        lemma_filled(fill, counts.drop_last());
    }
}

/// Each further read that is not empty adds to what was read.
proof fn lemma_bytes_read_grow(counts: Seq<usize>, position: int)
    requires
        0 <= position <= counts.len(),
        forall|i: int| 0 <= i < counts.len() ==> counts[i] > 0,
    ensures
        bytes_read(counts.take(position)) <= bytes_read(counts),
        position < counts.len() ==> bytes_read(counts.take(position)) < bytes_read(counts),
    decreases counts.len(),
{
    if position == counts.len() {
        assert(counts.take(position) =~= counts);
    } else {
        let shorter = counts.drop_last();
        assert(shorter.take(position) =~= counts.take(position));
        assert forall|i: int| 0 <= i < shorter.len() implies shorter[i] > 0 by {
            assert(shorter[i] == counts[i]);
        }
        lemma_bytes_read_grow(shorter, position);
        assert(counts[counts.len() - 1] > 0);
    }
}

/// Whether the read at a position fits into the frame that the reads before it have
/// begun, and leaves more to read or completes the frame.
pub open spec fn read_takes_its_place(size: usize, counts: Seq<usize>, position: int) -> bool {
    let before = filled(FrameFill { offset: 0, size }, counts.take(position));
    &&& before.well_formed()
    &&& before.offset == bytes_read(counts.take(position))
    &&& counts[position] <= before.size - before.offset
    &&& before.read(counts[position]) == Ok::<FrameRead, Seq<char>>(
        if position + 1 < counts.len() {
            FrameRead::More
        } else {
            FrameRead::Complete
        },
    )
}

proof fn lemma_read_takes_its_place(size: usize, counts: Seq<usize>, position: int)
    requires
        0 < size <= FRAME_SIZE_BYTES_MAX,
        forall|i: int| 0 <= i < counts.len() ==> counts[i] > 0,
        bytes_read(counts) == size,
        0 <= position < counts.len(),
    ensures
        read_takes_its_place(size, counts, position),
{
    let earlier = counts.take(position);
    let longer = counts.take(position + 1);
    lemma_bytes_read_grow(counts, position);
    lemma_bytes_read_grow(counts, position + 1);
    lemma_filled(FrameFill { offset: 0, size }, earlier);
    assert(longer.drop_last() =~= earlier);
    assert(longer.last() == counts[position]);
    if position + 1 == counts.len() {
        assert(longer =~= counts);
    }
}

/// However a frame is cut into reads, it is complete with the last of them and not
/// before: where reads that are not empty give its size together, each fits, each but
/// the last leaves more to read, and the last completes the frame.
pub proof fn frames_fill_however_reads_are_cut(size: usize, counts: Seq<usize>)
    requires
        0 < size <= FRAME_SIZE_BYTES_MAX,
        forall|i: int| 0 <= i < counts.len() ==> counts[i] > 0,
        bytes_read(counts) == size,
    ensures
        counts.len() > 0,
        forall|i: int|
            0 <= i < counts.len() ==> #[trigger] read_takes_its_place(size, counts, i),
{
    assert forall|i: int| 0 <= i < counts.len() implies #[trigger] read_takes_its_place(
        size,
        counts,
        i,
    ) by {
        lemma_read_takes_its_place(size, counts, i);
    }
}

/// The source may end only between frames: after reads that are not empty and give less
/// than a frame, an empty one ends the source where there were none, and is an error
/// where there were some.
pub proof fn sources_end_between_frames(size: usize, counts: Seq<usize>)
    requires
        0 < size <= FRAME_SIZE_BYTES_MAX,
        forall|i: int| 0 <= i < counts.len() ==> counts[i] > 0,
        bytes_read(counts) < size,
    ensures
        filled(FrameFill { offset: 0, size }, counts).well_formed(),
        filled(FrameFill { offset: 0, size }, counts).read(0) == if counts.len() == 0 {
            Ok(FrameRead::Ended)
        } else {
            Err("decoder ended in the middle of a video frame"@)
        },
{
    lemma_filled(FrameFill { offset: 0, size }, counts);
    lemma_bytes_read_grow(counts, 0);
    assert(counts.take(0) =~= Seq::<usize>::empty());
}

/// Where the frame loop stands.
#[derive(Clone, Copy, Debug, PartialEq, Eq, Structural)]
pub enum ProcessStage {
    /// The next source frame is to be read.
    Reading,
    /// A span is being written; `last` where the source has ended.
    Writing { span: OutputSpan, last: bool },
    /// Everything is written.
    Finished,
}

/// What the frame loop does next.
#[derive(Clone, Copy, Debug, PartialEq, Eq, Structural)]
pub enum ProcessStep {
    /// Read the candidate frame.
    Read,
    /// Make and write an output frame.
    Write(OutputFrame),
    /// The span is complete: the candidate becomes the anchor.
    Advance,
    /// The last span is complete.
    Finish,
}

/// The frame loop of one job.
#[derive(Clone, Copy, Debug, PartialEq, Eq, Structural)]
pub struct FrameProcess {
    pub planner: FramePlanner,
    pub scheduler: OutputScheduler,
    pub stage: ProcessStage,
    pub width: u32,
    pub height: u32,
}

impl FrameProcess {
    /// The parts are well formed, a span that is written has a length, no more frames
    /// were timed than read, and the output stands where the source does.
    pub open spec fn well_formed(self) -> bool {
        &&& self.planner.well_formed()
        &&& self.planner.candidate_index <= OUTPUT_FRAME_COUNT_MAX
        &&& self.scheduler.well_formed()
        &&& self.scheduler.decode_count < self.planner.candidate_index
        &&& self.stage matches ProcessStage::Writing { span, last } ==> span.position_scaled_start
            < span.position_scaled_end
        &&& self.scheduler.factor_den > 0 ==> self.in_place()
        &&& self.width > 0
        &&& self.height > 0
        &&& self.width * self.height * 3 <= FRAME_SIZE_BYTES_MAX
    }

    /// Whether the output stands where the source does: before the frames of the anchor
    /// while the next frame is read, inside the span that is written, which ends at
    /// the new anchor or at the end of the source, and at the end of the source once
    /// everything is written.
    pub open spec fn in_place(self) -> bool {
        let num = self.scheduler.factor_num as int;
        let den = self.scheduler.factor_den as int;
        let output_index = self.scheduler.output_index;
        match self.stage {
            ProcessStage::Reading => output_index == pipeline::scheduler::outputs_before(
                num,
                den,
                self.planner.anchor_index as int,
            ),
            ProcessStage::Writing { span, last } => {
                let end = if last {
                    self.planner.candidate_index
                } else {
                    self.planner.anchor_index
                };
                &&& span.position_scaled_end == end * num
                &&& pipeline::scheduler::frames_before(span.position_scaled_start as int, den)
                    <= output_index
                &&& output_index <= pipeline::scheduler::outputs_before(num, den, end as int)
            },
            ProcessStage::Finished => output_index == pipeline::scheduler::outputs_before(
                num,
                den,
                self.planner.candidate_index as int,
            ),
        }
    }

    /// The loop once the first frame, the anchor, has been read.
    pub open spec fn initial(
        configuration: JobConfiguration,
        metadata: VideoMetadata,
        frame_count_estimate: u64,
        frame_size: usize,
    ) -> FrameProcess {
        FrameProcess {
            planner: FramePlanner::initial(
                configuration.content_preset,
                configuration.scene_detection,
            ),
            scheduler: OutputScheduler::initial(
                configuration.target_fps_num,
                configuration.target_fps_den,
                metadata.source_fps_num,
                metadata.source_fps_den,
                frame_count_estimate,
                frame_size,
            ),
            stage: ProcessStage::Reading,
            width: metadata.width,
            height: metadata.height,
        }
    }

    /// Starts the loop once the first frame, the anchor, has been read.
    pub fn new(
        configuration: &JobConfiguration,
        metadata: &VideoMetadata,
        frame_count_estimate: u64,
        frame_size: usize,
    ) -> (process: FrameProcess)
        requires
            configuration.target_fps_num > 0,
            metadata.source_fps_num > 0,
            configuration.target_fps_num * metadata.source_fps_den > configuration.target_fps_den
                * metadata.source_fps_num,
            metadata.width > 0,
            metadata.height > 0,
            frame_size == metadata.width * metadata.height * 3,
            frame_size <= FRAME_SIZE_BYTES_MAX,
        ensures
            process.well_formed(),
            process == FrameProcess::initial(
                *configuration,
                *metadata,
                frame_count_estimate,
                frame_size,
            ),
            process.scheduler.factor_num == configuration.target_fps_num
                * metadata.source_fps_den,
            process.scheduler.factor_den == configuration.target_fps_den
                * metadata.source_fps_num,
    {
        let process = FrameProcess {
            planner: FramePlanner::new(
                configuration.content_preset,
                configuration.scene_detection,
            ),
            scheduler: OutputScheduler::new(
                configuration.target_fps_num,
                configuration.target_fps_den,
                metadata.source_fps_num,
                metadata.source_fps_den,
                frame_count_estimate,
                frame_size,
            ),
            stage: ProcessStage::Reading,
            width: metadata.width,
            height: metadata.height,
        };
        proof {
            if process.scheduler.factor_den > 0 {
                pipeline::scheduler::every_source_interval_has_output(
                    process.scheduler.factor_num as int,
                    process.scheduler.factor_den as int,
                    0,
                );
            }
        }
        process
    }

    /// What comes next, or why the job ends here: the next read where the job is not
    /// cancelled and the source not too long; the next frame of the span that is
    /// written; and once the span has no frame left, the next read or the end.
    pub open spec fn next(self, cancelled: bool) -> Result<ProcessStep, Seq<char>> {
        match self.stage {
            ProcessStage::Reading => if cancelled {
                Err("job cancelled"@)
            } else if self.planner.candidate_index >= OUTPUT_FRAME_COUNT_MAX {
                Err("source exceeds the 100000000-frame safety limit"@)
            } else {
                Ok(ProcessStep::Read)
            },
            ProcessStage::Writing { span, last } => match self.scheduler.next_in(span, cancelled) {
                Err(message) => Err(message),
                Ok(Some(frame)) => Ok(ProcessStep::Write(frame)),
                Ok(None) => if last {
                    Ok(ProcessStep::Finish)
                } else {
                    Ok(ProcessStep::Advance)
                },
            },
            ProcessStage::Finished => Ok(ProcessStep::Finish),
        }
    }

    /// The loop after a step was decided: only the end of a span moves it on.
    pub open spec fn after_step(self, step: ProcessStep) -> FrameProcess {
        FrameProcess {
            stage: match step {
                ProcessStep::Advance => ProcessStage::Reading,
                ProcessStep::Finish => ProcessStage::Finished,
                _ => self.stage,
            },
            ..self
        }
    }

    /// Decides what comes next.
    pub fn next_step(&mut self, cancelled: bool) -> (result: Result<ProcessStep, String>)
        requires
            old(self).well_formed(),
        ensures
            final(self).well_formed(),
            text::result_text(result) == old(self).next(cancelled),
            *final(self) == match result {
                Ok(step) => old(self).after_step(step),
                Err(_) => *old(self),
            },
    {
        proof {
            lemma_step_stays_in_place(*self, cancelled);
        }
        match self.stage {
            ProcessStage::Reading => match self.planner.before_read(cancelled) {
                Ok(_) => Ok(ProcessStep::Read),
                Err(message) => Err(message),
            },
            ProcessStage::Writing { span, last } => match self.scheduler.next_frame(
                &span,
                cancelled,
            ) {
                Err(message) => Err(message),
                Ok(Some(frame)) => Ok(ProcessStep::Write(frame)),
                Ok(None) => if last {
                    self.stage = ProcessStage::Finished;
                    Ok(ProcessStep::Finish)
                } else {
                    self.stage = ProcessStage::Reading;
                    Ok(ProcessStep::Advance)
                },
            },
            ProcessStage::Finished => Ok(ProcessStep::Finish),
        }
    }

    /// Starts to write a span. Its positions never exceed the arithmetic, because the
    /// source is within the frame limit.
    fn begin(&mut self, span: SourceSpan, last: bool) -> (result: Result<(), String>)
        requires
            old(self).scheduler.well_formed(),
            span.source_index_start < span.source_index_end <= OUTPUT_FRAME_COUNT_MAX,
        ensures
            result == Ok::<(), String>(()),
            *final(self) == (FrameProcess {
                stage: ProcessStage::Writing {
                    span: scaled_span(old(self).scheduler.factor_num as int, span),
                    last,
                },
                ..*old(self)
            }),
    {
        proof {
            lemma_span_scales(self.scheduler, span);
        }
        match self.scheduler.begin_span(
            span.source_index_start,
            span.source_index_end,
            span.interpolate,
        ) {
            Ok(scaled) => {
                self.stage = ProcessStage::Writing { span: scaled, last };
                Ok(())
            },
            Err(message) => Err(message),
        }
    }

    /// The loop after the candidate frame was read in the given time: it is counted by
    /// what it shows next to the anchor, the planner moves on, and the span that it
    /// completes, if it completes one, is written next.
    pub open spec fn after_source(
        self,
        frame_anchor: Seq<u8>,
        frame_candidate: Seq<u8>,
        decode_nanos: u64,
    ) -> FrameProcess {
        let class = self.planner.class_of_frames(
            frame_anchor,
            frame_candidate,
            self.width as int,
            self.height as int,
        );
        FrameProcess {
            planner: self.planner.after(class),
            scheduler: OutputScheduler {
                cadence_diagnostics: self.planner.count(class, self.scheduler.cadence_diagnostics),
                decode_count: (self.scheduler.decode_count + 1) as u64,
                decode_elapsed_nanos: (self.scheduler.decode_elapsed_nanos + decode_nanos) as u128,
                ..self.scheduler
            },
            stage: match self.planner.completed_span(class) {
                Some(span) => ProcessStage::Writing {
                    span: scaled_span(self.scheduler.factor_num as int, span),
                    last: false,
                },
                None => self.stage,
            },
            ..self
        }
    }

    /// Takes in the candidate frame, read in the given time.
    pub fn source_frame(
        &mut self,
        frame_anchor: &[u8],
        frame_candidate: &[u8],
        decode_nanos: u64,
    ) -> (result: Result<(), String>)
        requires
            old(self).well_formed(),
            old(self).stage == ProcessStage::Reading,
            old(self).planner.candidate_index < OUTPUT_FRAME_COUNT_MAX,
            frame_anchor@.len() == old(self).width * old(self).height * 3,
            frame_candidate@.len() == old(self).width * old(self).height * 3,
        ensures
            final(self).well_formed(),
            result == Ok::<(), String>(()),
            *final(self) == old(self).after_source(frame_anchor@, frame_candidate@, decode_nanos),
    {
        proof {
            lemma_source_stays_in_place(*self, frame_anchor@, frame_candidate@, decode_nanos);
            assert(self.width * self.height * 65280 <= u64::MAX) by {
                assert(self.width * self.height * 3 <= 134_217_728);
            }
        }
        self.scheduler.record_decode(decode_nanos);
        let mut counts: CadenceDiagnostics = self.scheduler.cadence_diagnostics;
        let span = self.planner.observe_frames(
            &mut counts,
            frame_anchor,
            frame_candidate,
            self.width,
            self.height,
        );
        self.scheduler.cadence_diagnostics = counts;
        match span {
            Some(span) => self.begin(span, false),
            None => Ok(()),
        }
    }

    /// The loop after the source has ended: the anchor is held to its end.
    pub open spec fn after_end(self) -> FrameProcess {
        FrameProcess {
            stage: ProcessStage::Writing {
                span: scaled_span(
                    self.scheduler.factor_num as int,
                    SourceSpan {
                        source_index_start: self.planner.anchor_index,
                        source_index_end: self.planner.candidate_index,
                        interpolate: false,
                    },
                ),
                last: true,
            },
            ..self
        }
    }

    /// Takes in that the source has ended.
    pub fn source_ended(&mut self) -> (result: Result<(), String>)
        requires
            old(self).well_formed(),
            old(self).stage == ProcessStage::Reading,
        ensures
            final(self).well_formed(),
            result == Ok::<(), String>(()),
            *final(self) == old(self).after_end(),
    {
        proof {
            lemma_end_stays_in_place(*self);
        }
        let span = self.planner.last_span();
        self.begin(span, true)
    }

    /// The loop after an output frame was made and written, each in its time.
    pub open spec fn after_written(
        self,
        frame: OutputFrame,
        inference_nanos: u64,
        write_nanos: u64,
    ) -> FrameProcess {
        FrameProcess {
            scheduler: self.scheduler.after_frame(frame, inference_nanos, write_nanos),
            ..self
        }
    }

    /// Takes in that the output frame that came next was made and written.
    pub fn frame_written(&mut self, frame: OutputFrame, inference_nanos: u64, write_nanos: u64)
        requires
            old(self).well_formed(),
            old(self).next(false) == Ok::<ProcessStep, Seq<char>>(ProcessStep::Write(frame)),
        ensures
            final(self).well_formed(),
            *final(self) == old(self).after_written(frame, inference_nanos, write_nanos),
    {
        proof {
            lemma_written_stays_in_place(*self, frame, inference_nanos, write_nanos);
        }
        self.scheduler.frame_written(frame, inference_nanos, write_nanos);
    }

    /// Whether two loops differ at most in what was timed and when progress was last
    /// reported.
    pub open spec fn agrees(self, other: FrameProcess) -> bool {
        self == (FrameProcess {
            scheduler: OutputScheduler {
                progress_at_nanos: self.scheduler.progress_at_nanos,
                inference_elapsed_nanos: self.scheduler.inference_elapsed_nanos,
                decode_elapsed_nanos: self.scheduler.decode_elapsed_nanos,
                encode_elapsed_nanos: self.scheduler.encode_elapsed_nanos,
                ..other.scheduler
            },
            ..other
        })
    }
}

/// The scaled positions of a span.
pub open spec fn scaled_span(factor_num: int, span: SourceSpan) -> OutputSpan {
    OutputSpan {
        position_scaled_start: (span.source_index_start * factor_num) as u128,
        position_scaled_end: (span.source_index_end * factor_num) as u128,
        interpolate: span.interpolate,
    }
}

/// The positions of a span within the frame limit are exact, and keep their order.
proof fn lemma_span_scales(scheduler: OutputScheduler, span: SourceSpan)
    requires
        scheduler.well_formed(),
        span.source_index_start < span.source_index_end <= OUTPUT_FRAME_COUNT_MAX,
    ensures
        span.source_index_end * scheduler.factor_num <= u128::MAX,
        scaled_span(scheduler.factor_num as int, span).covers(
            scheduler.factor_num as int,
            span.source_index_start as int,
            span.source_index_end as int,
            span.interpolate,
        ),
        0 <= span.source_index_start * scheduler.factor_num < span.source_index_end
            * scheduler.factor_num,
{
    pipeline::scheduler::lemma_position_fits(span.source_index_start, scheduler.factor_num);
    pipeline::scheduler::lemma_position_fits(span.source_index_end, scheduler.factor_num);
    assert(span.source_index_start * scheduler.factor_num < span.source_index_end
        * scheduler.factor_num) by (nonlinear_arith)
        requires
            span.source_index_start < span.source_index_end,
            scheduler.factor_num > 0,
    ;
}

proof fn lemma_outputs_before_grows(factor_num: int, factor_den: int, start: int, end: int)
    requires
        factor_num > 0,
        factor_den > 0,
        0 <= start <= end,
    ensures
        pipeline::scheduler::outputs_before(factor_num, factor_den, start)
            <= pipeline::scheduler::outputs_before(factor_num, factor_den, end),
{
    let count = pipeline::scheduler::outputs_before(factor_num, factor_den, start);
    pipeline::scheduler::outputs_before_counts_positions(factor_num, factor_den, start, count - 1);
    pipeline::scheduler::outputs_before_counts_positions(factor_num, factor_den, end, count - 1);
    assert(start * factor_num <= end * factor_num) by (nonlinear_arith)
        requires
            start <= end,
            factor_num > 0,
    ;
}

proof fn lemma_source_stays_in_place(
    process: FrameProcess,
    frame_anchor: Seq<u8>,
    frame_candidate: Seq<u8>,
    decode_nanos: u64,
)
    requires
        process.well_formed(),
        process.stage == ProcessStage::Reading,
        process.planner.candidate_index < OUTPUT_FRAME_COUNT_MAX,
    ensures
        process.after_source(frame_anchor, frame_candidate, decode_nanos).well_formed(),
{
    let class = process.planner.class_of_frames(
        frame_anchor,
        frame_candidate,
        process.width as int,
        process.height as int,
    );
    pipeline::frames::planner_stays_well_formed(process.planner, class);
    if let Some(span) = process.planner.completed_span(class) {
        lemma_span_scales(process.scheduler, span);
        if process.scheduler.factor_den > 0 {
            lemma_outputs_before_grows(
                process.scheduler.factor_num as int,
                process.scheduler.factor_den as int,
                span.source_index_start as int,
                span.source_index_end as int,
            );
        }
    }
}

proof fn lemma_end_stays_in_place(process: FrameProcess)
    requires
        process.well_formed(),
        process.stage == ProcessStage::Reading,
    ensures
        process.after_end().well_formed(),
{
    lemma_span_scales(
        process.scheduler,
        SourceSpan {
            source_index_start: process.planner.anchor_index,
            source_index_end: process.planner.candidate_index,
            interpolate: false,
        },
    );
    if process.scheduler.factor_den > 0 {
        lemma_outputs_before_grows(
            process.scheduler.factor_num as int,
            process.scheduler.factor_den as int,
            process.planner.anchor_index as int,
            process.planner.candidate_index as int,
        );
    }
}

proof fn lemma_written_stays_in_place(
    process: FrameProcess,
    frame: OutputFrame,
    inference_nanos: u64,
    write_nanos: u64,
)
    requires
        process.well_formed(),
        process.next(false) == Ok::<ProcessStep, Seq<char>>(ProcessStep::Write(frame)),
    ensures
        process.scheduler.output_index < OUTPUT_FRAME_COUNT_MAX,
        process.after_written(frame, inference_nanos, write_nanos).well_formed(),
{
    if let ProcessStage::Writing { span, last } = process.stage {
        if process.scheduler.factor_den > 0 {
            pipeline::scheduler::frames_before_counts_positions(
                span.position_scaled_end as int,
                process.scheduler.factor_den as int,
                process.scheduler.output_index as int,
            );
        }
    }
}

proof fn lemma_step_stays_in_place(process: FrameProcess, cancelled: bool)
    requires
        process.well_formed(),
    ensures
        process.next(cancelled) matches Ok(step) ==> process.after_step(step).well_formed(),
{
    if let ProcessStage::Writing { span, last } = process.stage {
        if process.scheduler.factor_den > 0 {
            pipeline::scheduler::frames_before_counts_positions(
                span.position_scaled_end as int,
                process.scheduler.factor_den as int,
                process.scheduler.output_index as int,
            );
        }
    }
}

/// The loop ends early only where the job is cancelled or a frame limit is reached:
/// no span ever starts after the output has passed it.
pub proof fn only_limits_end_the_loop(process: FrameProcess, cancelled: bool)
    requires
        process.well_formed(),
        process.scheduler.factor_den > 0,
    ensures
        process.next(cancelled) is Err <==> process.stage != ProcessStage::Finished && (cancelled
            || if process.stage == ProcessStage::Reading {
            process.planner.candidate_index >= OUTPUT_FRAME_COUNT_MAX
        } else {
            process.scheduler.output_index >= OUTPUT_FRAME_COUNT_MAX
        }),
{
    if let ProcessStage::Writing { span, last } = process.stage {
        pipeline::scheduler::frames_before_counts_positions(
            span.position_scaled_start as int,
            process.scheduler.factor_den as int,
            process.scheduler.output_index as int,
        );
    }
}

/// Once everything is written, the output holds exactly the frames that start before
/// the end of the source, whatever was held, cut or interpolated: duration and timing
/// are kept.
pub proof fn finished_loops_wrote_the_whole_output(process: FrameProcess)
    requires
        process.well_formed(),
        process.scheduler.factor_den > 0,
        process.stage == ProcessStage::Finished,
    ensures
        process.scheduler.output_index == pipeline::scheduler::outputs_before(
            process.scheduler.factor_num as int,
            process.scheduler.factor_den as int,
            process.planner.candidate_index as int,
        ),
{
}

/// An output frame that a run wrote, and the two frames that it was made of.
pub struct WrittenFrame {
    pub frame: OutputFrame,
    pub frame_anchor: Seq<u8>,
    pub frame_candidate: Seq<u8>,
}

/// How long the parts of a step take: the read, the inference and the write.
pub struct StepTimes {
    pub decode_nanos: u64,
    pub inference_nanos: u64,
    pub write_nanos: u64,
}

/// What a loop that is not cancelled writes, and where it stands after `fuel` steps at
/// most, on the frames that the source still holds.
pub open spec fn run(
    process: FrameProcess,
    frame_anchor: Seq<u8>,
    frame_candidate: Seq<u8>,
    source: Seq<Seq<u8>>,
    times: spec_fn(nat) -> StepTimes,
    fuel: nat,
) -> (Seq<WrittenFrame>, FrameProcess)
    decreases fuel,
{
    if fuel == 0 {
        (Seq::empty(), process)
    } else {
        let left = (fuel - 1) as nat;
        match process.next(false) {
            Ok(ProcessStep::Read) => if source.len() == 0 {
                run(process.after_end(), frame_anchor, frame_candidate, source, times, left)
            } else {
                run(
                    process.after_source(frame_anchor, source[0], times(fuel).decode_nanos),
                    frame_anchor,
                    source[0],
                    source.drop_first(),
                    times,
                    left,
                )
            },
            Ok(ProcessStep::Write(frame)) => {
                let rest = run(
                    process.after_written(
                        frame,
                        times(fuel).inference_nanos,
                        times(fuel).write_nanos,
                    ),
                    frame_anchor,
                    frame_candidate,
                    source,
                    times,
                    left,
                );
                (seq![WrittenFrame { frame, frame_anchor, frame_candidate }] + rest.0, rest.1)
            },
            Ok(ProcessStep::Advance) => run(
                process.after_step(ProcessStep::Advance),
                frame_candidate,
                frame_anchor,
                source,
                times,
                left,
            ),
            Ok(ProcessStep::Finish) => (Seq::empty(), process.after_step(ProcessStep::Finish)),
            Err(_) => (Seq::empty(), process),
        }
    }
}

/// How many output frames a source takes of which the given number is still to be
/// read.
pub open spec fn whole_output(process: FrameProcess, source_count: nat) -> int {
    pipeline::scheduler::outputs_before(
        process.scheduler.factor_num as int,
        process.scheduler.factor_den as int,
        process.planner.candidate_index + source_count,
    )
}

/// How many steps a loop still takes to its end.
pub open spec fn steps_left(process: FrameProcess, source_count: nat) -> int {
    whole_output(process, source_count) - process.scheduler.output_index + 2 * source_count
        + match process.stage {
        ProcessStage::Finished => 1int,
        ProcessStage::Writing { span: _, last } => if last {
            2
        } else {
            4
        },
        ProcessStage::Reading => 3,
    }
}

/// Whatever the frames of a source are, whichever preset looks at them and however
/// long each step takes, the loop comes to its end and has then written exactly the
/// output frames that start before the end of the source, unless it exceeds a frame
/// limit.
pub proof fn every_source_gets_its_whole_output(
    process: FrameProcess,
    frame_anchor: Seq<u8>,
    frame_candidate: Seq<u8>,
    source: Seq<Seq<u8>>,
    times: spec_fn(nat) -> StepTimes,
    fuel: nat,
)
    requires
        process.well_formed(),
        process.scheduler.factor_den > 0,
        process.stage == ProcessStage::Finished ==> source.len() == 0,
        process.stage matches ProcessStage::Writing { span, last } && last ==> source.len() == 0,
        process.planner.candidate_index + source.len() < OUTPUT_FRAME_COUNT_MAX,
        whole_output(process, source.len()) < OUTPUT_FRAME_COUNT_MAX,
        fuel >= steps_left(process, source.len()),
    ensures
        ({
            let (written, last) = run(
                process,
                frame_anchor,
                frame_candidate,
                source,
                times,
                fuel,
            );
            &&& last.well_formed()
            &&& last.stage == ProcessStage::Finished
            &&& last.planner.candidate_index == process.planner.candidate_index + source.len()
            &&& last.scheduler.output_index == whole_output(process, source.len())
            &&& written.len() == whole_output(process, source.len())
                - process.scheduler.output_index
        }),
    decreases fuel,
{
    let num = process.scheduler.factor_num as int;
    let den = process.scheduler.factor_den as int;
    let end = process.planner.candidate_index + source.len();
    lemma_outputs_before_grows(num, den, process.planner.anchor_index as int, end);
    lemma_outputs_before_grows(num, den, process.planner.candidate_index as int, end);
    only_limits_end_the_loop(process, false);
    lemma_step_stays_in_place(process, false);
    let left = (fuel - 1) as nat;
    match process.next(false) {
        Ok(ProcessStep::Read) => if source.len() == 0 {
            lemma_end_stays_in_place(process);
            every_source_gets_its_whole_output(
                process.after_end(),
                frame_anchor,
                frame_candidate,
                source,
                times,
                left,
            );
        } else {
            let decode_nanos = times(fuel).decode_nanos;
            lemma_source_stays_in_place(process, frame_anchor, source[0], decode_nanos);
            every_source_gets_its_whole_output(
                process.after_source(frame_anchor, source[0], decode_nanos),
                frame_anchor,
                source[0],
                source.drop_first(),
                times,
                left,
            );
        },
        Ok(ProcessStep::Write(frame)) => {
            let inference_nanos = times(fuel).inference_nanos;
            let write_nanos = times(fuel).write_nanos;
            lemma_written_stays_in_place(process, frame, inference_nanos, write_nanos);
            every_source_gets_its_whole_output(
                process.after_written(frame, inference_nanos, write_nanos),
                frame_anchor,
                frame_candidate,
                source,
                times,
                left,
            );
        },
        Ok(ProcessStep::Advance) => {
            every_source_gets_its_whole_output(
                process.after_step(ProcessStep::Advance),
                frame_candidate,
                frame_anchor,
                source,
                times,
                left,
            );
        },
        _ => {},
    }
}

/// What a loop writes does not depend on how long its steps take.
pub proof fn times_do_not_change_the_output(
    one: FrameProcess,
    other: FrameProcess,
    frame_anchor: Seq<u8>,
    frame_candidate: Seq<u8>,
    source: Seq<Seq<u8>>,
    times_one: spec_fn(nat) -> StepTimes,
    times_other: spec_fn(nat) -> StepTimes,
    fuel: nat,
)
    requires
        one.agrees(other),
    ensures
        ({
            let (written_one, last_one) = run(
                one,
                frame_anchor,
                frame_candidate,
                source,
                times_one,
                fuel,
            );
            let (written_other, last_other) = run(
                other,
                frame_anchor,
                frame_candidate,
                source,
                times_other,
                fuel,
            );
            &&& written_one == written_other
            &&& last_one.agrees(last_other)
        }),
    decreases fuel,
{
    if fuel > 0 {
        let left = (fuel - 1) as nat;
        match one.next(false) {
            Ok(ProcessStep::Read) => if source.len() == 0 {
                times_do_not_change_the_output(
                    one.after_end(),
                    other.after_end(),
                    frame_anchor,
                    frame_candidate,
                    source,
                    times_one,
                    times_other,
                    left,
                );
            } else {
                times_do_not_change_the_output(
                    one.after_source(frame_anchor, source[0], times_one(fuel).decode_nanos),
                    other.after_source(frame_anchor, source[0], times_other(fuel).decode_nanos),
                    frame_anchor,
                    source[0],
                    source.drop_first(),
                    times_one,
                    times_other,
                    left,
                );
            },
            Ok(ProcessStep::Write(frame)) => {
                times_do_not_change_the_output(
                    one.after_written(
                        frame,
                        times_one(fuel).inference_nanos,
                        times_one(fuel).write_nanos,
                    ),
                    other.after_written(
                        frame,
                        times_other(fuel).inference_nanos,
                        times_other(fuel).write_nanos,
                    ),
                    frame_anchor,
                    frame_candidate,
                    source,
                    times_one,
                    times_other,
                    left,
                );
            },
            Ok(ProcessStep::Advance) => {
                times_do_not_change_the_output(
                    one.after_step(ProcessStep::Advance),
                    other.after_step(ProcessStep::Advance),
                    frame_candidate,
                    frame_anchor,
                    source,
                    times_one,
                    times_other,
                    left,
                );
            },
            _ => {},
        }
    }
}

/// Under the Anime preset the scene switch changes nothing: two jobs that differ in
/// it alone write the same frames of the same source, and count the same, however
/// long their steps take.
pub proof fn anime_ignores_the_scene_switch(
    one: JobConfiguration,
    other: JobConfiguration,
    metadata: VideoMetadata,
    frame_count_estimate: u64,
    frame_size: usize,
    frame_anchor: Seq<u8>,
    frame_candidate: Seq<u8>,
    source: Seq<Seq<u8>>,
    times_one: spec_fn(nat) -> StepTimes,
    times_other: spec_fn(nat) -> StepTimes,
    fuel: nat,
)
    requires
        one.content_preset == ContentPreset::Anime,
        other == (JobConfiguration { scene_detection: other.scene_detection, ..one }),
    ensures
        ({
            let (written_one, last_one) = run(
                FrameProcess::initial(one, metadata, frame_count_estimate, frame_size),
                frame_anchor,
                frame_candidate,
                source,
                times_one,
                fuel,
            );
            let (written_other, last_other) = run(
                FrameProcess::initial(other, metadata, frame_count_estimate, frame_size),
                frame_anchor,
                frame_candidate,
                source,
                times_other,
                fuel,
            );
            &&& written_one == written_other
            &&& last_one.agrees(last_other)
            &&& last_one.scheduler.cadence_diagnostics == last_other.scheduler.cadence_diagnostics
        }),
{
    times_do_not_change_the_output(
        FrameProcess::initial(one, metadata, frame_count_estimate, frame_size),
        FrameProcess::initial(other, metadata, frame_count_estimate, frame_size),
        frame_anchor,
        frame_candidate,
        source,
        times_one,
        times_other,
        fuel,
    );
}

/// Whether an output frame is made of the source frames around its place on the timeline:
/// it shows the source frame at `start`, at its own place or held after it, or lies
/// between that one and the one at `end`, at the part of the way that its place is.
pub open spec fn is_made_of(
    written: WrittenFrame,
    frames: Seq<Seq<u8>>,
    factor_num: int,
    factor_den: int,
    output_index: int,
    start: int,
    end: int,
) -> bool {
    let place = output_index * factor_den;
    &&& 0 <= start < end <= frames.len()
    &&& start * factor_num <= place < end * factor_num
    &&& written.frame_anchor == frames[start]
    &&& match written.frame {
        OutputFrame::Source { after_start } => after_start <==> start * factor_num < place,
        OutputFrame::Interpolated { relative_scaled, duration_scaled } => {
            &&& end < frames.len()
            &&& written.frame_candidate == frames[end]
            &&& 0 < relative_scaled
            &&& start * factor_num + relative_scaled == place
            &&& start * factor_num + duration_scaled == end * factor_num
        },
    }
}

/// Whether an output frame is made of source frames around its place that are at most
/// `reach` intervals apart.
pub open spec fn is_made_at_its_place(
    written: WrittenFrame,
    frames: Seq<Seq<u8>>,
    factor_num: int,
    factor_den: int,
    output_index: int,
    reach: int,
) -> bool {
    exists|start: int, end: int| #[trigger]
        is_made_of(written, frames, factor_num, factor_den, output_index, start, end) && end
            - start <= reach
}

/// Whether a loop holds the frames that it should: those that are left to read, and the
/// anchor and the candidate of the span that it writes, which starts at `start`.
spec fn holds_its_frames(
    process: FrameProcess,
    frame_anchor: Seq<u8>,
    frame_candidate: Seq<u8>,
    source: Seq<Seq<u8>>,
    frames: Seq<Seq<u8>>,
    start: int,
) -> bool {
    let num = process.scheduler.factor_num as int;
    let anchor_index = process.planner.anchor_index as int;
    &&& frames.len() == process.planner.candidate_index + source.len()
    &&& source == frames.skip(process.planner.candidate_index as int)
    &&& match process.stage {
        ProcessStage::Reading => frame_anchor == frames[anchor_index],
        ProcessStage::Writing { span, last } => if last {
            &&& source.len() == 0
            &&& start == anchor_index
            &&& span.position_scaled_start == start * num
            &&& span.position_scaled_end == process.planner.candidate_index * num
            &&& !span.interpolate
            &&& frame_anchor == frames[anchor_index]
        } else {
            &&& 0 <= start < anchor_index
            &&& anchor_index - start <= if process.planner.anime_mode {
                3int
            } else {
                1int
            }
            &&& span.position_scaled_start == start * num
            &&& span.position_scaled_end == anchor_index * num
            &&& frame_anchor == frames[start]
            &&& frame_candidate == frames[anchor_index]
        },
        ProcessStage::Finished => true,
    }
}

/// Whether every frame that a loop writes from where it stands is made at its place.
spec fn is_made_run(
    process: FrameProcess,
    written: Seq<WrittenFrame>,
    frames: Seq<Seq<u8>>,
) -> bool {
    forall|i: int|
        0 <= i < written.len() ==> is_made_at_its_place(
            #[trigger] written[i],
            frames,
            process.scheduler.factor_num as int,
            process.scheduler.factor_den as int,
            process.scheduler.output_index + i,
            if process.planner.anime_mode {
                3
            } else {
                1
            },
        )
}

proof fn lemma_frames_are_made_at_their_place(
    process: FrameProcess,
    frame_anchor: Seq<u8>,
    frame_candidate: Seq<u8>,
    source: Seq<Seq<u8>>,
    frames: Seq<Seq<u8>>,
    start: int,
    times: spec_fn(nat) -> StepTimes,
    fuel: nat,
)
    requires
        process.well_formed(),
        process.scheduler.factor_den > 0,
        holds_its_frames(process, frame_anchor, frame_candidate, source, frames, start),
    ensures
        is_made_run(
            process,
            run(process, frame_anchor, frame_candidate, source, times, fuel).0,
            frames,
        ),
    decreases fuel,
{
    if fuel > 0 {
        let left = (fuel - 1) as nat;
        let num = process.scheduler.factor_num as int;
        let den = process.scheduler.factor_den as int;
        lemma_step_stays_in_place(process, false);
        match process.next(false) {
            Ok(ProcessStep::Read) => if source.len() == 0 {
                lemma_end_stays_in_place(process);
                lemma_span_scales(
                    process.scheduler,
                    SourceSpan {
                        source_index_start: process.planner.anchor_index,
                        source_index_end: process.planner.candidate_index,
                        interpolate: false,
                    },
                );
                lemma_frames_are_made_at_their_place(
                    process.after_end(),
                    frame_anchor,
                    frame_candidate,
                    source,
                    frames,
                    process.planner.anchor_index as int,
                    times,
                    left,
                );
                assert(is_made_run(
                    process,
                    run(process, frame_anchor, frame_candidate, source, times, fuel).0,
                    frames,
                ));
            } else {
                let decode_nanos = times(fuel).decode_nanos;
                let class = process.planner.class_of_frames(
                    frame_anchor,
                    source[0],
                    process.width as int,
                    process.height as int,
                );
                lemma_source_stays_in_place(process, frame_anchor, source[0], decode_nanos);
                pipeline::frames::planner_stays_well_formed(process.planner, class);
                if let Some(span) = process.planner.completed_span(class) {
                    lemma_span_scales(process.scheduler, span);
                }
                assert(source.drop_first() =~= frames.skip(
                    process.planner.candidate_index as int + 1,
                ));
                lemma_frames_are_made_at_their_place(
                    process.after_source(frame_anchor, source[0], decode_nanos),
                    frame_anchor,
                    source[0],
                    source.drop_first(),
                    frames,
                    process.planner.anchor_index as int,
                    times,
                    left,
                );
                assert(is_made_run(
                    process,
                    run(process, frame_anchor, frame_candidate, source, times, fuel).0,
                    frames,
                ));
            },
            Ok(ProcessStep::Write(frame)) => {
                let inference_nanos = times(fuel).inference_nanos;
                let write_nanos = times(fuel).write_nanos;
                lemma_written_stays_in_place(process, frame, inference_nanos, write_nanos);
                lemma_frames_are_made_at_their_place(
                    process.after_written(frame, inference_nanos, write_nanos),
                    frame_anchor,
                    frame_candidate,
                    source,
                    frames,
                    start,
                    times,
                    left,
                );
                let first = WrittenFrame { frame, frame_anchor, frame_candidate };
                let rest = run(
                    process.after_written(frame, inference_nanos, write_nanos),
                    frame_anchor,
                    frame_candidate,
                    source,
                    times,
                    left,
                ).0;
                let written = run(process, frame_anchor, frame_candidate, source, times, fuel).0;
                let end = match process.stage {
                    ProcessStage::Writing { span, last } => if last {
                        process.planner.candidate_index as int
                    } else {
                        process.planner.anchor_index as int
                    },
                    _ => 0,
                };
                pipeline::scheduler::lemma_position_fits(
                    process.scheduler.output_index,
                    process.scheduler.factor_den,
                );
                assert(is_made_of(
                    first,
                    frames,
                    num,
                    den,
                    process.scheduler.output_index as int,
                    start,
                    end,
                ));
                assert forall|i: int| 0 <= i < written.len() implies is_made_at_its_place(
                    #[trigger] written[i],
                    frames,
                    num,
                    den,
                    process.scheduler.output_index + i,
                    if process.planner.anime_mode {
                        3
                    } else {
                        1
                    },
                ) by {
                    if i == 0 {
                        assert(written[0] == first);
                    } else {
                        assert(written[i] == rest[i - 1]);
                    }
                }
            },
            Ok(ProcessStep::Advance) => {
                lemma_frames_are_made_at_their_place(
                    process.after_step(ProcessStep::Advance),
                    frame_candidate,
                    frame_anchor,
                    source,
                    frames,
                    start,
                    times,
                    left,
                );
                assert(is_made_run(
                    process,
                    run(process, frame_anchor, frame_candidate, source, times, fuel).0,
                    frames,
                ));
            },
            _ => {},
        }
    }
}

/// Every frame that a job writes is made of the frames of its source around its own place
/// on the timeline: it shows the last source frame before it, or lies between two source
/// frames at the part of the way that its place is. For a movie those are neighbours; for
/// anime they are three intervals apart at most, around a drawing that is held.
pub proof fn output_frames_are_made_of_the_frames_around_them(
    configuration: JobConfiguration,
    metadata: VideoMetadata,
    frame_count_estimate: u64,
    frame_size: usize,
    frame_candidate: Seq<u8>,
    frames: Seq<Seq<u8>>,
    times: spec_fn(nat) -> StepTimes,
    fuel: nat,
)
    requires
        FrameProcess::initial(
            configuration,
            metadata,
            frame_count_estimate,
            frame_size,
        ).well_formed(),
        configuration.target_fps_den > 0,
        metadata.source_fps_num > 0,
        frames.len() > 0,
    ensures
        ({
            let written = run(
                FrameProcess::initial(configuration, metadata, frame_count_estimate, frame_size),
                frames[0],
                frame_candidate,
                frames.skip(1),
                times,
                fuel,
            ).0;
            forall|i: int|
                0 <= i < written.len() ==> is_made_at_its_place(
                    #[trigger] written[i],
                    frames,
                    configuration.target_fps_num * metadata.source_fps_den,
                    configuration.target_fps_den * metadata.source_fps_num,
                    i,
                    if configuration.content_preset == ContentPreset::Anime {
                        3
                    } else {
                        1
                    },
                )
        }),
{
    let process = FrameProcess::initial(
        configuration,
        metadata,
        frame_count_estimate,
        frame_size,
    );
    pipeline::scheduler::lemma_rate_product(configuration.target_fps_num, metadata.source_fps_den);
    pipeline::scheduler::lemma_rate_product(configuration.target_fps_den, metadata.source_fps_num);
    assert(configuration.target_fps_den * metadata.source_fps_num > 0) by (nonlinear_arith)
        requires
            configuration.target_fps_den > 0,
            metadata.source_fps_num > 0,
    ;
    lemma_frames_are_made_at_their_place(
        process,
        frames[0],
        frame_candidate,
        frames.skip(1),
        frames,
        0,
        times,
        fuel,
    );
}

/// A frame that is read begins the span from the anchor to itself where it completes one,
/// interpolated where it is motion, and leaves the next one to be read where it only
/// lengthens the run; its time counts as decoding, and nothing that was written changes.
pub proof fn frames_that_are_read_begin_their_span(
    process: FrameProcess,
    frame_anchor: Seq<u8>,
    frame_candidate: Seq<u8>,
    decode_nanos: u64,
)
    requires
        process.well_formed(),
        process.stage == ProcessStage::Reading,
        process.planner.candidate_index < 100_000_000,
    ensures
        ({
            let after = process.after_source(frame_anchor, frame_candidate, decode_nanos);
            let num = process.scheduler.factor_num;
            let class = process.planner.class_of_frames(
                frame_anchor,
                frame_candidate,
                process.width as int,
                process.height as int,
            );
            &&& after.planner.candidate_index == process.planner.candidate_index + 1
            &&& match after.stage {
                ProcessStage::Reading => {
                    &&& class == FrameClass::Held
                    &&& after.planner.anchor_index == process.planner.anchor_index
                },
                ProcessStage::Writing { span, last } => {
                    &&& !last
                    &&& span.position_scaled_start == process.planner.anchor_index * num
                    &&& span.position_scaled_end == process.planner.candidate_index * num
                    &&& span.interpolate <==> class == FrameClass::Motion
                    &&& after.planner.anchor_index == process.planner.candidate_index
                },
                ProcessStage::Finished => false,
            }
            &&& after.scheduler.decode_count == process.scheduler.decode_count + 1
            &&& after.scheduler.decode_elapsed_nanos == process.scheduler.decode_elapsed_nanos
                + decode_nanos
            &&& after.scheduler.output_index == process.scheduler.output_index
            &&& after.scheduler.inference_count == process.scheduler.inference_count
            &&& after.scheduler.encode_count == process.scheduler.encode_count
            &&& after.width == process.width
            &&& after.height == process.height
        }),
{
    let class = process.planner.class_of_frames(
        frame_anchor,
        frame_candidate,
        process.width as int,
        process.height as int,
    );
    pipeline::frames::planner_stays_well_formed(process.planner, class);
    if let Some(span) = process.planner.completed_span(class) {
        lemma_span_scales(process.scheduler, span);
    }
}

/// Where the source ends, what is left of it shows the anchor, without interpolation.
pub proof fn sources_end_with_their_anchor(process: FrameProcess)
    requires
        process.well_formed(),
        process.stage == ProcessStage::Reading,
    ensures
        process.after_end().stage matches ProcessStage::Writing { span, last } && {
            &&& last
            &&& !span.interpolate
            &&& span.position_scaled_start == process.planner.anchor_index
                * process.scheduler.factor_num
            &&& span.position_scaled_end == process.planner.candidate_index
                * process.scheduler.factor_num
        },
        process.after_end().planner == process.planner,
        process.after_end().scheduler == process.scheduler,
{
    lemma_span_scales(
        process.scheduler,
        SourceSpan {
            source_index_start: process.planner.anchor_index,
            source_index_end: process.planner.candidate_index,
            interpolate: false,
        },
    );
}

/// A loop that is not finished makes nothing more once the job is cancelled; one that
/// waits for a source frame reads it unless there are a hundred million already; and a
/// span without a frame left ends with its source or leads to the next frame.
pub proof fn loops_stop_or_go_on(process: FrameProcess, cancelled: bool)
    ensures
        process.stage != ProcessStage::Finished ==> process.next(true) is Err,
        process.stage == ProcessStage::Reading && !cancelled ==> (process.next(cancelled)
            == Ok::<ProcessStep, Seq<char>>(ProcessStep::Read) <==> process.planner.candidate_index
            < 100_000_000),
        process.stage == ProcessStage::Finished ==> process.next(cancelled) == Ok::<
            ProcessStep,
            Seq<char>,
        >(ProcessStep::Finish),
        process.stage matches ProcessStage::Writing { span, last } ==> {
            let next = process.scheduler.next_in(span, cancelled);
            &&& next matches Ok(Some(frame)) ==> process.next(cancelled) == Ok::<
                ProcessStep,
                Seq<char>,
            >(ProcessStep::Write(frame))
            &&& next matches Ok(None) ==> (process.next(cancelled) == Ok::<ProcessStep, Seq<char>>(
                ProcessStep::Finish,
            ) <==> last)
            &&& next matches Ok(None) ==> (process.next(cancelled) == Ok::<ProcessStep, Seq<char>>(
                ProcessStep::Advance,
            ) <==> !last)
        },
        process.after_step(ProcessStep::Advance).stage == ProcessStage::Reading,
        process.after_step(ProcessStep::Finish).stage == ProcessStage::Finished,
        process.after_step(ProcessStep::Read) == process,
{
}

/// A source frame that was read is timed and counted once, in the count of the class that
/// it has next to the anchor, and no output frame is counted for it.
pub proof fn source_frames_are_timed_once(
    process: FrameProcess,
    frame_anchor: Seq<u8>,
    frame_candidate: Seq<u8>,
    decode_nanos: u64,
)
    requires
        process.well_formed(),
        process.planner.candidate_index < 100_000_000,
    ensures
        ({
            let after = process.after_source(frame_anchor, frame_candidate, decode_nanos);
            &&& after.scheduler.decode_count == process.scheduler.decode_count + 1
            &&& after.scheduler.decode_elapsed_nanos - process.scheduler.decode_elapsed_nanos
                == decode_nanos
            &&& after.scheduler.output_index == process.scheduler.output_index
            &&& after.scheduler.encode_count == process.scheduler.encode_count
            &&& after.scheduler.inference_count == process.scheduler.inference_count
            &&& after.scheduler.encode_elapsed_nanos == process.scheduler.encode_elapsed_nanos
            &&& after.planner.candidate_index == process.planner.candidate_index + 1
        }),
{
}

} // verus!
