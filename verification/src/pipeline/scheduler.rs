//! Where each output frame lies on the source timeline, and what it is made of.

use crate::cadence::CadenceDiagnostics;
use crate::pipeline::{
    JobUpdate, PerformanceDiagnostics, StageRate, OUTPUT_FRAME_COUNT_MAX, PROGRESS_INTERVAL_NANOS,
};
use crate::ratio::Ratio;
use crate::{pipeline, text};
use vstd::prelude::*;

verus! {

pub const NANOS_PER_SECOND: u64 = 1_000_000_000;

/// The shortest time that a processing rate is measured over: a millisecond.
pub const RATE_ELAPSED_NANOS_MIN: u64 = 1_000_000;

/// A span of the source timeline, scaled so that source frame `i` lies at `i` times
/// the target rate and output frame `k` at `k` times the source rate.
#[derive(Clone, Copy, Debug, PartialEq, Eq, Structural)]
pub struct OutputSpan {
    pub position_scaled_start: u128,
    pub position_scaled_end: u128,
    pub interpolate: bool,
}

/// What the next output frame is made of.
#[derive(Clone, Copy, Debug, PartialEq, Eq, Structural)]
pub enum OutputFrame {
    /// The source frame at the start of the span, repeated after that start or not.
    Source { after_start: bool },
    /// A frame between the two ends of the span, this part of the way along.
    Interpolated { relative_scaled: u128, duration_scaled: u128 },
}

/// Places output frames on the source timeline and counts what has been done.
#[derive(Clone, Copy, Debug, PartialEq, Eq, Structural)]
pub struct OutputScheduler {
    pub factor_num: u128,
    pub factor_den: u128,
    pub frame_count_estimate: u64,
    pub output_index: u64,
    pub progress_at_nanos: u64,
    pub frame_size: usize,
    pub inference_count: u64,
    pub decode_count: u64,
    pub encode_count: u64,
    pub inference_elapsed_nanos: u128,
    pub decode_elapsed_nanos: u128,
    pub encode_elapsed_nanos: u128,
    pub cadence_diagnostics: CadenceDiagnostics,
}

/// How many output frames start before a scaled position.
pub open spec fn frames_before(position: int, factor_den: int) -> int {
    (position + factor_den - 1) / factor_den
}

/// How many output frames start before the given source frame does: output frame
/// `k` belongs to the span that its position `k * den` lies in.
pub open spec fn outputs_before(factor_num: int, factor_den: int, source_index: int) -> int {
    frames_before(source_index * factor_num, factor_den)
}

impl OutputSpan {
    /// The scaled positions of a span of source frames.
    pub open spec fn covers(self, factor_num: int, start: int, end: int, interpolate: bool) -> bool {
        &&& self.position_scaled_start == start * factor_num
        &&& self.position_scaled_end == end * factor_num
        &&& self.interpolate == interpolate
    }
}

/// The frames per second of a stage: none before any time was measured.
pub open spec fn stage_rate(frame_count: int, elapsed_nanos: int) -> StageRate {
    if elapsed_nanos == 0 {
        StageRate { numerator: 0, denominator: 1 }
    } else {
        StageRate {
            numerator: (frame_count * NANOS_PER_SECOND) as u128,
            denominator: elapsed_nanos as u128,
        }
    }
}

impl OutputScheduler {
    /// The target rate is above the source rate; every written frame was encoded,
    /// at most every one was inferred; no measured time exceeds what its frames can
    /// have taken.
    pub open spec fn well_formed(self) -> bool {
        &&& self.factor_num > self.factor_den
        &&& self.factor_num <= 0x1_0000_0000 * 0x1_0000_0000_0000_0000
        &&& self.output_index <= OUTPUT_FRAME_COUNT_MAX
        &&& self.encode_count == self.output_index
        &&& self.inference_count <= self.output_index
        &&& self.decode_count <= OUTPUT_FRAME_COUNT_MAX
        &&& 1 <= self.frame_count_estimate <= OUTPUT_FRAME_COUNT_MAX
        &&& self.inference_elapsed_nanos <= self.inference_count * u64::MAX
        &&& self.decode_elapsed_nanos <= self.decode_count * u64::MAX
        &&& self.encode_elapsed_nanos <= self.encode_count * u64::MAX
    }

    /// Nothing made or written yet. The estimate of the frame count is kept between one
    /// and the frame limit.
    pub open spec fn initial(
        target_fps_num: u32,
        target_fps_den: u32,
        source_fps_num: u64,
        source_fps_den: u64,
        frame_count_estimate: u64,
        frame_size: usize,
    ) -> OutputScheduler {
        OutputScheduler {
            factor_num: (target_fps_num * source_fps_den) as u128,
            factor_den: (target_fps_den * source_fps_num) as u128,
            frame_count_estimate: if frame_count_estimate < 1 {
                1
            } else if frame_count_estimate > OUTPUT_FRAME_COUNT_MAX {
                OUTPUT_FRAME_COUNT_MAX
            } else {
                frame_count_estimate
            },
            output_index: 0,
            progress_at_nanos: 0,
            frame_size,
            inference_count: 0,
            decode_count: 0,
            encode_count: 0,
            inference_elapsed_nanos: 0,
            decode_elapsed_nanos: 0,
            encode_elapsed_nanos: 0,
            cadence_diagnostics: CadenceDiagnostics::none(),
        }
    }

    /// Starts at the first output frame.
    pub fn new(
        target_fps_num: u32,
        target_fps_den: u32,
        source_fps_num: u64,
        source_fps_den: u64,
        frame_count_estimate: u64,
        frame_size: usize,
    ) -> (scheduler: OutputScheduler)
        requires
            target_fps_num > 0,
            source_fps_num > 0,
            target_fps_num * source_fps_den > target_fps_den * source_fps_num,
        ensures
            scheduler.well_formed(),
            scheduler == OutputScheduler::initial(
                target_fps_num,
                target_fps_den,
                source_fps_num,
                source_fps_den,
                frame_count_estimate,
                frame_size,
            ),
            scheduler.factor_num == target_fps_num * source_fps_den,
            scheduler.factor_den == target_fps_den * source_fps_num,
    {
        proof {
            lemma_rate_product(target_fps_num, source_fps_den);
            lemma_rate_product(target_fps_den, source_fps_num);
        }
        let estimate: u64 = if frame_count_estimate < 1 {
            1
        } else if frame_count_estimate > OUTPUT_FRAME_COUNT_MAX {
            OUTPUT_FRAME_COUNT_MAX
        } else {
            frame_count_estimate
        };
        OutputScheduler {
            factor_num: (target_fps_num as u128) * (source_fps_den as u128),
            factor_den: (target_fps_den as u128) * (source_fps_num as u128),
            frame_count_estimate: estimate,
            output_index: 0,
            progress_at_nanos: 0,
            frame_size,
            inference_count: 0,
            decode_count: 0,
            encode_count: 0,
            inference_elapsed_nanos: 0,
            decode_elapsed_nanos: 0,
            encode_elapsed_nanos: 0,
            cadence_diagnostics: CadenceDiagnostics::default(),
        }
    }

    /// The positions of a span of source frames, unless they exceed the arithmetic.
    pub fn begin_span(
        &self,
        source_index_start: u64,
        source_index_end: u64,
        interpolate: bool,
    ) -> (result: Result<OutputSpan, String>)
        requires
            source_index_end > source_index_start,
        ensures
            source_index_start * self.factor_num > u128::MAX ==> text::result_text(result) == Err::<
                OutputSpan,
                Seq<char>,
            >("source span start overflowed"@),
            source_index_start * self.factor_num <= u128::MAX < source_index_end * self.factor_num
                ==> text::result_text(result) == Err::<OutputSpan, Seq<char>>(
                "source span end overflowed"@,
            ),
            source_index_end * self.factor_num <= u128::MAX ==> (result matches Ok(span)
                && span.covers(
                self.factor_num as int,
                source_index_start as int,
                source_index_end as int,
                interpolate,
            )),
    {
        proof {
            assert(source_index_start * self.factor_num <= source_index_end * self.factor_num)
                by (nonlinear_arith)
                requires
                    source_index_start < source_index_end,
                    self.factor_num >= 0,
            ;
        }
        let position_scaled_start: u128 = match (source_index_start as u128).checked_mul(
            self.factor_num,
        ) {
            Some(position) => position,
            None => return Err("source span start overflowed".to_owned()),
        };
        let position_scaled_end: u128 = match (source_index_end as u128).checked_mul(
            self.factor_num,
        ) {
            Some(position) => position,
            None => return Err("source span end overflowed".to_owned()),
        };
        Ok(OutputSpan { position_scaled_start, position_scaled_end, interpolate })
    }

    /// What the next output frame of a span is, if the span has one left.
    pub open spec fn next_in(self, span: OutputSpan, cancelled: bool) -> Result<
        Option<OutputFrame>,
        Seq<char>,
    > {
        let position = self.output_index * self.factor_den;
        if self.output_index >= OUTPUT_FRAME_COUNT_MAX {
            Err("output exceeds the 100000000-frame safety limit"@)
        } else if cancelled {
            Err("job cancelled"@)
        } else if position >= span.position_scaled_end {
            Ok(None)
        } else if position < span.position_scaled_start {
            Err("output scheduler encountered an overlapping source span"@)
        } else if span.interpolate && position > span.position_scaled_start {
            Ok(
                Some(
                    OutputFrame::Interpolated {
                        relative_scaled: (position - span.position_scaled_start) as u128,
                        duration_scaled: (span.position_scaled_end
                            - span.position_scaled_start) as u128,
                    },
                ),
            )
        } else {
            Ok(Some(OutputFrame::Source { after_start: position > span.position_scaled_start }))
        }
    }

    /// The next output frame of a span, none once the span is complete, or the reason
    /// why the job ends here.
    pub fn next_frame(&self, span: &OutputSpan, cancelled: bool) -> (result: Result<
        Option<OutputFrame>,
        String,
    >)
        requires
            self.well_formed(),
            span.position_scaled_start < span.position_scaled_end,
        ensures
            text::result_text(result) == self.next_in(*span, cancelled),
    {
        if self.output_index >= OUTPUT_FRAME_COUNT_MAX {
            return Err("output exceeds the 100000000-frame safety limit".to_owned());
        }
        if cancelled {
            return Err("job cancelled".to_owned());
        }
        proof {
            lemma_position_fits(self.output_index, self.factor_den);
        }
        let position_scaled: u128 = (self.output_index as u128) * self.factor_den;
        if position_scaled >= span.position_scaled_end {
            return Ok(None);
        }
        if position_scaled < span.position_scaled_start {
            return Err("output scheduler encountered an overlapping source span".to_owned());
        }
        let relative_scaled: u128 = position_scaled - span.position_scaled_start;
        if span.interpolate && relative_scaled > 0 {
            let duration_scaled: u128 = span.position_scaled_end - span.position_scaled_start;
            Ok(Some(OutputFrame::Interpolated { relative_scaled, duration_scaled }))
        } else {
            Ok(Some(OutputFrame::Source { after_start: relative_scaled > 0 }))
        }
    }

    /// The scheduler after one more frame was made and written.
    pub open spec fn after_frame(
        self,
        frame: OutputFrame,
        inference_nanos: u64,
        write_nanos: u64,
    ) -> OutputScheduler {
        OutputScheduler {
            output_index: (self.output_index + 1) as u64,
            encode_count: (self.encode_count + 1) as u64,
            encode_elapsed_nanos: (self.encode_elapsed_nanos + write_nanos) as u128,
            inference_count: if frame is Interpolated {
                (self.inference_count + 1) as u64
            } else {
                self.inference_count
            },
            inference_elapsed_nanos: if frame is Interpolated {
                (self.inference_elapsed_nanos + inference_nanos) as u128
            } else {
                self.inference_elapsed_nanos
            },
            cadence_diagnostics: if frame == (OutputFrame::Source { after_start: true }) {
                CadenceDiagnostics {
                    inference_bypass_count: pipeline::frames::counted(
                        self.cadence_diagnostics.inference_bypass_count,
                    ),
                    ..self.cadence_diagnostics
                }
            } else {
                self.cadence_diagnostics
            },
            ..self
        }
    }

    /// Records that an output frame was made, in the given time, and written.
    pub fn frame_written(&mut self, frame: OutputFrame, inference_nanos: u64, write_nanos: u64)
        requires
            old(self).well_formed(),
            old(self).output_index < OUTPUT_FRAME_COUNT_MAX,
        ensures
            final(self).well_formed(),
            *final(self) == old(self).after_frame(frame, inference_nanos, write_nanos),
    {
        match frame {
            OutputFrame::Interpolated { relative_scaled: _, duration_scaled: _ } => {
                self.inference_elapsed_nanos = self.inference_elapsed_nanos
                    + inference_nanos as u128;
                self.inference_count = self.inference_count + 1;
            },
            OutputFrame::Source { after_start } => {
                if after_start {
                    self.cadence_diagnostics.inference_bypass_count =
                    self.cadence_diagnostics.inference_bypass_count.saturating_add(1);
                }
            },
        }
        self.encode_elapsed_nanos = self.encode_elapsed_nanos + write_nanos as u128;
        self.encode_count = self.encode_count + 1;
        self.output_index = self.output_index + 1;
    }

    /// Records that a source frame was read in the given time.
    pub fn record_decode(&mut self, elapsed_nanos: u64)
        requires
            old(self).well_formed(),
            old(self).decode_count < OUTPUT_FRAME_COUNT_MAX,
        ensures
            final(self).well_formed(),
            *final(self) == (OutputScheduler {
                decode_count: (old(self).decode_count + 1) as u64,
                decode_elapsed_nanos: (old(self).decode_elapsed_nanos + elapsed_nanos) as u128,
                ..*old(self)
            }),
    {
        self.decode_elapsed_nanos = self.decode_elapsed_nanos + elapsed_nanos as u128;
        self.decode_count = self.decode_count + 1;
    }

    fn stage_fps(frame_count: u64, elapsed_nanos: u128) -> (rate: StageRate)
        requires
            frame_count <= OUTPUT_FRAME_COUNT_MAX,
        ensures
            rate == stage_rate(frame_count as int, elapsed_nanos as int),
    {
        if elapsed_nanos == 0 {
            return StageRate { numerator: 0, denominator: 1 };
        }
        proof {
            assert(0 <= frame_count * 1_000_000_000 <= u64::MAX);
        }
        let numerator: u64 = frame_count * NANOS_PER_SECOND;
        StageRate { numerator: numerator as u128, denominator: elapsed_nanos }
    }

    /// The rates of the three stages.
    pub open spec fn rates(self) -> PerformanceDiagnostics {
        PerformanceDiagnostics {
            inference_fps: stage_rate(
                self.inference_count as int,
                self.inference_elapsed_nanos as int,
            ),
            decode_fps: stage_rate(self.decode_count as int, self.decode_elapsed_nanos as int),
            encode_fps: stage_rate(self.encode_count as int, self.encode_elapsed_nanos as int),
        }
    }

    /// The rates of the three stages so far.
    pub fn performance(&self) -> (performance: PerformanceDiagnostics)
        requires
            self.well_formed(),
        ensures
            performance == self.rates(),
    {
        PerformanceDiagnostics {
            inference_fps: OutputScheduler::stage_fps(
                self.inference_count,
                self.inference_elapsed_nanos,
            ),
            decode_fps: OutputScheduler::stage_fps(self.decode_count, self.decode_elapsed_nanos),
            encode_fps: OutputScheduler::stage_fps(self.encode_count, self.encode_elapsed_nanos),
        }
    }

    /// Output frames per second since the start, measured over a millisecond at least.
    pub open spec fn processing_rate(self, now_nanos: u64) -> Ratio {
        Ratio {
            numerator: (self.output_index * NANOS_PER_SECOND) as u64,
            denominator: if now_nanos < RATE_ELAPSED_NANOS_MIN {
                RATE_ELAPSED_NANOS_MIN
            } else {
                now_nanos
            },
        }
    }

    fn processing_fps(&self, now_nanos: u64) -> (rate: Ratio)
        requires
            self.well_formed(),
        ensures
            rate == self.processing_rate(now_nanos),
    {
        Ratio {
            numerator: self.output_index * NANOS_PER_SECOND,
            denominator: if now_nanos < RATE_ELAPSED_NANOS_MIN {
                RATE_ELAPSED_NANOS_MIN
            } else {
                now_nanos
            },
        }
    }

    /// Whether a progress report is due `now_nanos` after the start.
    pub open spec fn progress_due(self, now_nanos: u64) -> bool {
        now_nanos - self.progress_at_nanos >= PROGRESS_INTERVAL_NANOS
    }

    /// What a progress report says `now_nanos` after the start.
    pub open spec fn progress_report(self, now_nanos: u64) -> JobUpdate {
        JobUpdate::Progress {
            frame_count: self.output_index,
            frame_count_estimate: self.frame_count_estimate,
            processing_fps: self.processing_rate(now_nanos),
            progress: Ratio {
                numerator: if self.output_index <= self.frame_count_estimate {
                    self.output_index
                } else {
                    self.frame_count_estimate
                },
                denominator: self.frame_count_estimate,
            },
            cadence_diagnostics: self.cadence_diagnostics,
            performance: self.rates(),
        }
    }

    /// What the last progress report says: the estimate gives way to the count.
    pub open spec fn last_report(self, now_nanos: u64) -> JobUpdate {
        JobUpdate::Progress {
            frame_count: self.output_index,
            frame_count_estimate: self.output_index,
            processing_fps: self.processing_rate(now_nanos),
            progress: Ratio { numerator: 1, denominator: 1 },
            cadence_diagnostics: self.cadence_diagnostics,
            performance: self.rates(),
        }
    }

    /// The progress to report `now_nanos` after the start, if a report is due.
    pub fn report_progress(&mut self, now_nanos: u64) -> (update: Option<JobUpdate>)
        requires
            old(self).well_formed(),
            old(self).output_index < OUTPUT_FRAME_COUNT_MAX,
        ensures
            final(self).well_formed(),
            !old(self).progress_due(now_nanos) ==> update is None && *final(self) == *old(self),
            old(self).progress_due(now_nanos) ==> *final(self) == (OutputScheduler {
                progress_at_nanos: now_nanos,
                ..*old(self)
            }),
            old(self).progress_due(now_nanos) ==> update == Some(
                old(self).progress_report(now_nanos),
            ),
    {
        if now_nanos.saturating_sub(self.progress_at_nanos) < PROGRESS_INTERVAL_NANOS {
            return None;
        }
        let exact = Ratio { numerator: self.output_index, denominator: self.frame_count_estimate };
        let update = JobUpdate::Progress {
            frame_count: self.output_index,
            frame_count_estimate: self.frame_count_estimate,
            processing_fps: self.processing_fps(now_nanos),
            progress: exact.at_most_one(),
            cadence_diagnostics: self.cadence_diagnostics,
            performance: self.performance(),
        };
        self.progress_at_nanos = now_nanos;
        Some(update)
    }

    /// The last progress report, once every span is written: the estimate gives way
    /// to the count.
    pub fn finish(&self, now_nanos: u64) -> (update: JobUpdate)
        requires
            self.well_formed(),
            0 < self.output_index < OUTPUT_FRAME_COUNT_MAX,
        ensures
            update == self.last_report(now_nanos),
    {
        JobUpdate::Progress {
            frame_count: self.output_index,
            frame_count_estimate: self.output_index,
            processing_fps: self.processing_fps(now_nanos),
            progress: Ratio { numerator: 1, denominator: 1 },
            cadence_diagnostics: self.cadence_diagnostics,
            performance: self.performance(),
        }
    }
}

/// Whether an interpolation time, given by the bits of its single-precision value,
/// lies from zero up to, but not at, one.
pub open spec fn timestep_inside(timestep_bits: u32) -> bool {
    timestep_bits < 0x3f80_0000 || timestep_bits == 0x8000_0000
}

/// Checks that an interpolation time stayed inside its span.
pub fn check_timestep(timestep_bits: u32) -> (result: Result<(), String>)
    ensures
        text::result_text(result) == if timestep_inside(timestep_bits) {
            Ok(())
        } else {
            Err("interpolation timestep escaped its source span"@)
        },
{
    if timestep_bits < 0x3f80_0000 || timestep_bits == 0x8000_0000 {
        Ok(())
    } else {
        Err("interpolation timestep escaped its source span".to_owned())
    }
}

pub(crate) proof fn lemma_rate_product(left: u32, right: u64)
    ensures
        0 <= left * right <= 0x1_0000_0000 * 0x1_0000_0000_0000_0000,
{
    assert(0 <= left * right <= 0x1_0000_0000 * 0x1_0000_0000_0000_0000) by (nonlinear_arith)
        requires
            0 <= left <= 0x1_0000_0000,
            0 <= right <= 0x1_0000_0000_0000_0000,
    ;
}

pub(crate) proof fn lemma_position_fits(output_index: u64, factor_den: u128)
    requires
        output_index <= OUTPUT_FRAME_COUNT_MAX,
        factor_den <= 0x1_0000_0000 * 0x1_0000_0000_0000_0000,
    ensures
        0 <= output_index * factor_den <= u128::MAX,
{
    assert(0 <= output_index * factor_den <= 100_000_000 * (0x1_0000_0000
        * 0x1_0000_0000_0000_0000)) by (nonlinear_arith)
        requires
            0 <= output_index <= 100_000_000,
            0 <= factor_den <= 0x1_0000_0000 * 0x1_0000_0000_0000_0000,
    ;
}

/// An output frame lies before a position exactly where it is among the frames that
/// start before it.
pub proof fn frames_before_counts_positions(position: int, factor_den: int, output_index: int)
    requires
        factor_den > 0,
        position >= 0,
    ensures
        output_index * factor_den < position <==> output_index < frames_before(
            position,
            factor_den,
        ),
{
    let count = frames_before(position, factor_den);
    vstd::arithmetic::div_mod::lemma_fundamental_div_mod(position + factor_den - 1, factor_den);
    vstd::arithmetic::div_mod::lemma_mod_bound(position + factor_den - 1, factor_den);
    assert(position <= count * factor_den < position + factor_den) by {
        assert(factor_den * count == count * factor_den) by (nonlinear_arith);
    }
    if output_index < count {
        assert(output_index * factor_den <= (count - 1) * factor_den) by (nonlinear_arith)
            requires
                output_index <= count - 1,
                factor_den > 0,
        ;
        assert((count - 1) * factor_den == count * factor_den - factor_den) by (nonlinear_arith);
    } else {
        assert(output_index * factor_den >= count * factor_den) by (nonlinear_arith)
            requires
                output_index >= count,
                factor_den > 0,
        ;
    }
}

/// An output frame lies before a source frame exactly where it is among the frames
/// that start before it.
pub proof fn outputs_before_counts_positions(
    factor_num: int,
    factor_den: int,
    source_index: int,
    output_index: int,
)
    requires
        factor_den > 0,
        factor_num > 0,
        source_index >= 0,
    ensures
        output_index * factor_den < source_index * factor_num <==> output_index < outputs_before(
            factor_num,
            factor_den,
            source_index,
        ),
{
    assert(source_index * factor_num >= 0) by (nonlinear_arith)
        requires
            source_index >= 0,
            factor_num > 0,
    ;
    frames_before_counts_positions(source_index * factor_num, factor_den, output_index);
}

/// A span yields exactly the output frames that lie inside it: it is complete once
/// the scheduler has reached the frames that start at its end.
pub proof fn span_yields_its_frames(
    scheduler: OutputScheduler,
    span: OutputSpan,
    start: int,
    end: int,
    interpolate: bool,
)
    requires
        scheduler.well_formed(),
        scheduler.factor_den > 0,
        scheduler.output_index < OUTPUT_FRAME_COUNT_MAX,
        0 <= start < end,
        span.covers(scheduler.factor_num as int, start, end, interpolate),
    ensures
        scheduler.next_in(span, false) is Err <==> scheduler.output_index < outputs_before(
            scheduler.factor_num as int,
            scheduler.factor_den as int,
            start,
        ),
        scheduler.next_in(span, false) == Ok::<Option<OutputFrame>, Seq<char>>(None)
            <==> scheduler.output_index >= outputs_before(
            scheduler.factor_num as int,
            scheduler.factor_den as int,
            end,
        ),
{
    let num = scheduler.factor_num as int;
    let den = scheduler.factor_den as int;
    outputs_before_counts_positions(num, den, start, scheduler.output_index as int);
    outputs_before_counts_positions(num, den, end, scheduler.output_index as int);
    assert(start * num < end * num) by (nonlinear_arith)
        requires
            start < end,
            num > 0,
    ;
}

/// The scheduler after every frame of a span was made and written, each in some
/// time.
pub open spec fn after_span(
    scheduler: OutputScheduler,
    span: OutputSpan,
    times: spec_fn(int) -> (u64, u64),
    fuel: nat,
) -> OutputScheduler
    decreases fuel,
{
    if fuel == 0 {
        scheduler
    } else {
        match scheduler.next_in(span, false) {
            Ok(Some(frame)) => {
                let (inference_nanos, write_nanos) = times(scheduler.output_index as int);
                after_span(
                    scheduler.after_frame(frame, inference_nanos, write_nanos),
                    span,
                    times,
                    (fuel - 1) as nat,
                )
            },
            _ => scheduler,
        }
    }
}

/// A span that starts where the scheduler stands takes it to the frames that start
/// at its end, whatever time the frames take: no frame is lost or repeated.
pub proof fn spans_advance_the_output(
    scheduler: OutputScheduler,
    span: OutputSpan,
    start: int,
    end: int,
    interpolate: bool,
    times: spec_fn(int) -> (u64, u64),
    fuel: nat,
)
    requires
        scheduler.well_formed(),
        scheduler.factor_den > 0,
        0 <= start < end,
        span.covers(scheduler.factor_num as int, start, end, interpolate),
        outputs_before(scheduler.factor_num as int, scheduler.factor_den as int, start)
            <= scheduler.output_index <= outputs_before(
            scheduler.factor_num as int,
            scheduler.factor_den as int,
            end,
        ) < OUTPUT_FRAME_COUNT_MAX,
        fuel >= OUTPUT_FRAME_COUNT_MAX - scheduler.output_index,
    ensures
        after_span(scheduler, span, times, fuel).well_formed(),
        after_span(scheduler, span, times, fuel).output_index == outputs_before(
            scheduler.factor_num as int,
            scheduler.factor_den as int,
            end,
        ),
        after_span(scheduler, span, times, fuel).factor_num == scheduler.factor_num,
        after_span(scheduler, span, times, fuel).factor_den == scheduler.factor_den,
    decreases fuel,
{
    span_yields_its_frames(scheduler, span, start, end, interpolate);
    match scheduler.next_in(span, false) {
        Ok(Some(frame)) => {
            let (inference_nanos, write_nanos) = times(scheduler.output_index as int);
            let next = scheduler.after_frame(frame, inference_nanos, write_nanos);
            spans_advance_the_output(
                next,
                span,
                start,
                end,
                interpolate,
                times,
                (fuel - 1) as nat,
            );
        },
        _ => {},
    }
}

/// The output of a whole source ends less than one output frame after the source
/// does, and never before: duration is kept.
pub proof fn output_keeps_the_duration(factor_num: int, factor_den: int, source_count: int)
    requires
        factor_den > 0,
        factor_num > 0,
        source_count >= 0,
    ensures
        source_count * factor_num <= outputs_before(factor_num, factor_den, source_count)
            * factor_den < source_count * factor_num + factor_den,
{
    let count = outputs_before(factor_num, factor_den, source_count);
    outputs_before_counts_positions(factor_num, factor_den, source_count, count);
    outputs_before_counts_positions(factor_num, factor_den, source_count, count - 1);
    assert((count - 1) * factor_den == count * factor_den - factor_den) by (nonlinear_arith);
}

/// The first output frame is the first source frame, and every source interval
/// gets at least one output frame, because the target rate is above the source rate.
pub proof fn every_source_interval_has_output(factor_num: int, factor_den: int, source_index: int)
    requires
        factor_den > 0,
        factor_num > factor_den,
        source_index >= 0,
    ensures
        outputs_before(factor_num, factor_den, 0) == 0,
        outputs_before(factor_num, factor_den, source_index) < outputs_before(
            factor_num,
            factor_den,
            source_index + 1,
        ),
{
    output_keeps_the_duration(factor_num, factor_den, source_index);
    let count = outputs_before(factor_num, factor_den, source_index);
    outputs_before_counts_positions(factor_num, factor_den, source_index + 1, count);
    assert((source_index + 1) * factor_num == source_index * factor_num + factor_num)
        by (nonlinear_arith);
    outputs_before_counts_positions(factor_num, factor_den, 0, 0);
    outputs_before_counts_positions(factor_num, factor_den, 0, -1);
    assert(0 * factor_num == 0);
    assert(0 * factor_den == 0);
    assert(-1 * factor_den < 0) by (nonlinear_arith)
        requires
            factor_den > 0,
    ;
}

/// An interpolated frame lies strictly between the two ends of its span.
pub proof fn interpolated_frames_lie_inside(
    scheduler: OutputScheduler,
    span: OutputSpan,
    cancelled: bool,
)
    requires
        scheduler.well_formed(),
    ensures
        scheduler.next_in(span, cancelled) matches Ok(
            Some(OutputFrame::Interpolated { relative_scaled, duration_scaled }),
        ) ==> 0 < relative_scaled < duration_scaled,
{
    lemma_position_fits(scheduler.output_index, scheduler.factor_den);
}

/// Every output frame is made at its own place on the timeline. Output frame `k` of a
/// span from source frame `start` to source frame `end` lies in it; where it is
/// interpolated, it is made at the part of the way that its place is between the two
/// source frames; where it shows a source frame, that is the one at the start of the
/// span, at its own place or, where nothing is interpolated, held after it.
pub proof fn output_frames_are_made_at_their_place(
    scheduler: OutputScheduler,
    span: OutputSpan,
    start: int,
    end: int,
    interpolate: bool,
)
    requires
        scheduler.well_formed(),
        0 <= start < end,
        span.covers(scheduler.factor_num as int, start, end, interpolate),
    ensures
        ({
            let num = scheduler.factor_num as int;
            let place = scheduler.output_index * scheduler.factor_den;
            scheduler.next_in(span, false) matches Ok(Some(frame)) ==> {
                &&& start * num <= place < end * num
                &&& match frame {
                    OutputFrame::Interpolated { relative_scaled, duration_scaled } => {
                        &&& interpolate
                        &&& start * num < place
                        &&& relative_scaled * ((end - start) * num) == (place - start * num)
                            * duration_scaled
                        &&& start * num + relative_scaled == place
                        &&& start * num + duration_scaled == end * num
                    },
                    OutputFrame::Source { after_start } => {
                        &&& after_start <==> start * num < place
                        &&& after_start ==> !interpolate
                    },
                }
            }
        }),
{
    let num = scheduler.factor_num as int;
    lemma_position_fits(scheduler.output_index, scheduler.factor_den);
    assert((end - start) * num == end * num - start * num) by (nonlinear_arith);
    let place = scheduler.output_index * scheduler.factor_den;
    assert((place - start * num) * ((end - start) * num) == (place - start * num) * (end * num
        - start * num));
}

/// Of two interpolated frames of one span the later one lies further along, by the
/// distance of an output frame for each frame between them, on the same scale.
pub proof fn later_frames_lie_further_along(
    earlier: OutputScheduler,
    later: OutputScheduler,
    span: OutputSpan,
)
    requires
        earlier.well_formed(),
        later.well_formed(),
        earlier.factor_den == later.factor_den,
        earlier.output_index <= later.output_index,
    ensures
        earlier.next_in(span, false) matches Ok(
            Some(
                OutputFrame::Interpolated { relative_scaled: first, duration_scaled: scale },
            ),
        ) ==> (later.next_in(span, false) matches Ok(
            Some(
                OutputFrame::Interpolated { relative_scaled: second, duration_scaled: same },
            ),
        ) ==> same == scale && second == first + (later.output_index - earlier.output_index)
            * earlier.factor_den),
{
    lemma_position_fits(earlier.output_index, earlier.factor_den);
    lemma_position_fits(later.output_index, later.factor_den);
    assert((later.output_index - earlier.output_index) * earlier.factor_den == later.output_index
        * earlier.factor_den - earlier.output_index * earlier.factor_den) by (nonlinear_arith);
}

/// A cancelled job makes no further frame, and neither does one that has reached the
/// frame limit.
pub proof fn cancelled_jobs_make_no_frame(scheduler: OutputScheduler, span: OutputSpan, cancelled: bool)
    ensures
        cancelled ==> scheduler.next_in(span, cancelled) is Err,
        scheduler.output_index >= 100_000_000 ==> scheduler.next_in(span, cancelled) is Err,
{
}

/// Every frame is counted as what it is: as written, as inferred where it is
/// interpolated, and as a bypass where it repeats a source frame after its place. Each
/// kind of time grows by its own measure alone, and nothing else changes.
pub proof fn frames_are_counted_as_what_they_are(
    scheduler: OutputScheduler,
    frame: OutputFrame,
    inference_nanos: u64,
    write_nanos: u64,
)
    requires
        scheduler.well_formed(),
        scheduler.output_index < 100_000_000,
        scheduler.cadence_diagnostics.inference_bypass_count < u64::MAX,
    ensures
        ({
            let after = scheduler.after_frame(frame, inference_nanos, write_nanos);
            let inferred = if frame is Interpolated {
                1int
            } else {
                0int
            };
            let repeated = match frame {
                OutputFrame::Source { after_start } => if after_start {
                    1int
                } else {
                    0int
                },
                _ => 0int,
            };
            &&& after.well_formed()
            &&& after.output_index == scheduler.output_index + 1
            &&& after.encode_count == scheduler.encode_count + 1
            &&& after.encode_elapsed_nanos == scheduler.encode_elapsed_nanos + write_nanos
            &&& after.inference_count == scheduler.inference_count + inferred
            &&& after.inference_elapsed_nanos == scheduler.inference_elapsed_nanos + inferred
                * inference_nanos
            &&& after.cadence_diagnostics.inference_bypass_count
                == scheduler.cadence_diagnostics.inference_bypass_count + repeated
            &&& after.cadence_diagnostics.duplicate_frame_count
                == scheduler.cadence_diagnostics.duplicate_frame_count
            &&& after.cadence_diagnostics.cadence_run_count
                == scheduler.cadence_diagnostics.cadence_run_count
            &&& after.cadence_diagnostics.long_hold_count
                == scheduler.cadence_diagnostics.long_hold_count
            &&& after.cadence_diagnostics.scene_cut_count
                == scheduler.cadence_diagnostics.scene_cut_count
            &&& after.decode_count == scheduler.decode_count
            &&& after.decode_elapsed_nanos == scheduler.decode_elapsed_nanos
            &&& after.factor_num == scheduler.factor_num
            &&& after.factor_den == scheduler.factor_den
            &&& after.frame_count_estimate == scheduler.frame_count_estimate
            &&& after.progress_at_nanos == scheduler.progress_at_nanos
            &&& after.frame_size == scheduler.frame_size
        }),
{
}

/// The rate of a stage, times the seconds that it took, is the number of its frames; each
/// stage has its own.
pub proof fn rates_are_frames_over_time(scheduler: OutputScheduler)
    requires
        scheduler.well_formed(),
    ensures
        ({
            let rates = scheduler.rates();
            &&& rates.inference_fps.numerator * scheduler.inference_elapsed_nanos
                == scheduler.inference_count * 1_000_000_000 * if scheduler.inference_elapsed_nanos
                == 0 {
                0int
            } else {
                rates.inference_fps.denominator as int
            }
            &&& rates.decode_fps.numerator * scheduler.decode_elapsed_nanos
                == scheduler.decode_count * 1_000_000_000 * if scheduler.decode_elapsed_nanos == 0 {
                0int
            } else {
                rates.decode_fps.denominator as int
            }
            &&& rates.encode_fps.numerator * scheduler.encode_elapsed_nanos
                == scheduler.encode_count * 1_000_000_000 * if scheduler.encode_elapsed_nanos == 0 {
                0int
            } else {
                rates.encode_fps.denominator as int
            }
            &&& rates.inference_fps.denominator > 0
            &&& rates.decode_fps.denominator > 0
            &&& rates.encode_fps.denominator > 0
            &&& scheduler.inference_elapsed_nanos == 0 ==> rates.inference_fps.numerator == 0
            &&& scheduler.decode_elapsed_nanos == 0 ==> rates.decode_fps.numerator == 0
            &&& scheduler.encode_elapsed_nanos == 0 ==> rates.encode_fps.numerator == 0
        }),
{
    let rates = scheduler.rates();
    assert(rates.inference_fps.numerator * 0 == 0);
    assert(rates.decode_fps.numerator * 0 == 0);
    assert(rates.encode_fps.numerator * 0 == 0);
}

/// A progress report says how many frames are written, how many are expected, and which
/// part that is, never more than the whole; the rate of the job, times the time since its
/// start, is the number of frames written. The last report says that the whole is done.
pub proof fn reports_say_how_far_the_job_is(scheduler: OutputScheduler, now_nanos: u64)
    requires
        scheduler.well_formed(),
    ensures
        scheduler.progress_report(now_nanos) matches JobUpdate::Progress {
            frame_count,
            frame_count_estimate,
            processing_fps,
            progress,
            cadence_diagnostics,
            performance,
        } && {
            &&& frame_count == scheduler.output_index
            &&& frame_count_estimate == scheduler.frame_count_estimate
            &&& progress.normalized()
            &&& progress.numerator == progress.denominator <==> frame_count
                >= frame_count_estimate
            &&& frame_count <= frame_count_estimate ==> progress.numerator * frame_count_estimate
                == frame_count * progress.denominator
            &&& now_nanos >= 1_000_000 ==> processing_fps.numerator * now_nanos == frame_count
                * 1_000_000_000 * processing_fps.denominator
            &&& now_nanos < 1_000_000 ==> processing_fps.numerator * 1_000_000 == frame_count
                * 1_000_000_000 * processing_fps.denominator
            &&& cadence_diagnostics == scheduler.cadence_diagnostics
            &&& performance == scheduler.rates()
        },
        scheduler.last_report(now_nanos) matches JobUpdate::Progress {
            frame_count,
            frame_count_estimate,
            processing_fps,
            progress,
            cadence_diagnostics,
            performance,
        } && {
            &&& frame_count == scheduler.output_index
            &&& frame_count_estimate == frame_count
            &&& progress.numerator == progress.denominator
            &&& progress.numerator > 0
            &&& cadence_diagnostics == scheduler.cadence_diagnostics
            &&& performance == scheduler.rates()
        },
{
}

/// Reports come a quarter of a second apart at least.
pub proof fn reports_keep_their_distance(scheduler: OutputScheduler, now_nanos: u64)
    ensures
        scheduler.progress_due(now_nanos) <==> now_nanos >= scheduler.progress_at_nanos
            + 250_000_000,
{
}

/// The scale of the timeline is that of the two rates: a source frame and an output frame
/// lie at the same place exactly where they are due at the same time. Nothing is written,
/// timed or counted yet, and the estimate is brought between one frame and the limit.
pub proof fn the_timeline_is_that_of_the_rates(
    target_fps_num: u32,
    target_fps_den: u32,
    source_fps_num: u64,
    source_fps_den: u64,
    frame_count_estimate: u64,
    frame_size: usize,
    source_index: int,
    output_index: int,
)
    requires
        source_index >= 0,
        output_index >= 0,
    ensures
        ({
            let scheduler = OutputScheduler::initial(
                target_fps_num,
                target_fps_den,
                source_fps_num,
                source_fps_den,
                frame_count_estimate,
                frame_size,
            );
            &&& source_index * scheduler.factor_num <= output_index * scheduler.factor_den <==> (
            source_index * source_fps_den) * target_fps_num <= (output_index * target_fps_den)
                * source_fps_num
            &&& scheduler.output_index == 0
            &&& scheduler.frame_size == frame_size
            &&& 1 <= scheduler.frame_count_estimate <= 100_000_000
            &&& 1 <= frame_count_estimate <= 100_000_000 ==> scheduler.frame_count_estimate
                == frame_count_estimate
            &&& frame_count_estimate == 0 ==> scheduler.frame_count_estimate == 1
            &&& frame_count_estimate > 100_000_000 ==> scheduler.frame_count_estimate
                == 100_000_000
            &&& scheduler.progress_at_nanos == 0
            &&& scheduler.decode_count == 0 && scheduler.decode_elapsed_nanos == 0
            &&& scheduler.encode_count == 0 && scheduler.encode_elapsed_nanos == 0
            &&& scheduler.inference_count == 0 && scheduler.inference_elapsed_nanos == 0
            &&& scheduler.cadence_diagnostics.duplicate_frame_count == 0
            &&& scheduler.cadence_diagnostics.cadence_run_count == 0
            &&& scheduler.cadence_diagnostics.long_hold_count == 0
            &&& scheduler.cadence_diagnostics.scene_cut_count == 0
            &&& scheduler.cadence_diagnostics.inference_bypass_count == 0
        }),
{
    lemma_rate_product(target_fps_num, source_fps_den);
    lemma_rate_product(target_fps_den, source_fps_num);
    assert(source_index * (target_fps_num * source_fps_den) == (source_index * source_fps_den)
        * target_fps_num) by (nonlinear_arith);
    assert(output_index * (target_fps_den * source_fps_num) == (output_index * target_fps_den)
        * source_fps_num) by (nonlinear_arith);
}

/// The times that are let through are those from zero up to one: no smaller number of
/// the same sign is refused where a larger one is let through, one is refused, and so is
/// every negative number but zero.
pub proof fn times_inside_are_below_one(timestep_bits: u32, smaller_bits: u32)
    ensures
        smaller_bits <= timestep_bits < 0x8000_0000 && timestep_inside(timestep_bits)
            ==> timestep_inside(smaller_bits),
        timestep_inside(1_065_353_215),
        !timestep_inside(1_065_353_216),
        timestep_bits >= 0x8000_0000 ==> (timestep_inside(timestep_bits) <==> timestep_bits
            == 0x8000_0000),
{
}

} // verus!
