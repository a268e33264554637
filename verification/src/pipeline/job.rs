//! The steps of a job, from checking its configuration to publishing its output.

use crate::app::settings::VideoEncoder;
use crate::cadence::{CadenceDiagnostics, ContentPreset};
use crate::host::{display_text, join_path, path_is_empty};
use crate::pipeline::media::push_failure;
use crate::pipeline::{JobConfiguration, JobUpdate};
use crate::{host, pipeline, text};
use std::path::{Path, PathBuf};
use vstd::prelude::*;

verus! {

/// How stopping both media processes went.
pub struct StoppedProcesses {
    pub decoder_terminated: Result<(), String>,
    pub encoder_terminated: Result<(), String>,
    pub decoder_log: Result<(), String>,
    pub encoder_log: Result<(), String>,
}

/// What a job does next.
pub enum JobStage {
    /// Check the configuration.
    Validate,
    /// Probe the input.
    Probe,
    /// Check the target rate against the input.
    CheckTarget,
    /// Create the inference backend.
    Initialize,
    /// Name the incomplete output.
    NamePartial,
    /// Remove an incomplete output that an earlier job left.
    RemoveStalePartial,
    /// Start the decoder.
    StartDecoder,
    /// Start the encoder.
    StartEncoder,
    /// Start the CPU encoder, because that of the graphics card did not start.
    StartFallbackEncoder,
    /// Stop the decoder, because the encoder did not start.
    StopDecoder(String),
    /// Read, interpolate and write the frames.
    ProcessFrames,
    /// Stop both processes, because processing the frames failed.
    StopProcesses(String),
    /// Remove the incomplete output, because the job was cancelled.
    DiscardPartial(String, StoppedProcesses),
    /// See whether the incomplete output is there.
    FindPartial(String, StoppedProcesses),
    /// Wait for both processes.
    Finalize(CadenceDiagnostics),
    /// Give the incomplete output its final name.
    Publish(CadenceDiagnostics),
    /// The job is over.
    Ended(Result<CadenceDiagnostics, String>),
}

/// What a job does next, without what it carries along.
#[derive(Clone, Copy, Debug, PartialEq, Eq, Structural)]
pub enum StageKind {
    Validate,
    Probe,
    CheckTarget,
    Initialize,
    NamePartial,
    RemoveStalePartial,
    StartDecoder,
    StartEncoder,
    StartFallbackEncoder,
    StopDecoder,
    ProcessFrames,
    StopProcesses,
    DiscardPartial,
    FindPartial,
    Finalize,
    Publish,
    Completed,
    Failed,
}

/// How a step went.
#[derive(Clone, Copy, Debug, PartialEq, Eq, Structural)]
pub enum StepOutcome {
    Succeeded,
    /// It succeeded, but the job was cancelled by then.
    Cancelled,
    /// It failed, but another step can take its place.
    Replaceable,
    Failed,
}

impl StepOutcome {
    /// Whether the step did not do its work.
    pub open spec fn is_failure(self) -> bool {
        self == StepOutcome::Failed || self == StepOutcome::Replaceable
    }
}

/// How a step went, from its result and whether the job was cancelled by then.
pub open spec fn outcome_of<T>(result: Result<T, String>, cancelled: bool) -> StepOutcome {
    if result is Err {
        StepOutcome::Failed
    } else if cancelled {
        StepOutcome::Cancelled
    } else {
        StepOutcome::Succeeded
    }
}

/// What follows a step.
pub open spec fn following(stage: StageKind, outcome: StepOutcome) -> StageKind {
    match stage {
        StageKind::StopDecoder | StageKind::DiscardPartial | StageKind::FindPartial => {
            StageKind::Failed
        },
        StageKind::StartEncoder if outcome == StepOutcome::Replaceable => {
            StageKind::StartFallbackEncoder
        },
        StageKind::StopProcesses => if outcome == StepOutcome::Cancelled {
            StageKind::DiscardPartial
        } else {
            StageKind::FindPartial
        },
        StageKind::Completed => StageKind::Completed,
        StageKind::Failed => StageKind::Failed,
        _ => if outcome.is_failure() {
            match stage {
                StageKind::StartEncoder | StageKind::StartFallbackEncoder => StageKind::StopDecoder,
                StageKind::ProcessFrames => StageKind::StopProcesses,
                _ => StageKind::Failed,
            }
        } else {
            match stage {
                StageKind::Validate => StageKind::Probe,
                StageKind::Probe => StageKind::CheckTarget,
                StageKind::CheckTarget => if outcome == StepOutcome::Cancelled {
                    StageKind::Failed
                } else {
                    StageKind::Initialize
                },
                StageKind::Initialize => StageKind::NamePartial,
                StageKind::NamePartial => StageKind::RemoveStalePartial,
                StageKind::RemoveStalePartial => StageKind::StartDecoder,
                StageKind::StartDecoder => StageKind::StartEncoder,
                StageKind::StartEncoder | StageKind::StartFallbackEncoder => {
                    StageKind::ProcessFrames
                },
                StageKind::ProcessFrames => StageKind::Finalize,
                StageKind::Finalize => StageKind::Publish,
                _ => StageKind::Completed,
            }
        },
    }
}

impl JobStage {
    /// The stage without what it carries along.
    pub open spec fn kind(self) -> StageKind {
        match self {
            JobStage::Validate => StageKind::Validate,
            JobStage::Probe => StageKind::Probe,
            JobStage::CheckTarget => StageKind::CheckTarget,
            JobStage::Initialize => StageKind::Initialize,
            JobStage::NamePartial => StageKind::NamePartial,
            JobStage::RemoveStalePartial => StageKind::RemoveStalePartial,
            JobStage::StartDecoder => StageKind::StartDecoder,
            JobStage::StartEncoder => StageKind::StartEncoder,
            JobStage::StartFallbackEncoder => StageKind::StartFallbackEncoder,
            JobStage::StopDecoder(_) => StageKind::StopDecoder,
            JobStage::ProcessFrames => StageKind::ProcessFrames,
            JobStage::StopProcesses(_) => StageKind::StopProcesses,
            JobStage::DiscardPartial(_, _) => StageKind::DiscardPartial,
            JobStage::FindPartial(_, _) => StageKind::FindPartial,
            JobStage::Finalize(_) => StageKind::Finalize,
            JobStage::Publish(_) => StageKind::Publish,
            JobStage::Ended(Ok(_)) => StageKind::Completed,
            JobStage::Ended(Err(_)) => StageKind::Failed,
        }
    }

    /// How many steps are left at most.
    pub open spec fn steps_left(self) -> nat {
        match self {
            JobStage::Validate => 13,
            JobStage::Probe => 12,
            JobStage::CheckTarget => 11,
            JobStage::Initialize => 10,
            JobStage::NamePartial => 9,
            JobStage::RemoveStalePartial => 8,
            JobStage::StartDecoder => 7,
            JobStage::StartEncoder => 6,
            JobStage::StartFallbackEncoder => 5,
            JobStage::StopDecoder(_) => 1,
            JobStage::ProcessFrames => 4,
            JobStage::StopProcesses(_) => 3,
            JobStage::DiscardPartial(_, _) => 1,
            JobStage::FindPartial(_, _) => 1,
            JobStage::Finalize(_) => 3,
            JobStage::Publish(_) => 2,
            JobStage::Ended(_) => 0,
        }
    }

    /// Whether the job failed with the given message.
    pub open spec fn failed_with(self, message: Seq<char>) -> bool {
        self matches JobStage::Ended(Err(actual)) && actual@ == message
    }

    /// Whether the step does nothing but succeed or fail.
    pub open spec fn is_plain(self) -> bool {
        ||| self is Validate
        ||| self is Probe
        ||| self is CheckTarget
        ||| self is Initialize
        ||| self is NamePartial
        ||| self is RemoveStalePartial
        ||| self is StartDecoder
    }

    /// What follows a step that succeeded.
    pub open spec fn after_success(self) -> JobStage {
        match self {
            JobStage::Validate => JobStage::Probe,
            JobStage::Probe => JobStage::CheckTarget,
            JobStage::CheckTarget => JobStage::Initialize,
            JobStage::Initialize => JobStage::NamePartial,
            JobStage::NamePartial => JobStage::RemoveStalePartial,
            JobStage::RemoveStalePartial => JobStage::StartDecoder,
            JobStage::StartDecoder => JobStage::StartEncoder,
            JobStage::StartEncoder => JobStage::ProcessFrames,
            JobStage::StartFallbackEncoder => JobStage::ProcessFrames,
            other => other,
        }
    }

    /// The phase that the front end hears of when the step begins, if it does.
    pub fn phase(&self) -> (phase: Option<&'static str>)
        ensures
            match *self {
                JobStage::Probe => phase matches Some(text) && text@ == "Probing video"@,
                JobStage::Initialize => phase matches Some(text) && text@
                    == "Initializing RIFE 4.25"@,
                JobStage::StartDecoder => phase matches Some(text) && text@
                    == "Starting media pipeline"@,
                JobStage::Finalize(_) => phase matches Some(text) && text@ == "Finalizing output"@,
                _ => phase is None,
            },
    {
        match self {
            JobStage::Probe => Some("Probing video"),
            JobStage::Initialize => Some("Initializing RIFE 4.25"),
            JobStage::StartDecoder => Some("Starting media pipeline"),
            JobStage::Finalize(_) => Some("Finalizing output"),
            _ => None,
        }
    }

    /// Takes in how a plain step went. A failure ends the job with the step's message. A
    /// job that is cancelled by then ends before the backend is created.
    pub fn performed(self, result: Result<(), String>, cancelled: bool) -> (next: JobStage)
        requires
            self.is_plain(),
        ensures
            next.steps_left() < self.steps_left(),
            next.kind() == following(self.kind(), outcome_of(result, cancelled)),
            match result {
                Ok(_) => if self is CheckTarget && cancelled {
                    next.failed_with("job cancelled"@)
                } else {
                    next == self.after_success()
                },
                Err(error) => next == JobStage::Ended(Err(error)),
            },
    {
        match result {
            Ok(_) => match self {
                JobStage::Validate => JobStage::Probe,
                JobStage::Probe => JobStage::CheckTarget,
                JobStage::CheckTarget => if cancelled {
                    JobStage::Ended(Err("job cancelled".to_owned()))
                } else {
                    JobStage::Initialize
                },
                JobStage::Initialize => JobStage::NamePartial,
                JobStage::NamePartial => JobStage::RemoveStalePartial,
                JobStage::RemoveStalePartial => JobStage::StartDecoder,
                JobStage::StartDecoder => JobStage::StartEncoder,
                other => other,
            },
            Err(error) => JobStage::Ended(Err(error)),
        }
    }

    /// Takes in how starting an encoder went. Where that of the graphics card did not
    /// start, the CPU encoder is started in its place; where that did not start either,
    /// the decoder is stopped.
    pub fn encoder_started(self, encoder: VideoEncoder, result: Result<(), String>) -> (next:
        JobStage)
        requires
            self is StartEncoder || self is StartFallbackEncoder,
        ensures
            next.steps_left() < self.steps_left(),
            next.kind() == following(
                self.kind(),
                match result {
                    Ok(_) => StepOutcome::Succeeded,
                    Err(_) => if encoder == VideoEncoder::NvidiaH264 {
                        StepOutcome::Replaceable
                    } else {
                        StepOutcome::Failed
                    },
                },
            ),
            next == match result {
                Ok(_) => JobStage::ProcessFrames,
                Err(error) => if self is StartEncoder && encoder == VideoEncoder::NvidiaH264 {
                    JobStage::StartFallbackEncoder
                } else {
                    JobStage::StopDecoder(error)
                },
            },
    {
        match (self, result) {
            (_, Ok(_)) => JobStage::ProcessFrames,
            (JobStage::StartEncoder, Err(error)) => if encoder == VideoEncoder::NvidiaH264 {
                JobStage::StartFallbackEncoder
            } else {
                JobStage::StopDecoder(error)
            },
            (_, Err(error)) => JobStage::StopDecoder(error),
        }
    }

    /// Takes in how stopping the decoder went: the job ends with the encoder's
    /// failure, and the failures of the cleanup after it.
    pub fn decoder_stopped(self, terminated: Result<(), String>, log: Result<(), String>) -> (next:
        JobStage)
        requires
            self is StopDecoder,
        ensures
            next.steps_left() < self.steps_left(),
            next.kind() == StageKind::Failed,
            next.failed_with(
                pipeline::media::with_cleanup(
                    pipeline::media::with_cleanup(
                        self->StopDecoder_0@,
                        "; decoder cleanup failed: "@,
                        pipeline::media::failure_of(terminated),
                    ),
                    "; decoder diagnostics failed during cleanup: "@,
                    pipeline::media::failure_of(log),
                ),
            ),
    {
        match self {
            JobStage::StopDecoder(error) => {
                let mut message = error;
                push_failure(&mut message, "; decoder cleanup failed: ", &terminated);
                push_failure(&mut message, "; decoder diagnostics failed during cleanup: ", &log);
                JobStage::Ended(Err(message))
            },
            other => other,
        }
    }

    /// Takes in how processing the frames went.
    pub fn frames_processed(self, result: Result<CadenceDiagnostics, String>) -> (next: JobStage)
        requires
            self is ProcessFrames,
        ensures
            next.steps_left() < self.steps_left(),
            next.kind() == following(self.kind(), outcome_of(result, false)),
            next == match result {
                Ok(diagnostics) => JobStage::Finalize(diagnostics),
                Err(error) => JobStage::StopProcesses(error),
            },
    {
        match result {
            Ok(diagnostics) => JobStage::Finalize(diagnostics),
            Err(error) => JobStage::StopProcesses(error),
        }
    }

    /// Takes in how stopping both processes went. A cancelled job removes its
    /// incomplete output; a failed one leaves it for recovery.
    pub fn processes_stopped(self, stopped: StoppedProcesses, cancelled: bool) -> (next: JobStage)
        requires
            self is StopProcesses,
        ensures
            next.steps_left() < self.steps_left(),
            next.kind() == following(
                self.kind(),
                if cancelled {
                    StepOutcome::Cancelled
                } else {
                    StepOutcome::Succeeded
                },
            ),
            next == if cancelled {
                JobStage::DiscardPartial(self->StopProcesses_0, stopped)
            } else {
                JobStage::FindPartial(self->StopProcesses_0, stopped)
            },
    {
        match self {
            JobStage::StopProcesses(error) => if cancelled {
                JobStage::DiscardPartial(error, stopped)
            } else {
                JobStage::FindPartial(error, stopped)
            },
            other => other,
        }
    }

    /// Takes in that the incomplete output was removed, or whether it is there: the
    /// job ends with the failure of processing, where the incomplete output can be
    /// found, and the failures of the cleanup.
    pub fn partial_settled(self, partial_path: &Path, partial_exists: bool) -> (next: JobStage)
        requires
            self is DiscardPartial || self is FindPartial,
        ensures
            next.steps_left() < self.steps_left(),
            next.kind() == StageKind::Failed,
            next.failed_with(
                match self {
                    JobStage::DiscardPartial(error, stopped) => stopped_message(
                        error@,
                        stopped,
                        None,
                    ),
                    JobStage::FindPartial(error, stopped) => stopped_message(
                        error@,
                        stopped,
                        if partial_exists {
                            Some(host::path_display(host::path_bytes(partial_path)))
                        } else {
                            None
                        },
                    ),
                    _ => ""@,
                },
            ),
    {
        match self {
            JobStage::DiscardPartial(error, stopped) => {
                let mut message = error;
                push_stopped(&mut message, &stopped);
                JobStage::Ended(Err(message))
            },
            JobStage::FindPartial(error, stopped) => {
                let mut message = error;
                if partial_exists {
                    let place = display_text(partial_path);
                    message.append("; recoverable partial output remains at ");
                    message.append(place.as_str());
                }
                push_stopped(&mut message, &stopped);
                JobStage::Ended(Err(message))
            },
            other => other,
        }
    }

    /// Takes in how waiting for both processes went, and whether each succeeded. The
    /// output is published only where both did; every failure says where the incomplete
    /// output remains.
    pub fn processes_waited(
        self,
        decoder: Result<bool, String>,
        encoder: Result<bool, String>,
        partial_path: &Path,
    ) -> (next: JobStage)
        requires
            self is Finalize,
        ensures
            next.steps_left() < self.steps_left(),
            next.kind() == following(
                self.kind(),
                if decoder == Ok::<bool, String>(true) && encoder == Ok::<bool, String>(true) {
                    StepOutcome::Succeeded
                } else {
                    StepOutcome::Failed
                },
            ),
            match (decoder, encoder) {
                (Err(error), _) => next.failed_with(unfinished_message(error@, partial_path)),
                (Ok(_), Err(error)) => next.failed_with(unfinished_message(error@, partial_path)),
                (Ok(decoded), Ok(encoded)) => if !decoded {
                    next.failed_with(
                        "FFmpeg decoder failed; recoverable partial output, if any, remains at "@
                            + host::path_display(host::path_bytes(partial_path)),
                    )
                } else if !encoded {
                    next.failed_with(
                        "FFmpeg encoder failed; an input stream may not be compatible with MKV. Recoverable partial output, if any, remains at "@
                            + host::path_display(host::path_bytes(partial_path)),
                    )
                } else {
                    next == JobStage::Publish(self->Finalize_0)
                },
            },
    {
        let diagnostics = match self {
            JobStage::Finalize(diagnostics) => diagnostics,
            other => return other,
        };
        let decoded = match decoder {
            Ok(decoded) => decoded,
            Err(error) => {
                let mut message = error;
                push_unfinished(&mut message, partial_path);
                return JobStage::Ended(Err(message));
            },
        };
        let encoded = match encoder {
            Ok(encoded) => encoded,
            Err(error) => {
                let mut message = error;
                push_unfinished(&mut message, partial_path);
                return JobStage::Ended(Err(message));
            },
        };
        if !decoded {
            let place = display_text(partial_path);
            let mut message =
                "FFmpeg decoder failed; recoverable partial output, if any, remains at ".to_owned();
            message.append(place.as_str());
            return JobStage::Ended(Err(message));
        }
        if !encoded {
            let place = display_text(partial_path);
            let mut message =
                "FFmpeg encoder failed; an input stream may not be compatible with MKV. Recoverable partial output, if any, remains at ".to_owned();
            message.append(place.as_str());
            return JobStage::Ended(Err(message));
        }
        JobStage::Publish(diagnostics)
    }

    /// Takes in how giving the output its final name went.
    pub fn published(self, result: Result<(), String>, partial_path: &Path) -> (next: JobStage)
        requires
            self is Publish,
        ensures
            next.steps_left() < self.steps_left(),
            next.kind() == following(self.kind(), outcome_of(result, false)),
            match result {
                Ok(_) => next == JobStage::Ended(Ok(self->Publish_0)),
                Err(error) => next.failed_with(
                    "failed to publish completed output: "@ + error@
                        + ". Completed partial output remains at "@ + host::path_display(
                        host::path_bytes(partial_path),
                    ),
                ),
            },
    {
        match self {
            JobStage::Publish(diagnostics) => match result {
                Ok(_) => JobStage::Ended(Ok(diagnostics)),
                Err(error) => {
                    let place = display_text(partial_path);
                    let mut message = "failed to publish completed output: ".to_owned();
                    message.append(error.as_str());
                    message.append(". Completed partial output remains at ");
                    message.append(place.as_str());
                    JobStage::Ended(Err(message))
                },
            },
            other => other,
        }
    }
}

/// A job whose steps all succeed takes every one of them, in order, before it
/// processes frames.
pub proof fn successful_steps_lead_to_the_frames(stage: JobStage)
    requires
        stage.is_plain(),
    ensures
        stage.after_success().is_plain() || stage.after_success() is StartEncoder,
        stage.after_success().steps_left() == stage.steps_left() - 1,
        JobStage::StartEncoder.after_success() is ProcessFrames,
{
}

/// The CPU encoder takes the place of another exactly where that did not start and can
/// be replaced, and its own failure ends the job.
pub proof fn only_replaceable_encoders_fall_back(stage: StageKind, outcome: StepOutcome)
    ensures
        following(stage, outcome) == StageKind::StartFallbackEncoder <==> stage
            == StageKind::StartEncoder && outcome == StepOutcome::Replaceable,
        following(StageKind::StartFallbackEncoder, StepOutcome::Replaceable)
            == StageKind::StopDecoder,
        following(StageKind::StartFallbackEncoder, StepOutcome::Failed) == StageKind::StopDecoder,
{
}

/// A job is complete only once its output has its final name, which it gets only after
/// every frame was processed and both processes ended well.
pub proof fn only_published_jobs_complete(stage: StageKind, outcome: StepOutcome)
    requires
        stage != StageKind::Completed,
    ensures
        following(stage, outcome) == StageKind::Completed ==> stage == StageKind::Publish
            && !outcome.is_failure(),
        following(stage, outcome) == StageKind::Publish ==> stage == StageKind::Finalize
            && !outcome.is_failure(),
        following(stage, outcome) == StageKind::Finalize ==> stage == StageKind::ProcessFrames
            && !outcome.is_failure(),
{
}

/// The incomplete output of a job is removed exactly where the job was cancelled while
/// its frames were processed; one that failed leaves it for recovery.
pub proof fn only_cancelled_jobs_discard_their_output(stage: StageKind, outcome: StepOutcome)
    ensures
        following(stage, outcome) == StageKind::DiscardPartial <==> stage
            == StageKind::StopProcesses && outcome == StepOutcome::Cancelled,
        following(stage, outcome) == StageKind::FindPartial <==> stage == StageKind::StopProcesses
            && outcome != StepOutcome::Cancelled,
        following(stage, outcome) == StageKind::StopProcesses <==> stage == StageKind::ProcessFrames
            && outcome.is_failure(),
{
}

/// What a job that could not be finished ends with: the failure, and where the
/// incomplete output remains.
pub open spec fn unfinished_message(error: Seq<char>, partial_path: &Path) -> Seq<char> {
    error + "; recoverable partial output, if any, remains at "@ + host::path_display(
        host::path_bytes(partial_path),
    )
}

fn push_unfinished(message: &mut String, partial_path: &Path)
    ensures
        final(message)@ == unfinished_message(old(message)@, partial_path),
{
    let place = display_text(partial_path);
    message.append("; recoverable partial output, if any, remains at ");
    message.append(place.as_str());
}

/// What a job whose frames could not be processed ends with: the failure, where the
/// incomplete output remains, and the failures of the cleanup.
pub open spec fn stopped_message(
    error: Seq<char>,
    stopped: StoppedProcesses,
    partial: Option<Seq<char>>,
) -> Seq<char> {
    pipeline::media::with_cleanup(
        pipeline::media::with_cleanup(
            pipeline::media::with_cleanup(
                pipeline::media::with_cleanup(
                    pipeline::media::with_cleanup(
                        error,
                        "; recoverable partial output remains at "@,
                        partial,
                    ),
                    "; decoder cleanup failed: "@,
                    pipeline::media::failure_of(stopped.decoder_terminated),
                ),
                "; encoder cleanup failed: "@,
                pipeline::media::failure_of(stopped.encoder_terminated),
            ),
            "; decoder diagnostics failed: "@,
            pipeline::media::failure_of(stopped.decoder_log),
        ),
        "; encoder diagnostics failed: "@,
        pipeline::media::failure_of(stopped.encoder_log),
    )
}

fn push_stopped(message: &mut String, stopped: &StoppedProcesses)
    ensures
        final(message)@ == stopped_message(old(message)@, *stopped, None),
{
    push_failure(message, "; decoder cleanup failed: ", &stopped.decoder_terminated);
    push_failure(message, "; encoder cleanup failed: ", &stopped.encoder_terminated);
    push_failure(message, "; decoder diagnostics failed: ", &stopped.decoder_log);
    push_failure(message, "; encoder diagnostics failed: ", &stopped.encoder_log);
}

/// The last thing that a job tells the front end: that it is complete, that it was
/// cancelled, or why it failed.
pub open spec fn last_update(
    output_path: PathBuf,
    result: Result<CadenceDiagnostics, String>,
    cancelled: bool,
) -> JobUpdate {
    match result {
        Ok(cadence_diagnostics) => JobUpdate::Completed { path: output_path, cadence_diagnostics },
        Err(error) => if cancelled {
            JobUpdate::Cancelled
        } else {
            JobUpdate::Failed(error)
        },
    }
}

/// The last thing that a job tells the front end: that it is complete, that it was
/// cancelled, or why it failed.
pub fn terminal_update(
    output_path: &PathBuf,
    result: Result<CadenceDiagnostics, String>,
    cancelled: bool,
) -> (update: JobUpdate)
    ensures
        update == last_update(*output_path, result, cancelled),
{
    match result {
        Ok(cadence_diagnostics) => JobUpdate::Completed {
            path: output_path.clone(),
            cadence_diagnostics,
        },
        Err(error) => if cancelled {
            JobUpdate::Cancelled
        } else {
            JobUpdate::Failed(error)
        },
    }
}

/// The name of a content preset.
pub open spec fn preset_name_text(preset: ContentPreset) -> Seq<char> {
    match preset {
        ContentPreset::Movie => "Movie"@,
        ContentPreset::Anime => "Anime"@,
    }
}

/// The name of a content preset.
pub fn preset_name(preset: ContentPreset) -> (name: &'static str)
    ensures
        name@ == preset_name_text(preset),
{
    match preset {
        ContentPreset::Movie => "Movie",
        ContentPreset::Anime => "Anime",
    }
}

/// What the log says when a job starts.
pub open spec fn start_text(preset: ContentPreset, input: Seq<char>, output: Seq<char>) -> Seq<
    char,
> {
    "starting "@ + preset_name_text(preset) + " job: "@ + input + " -> "@ + output
}

/// What the log says when a job starts.
pub fn start_message(configuration: &JobConfiguration) -> (message: String)
    ensures
        message@ == start_text(
            configuration.content_preset,
            host::path_display(host::path_buf_bytes(configuration.input_path)),
            host::path_display(host::path_buf_bytes(configuration.output_path)),
        ),
{
    let input = display_text(configuration.input_path.as_path());
    let output = display_text(configuration.output_path.as_path());
    let mut message = "starting ".to_owned();
    message.append(preset_name(configuration.content_preset));
    message.append(" job: ");
    message.append(input.as_str());
    message.append(" -> ");
    message.append(output.as_str());
    message
}

/// What the log says when the CPU encoder takes the place of the graphics card's.
pub fn fallback_message(error: &str) -> (message: String)
    ensures
        message@ == "NVENC could not start; using the CPU encoder: "@ + error@,
{
    let mut message = "NVENC could not start; using the CPU encoder: ".to_owned();
    message.append(error);
    message
}

/// What the log says when a job fails.
pub fn failure_message(error: &str) -> (message: String)
    ensures
        message@ == "job failed: "@ + error@,
{
    let mut message = "job failed: ".to_owned();
    message.append(error);
    message
}

/// What the front end shows of a failed job: the failure, where the log is, and its
/// last lines.
pub fn failure_report(error: &str, log_path: &Path, summary: &str) -> (report: String)
    ensures
        report@ == error@ + "\nDiagnostics: "@ + host::path_display(host::path_bytes(log_path))
            + "\n"@ + summary@,
{
    let place = display_text(log_path);
    let mut report = error.to_owned();
    report.append("\nDiagnostics: ");
    report.append(place.as_str());
    report.append("\n");
    report.append(summary);
    report
}

/// The files that a model directory holds.
pub fn model_file_paths(model_directory: &Path) -> (paths: (PathBuf, PathBuf))
    ensures
        host::path_buf_bytes(paths.0) == host::path_joined(
            host::path_bytes(model_directory),
            "flownet.param"@,
        ),
        host::path_buf_bytes(paths.1) == host::path_joined(
            host::path_bytes(model_directory),
            "flownet.bin"@,
        ),
{
    (join_path(model_directory, "flownet.param"), join_path(model_directory, "flownet.bin"))
}

/// Whether a directory holds the model: it is one, and both files are there.
pub fn model_files_exist(is_directory: bool, has_parameters: bool, has_weights: bool) -> (exist:
    bool)
    ensures
        exist == (is_directory && has_parameters && has_weights),
{
    is_directory && has_parameters && has_weights
}

/// The paths of a list, as bytes.
pub open spec fn paths_bytes(paths: Seq<PathBuf>) -> Seq<Seq<u8>> {
    paths.map_values(|path: PathBuf| host::path_buf_bytes(path))
}

/// An optional path, as bytes.
pub open spec fn option_path_bytes(path: Option<&Path>) -> Option<Seq<u8>> {
    match path {
        Some(path) => Some(host::path_bytes(path)),
        None => None,
    }
}

/// The directories that may hold the model, in the order in which they are tried: the
/// one that the environment names, and no other; or else the installed one, beside
/// the directory of the executable, the one next to the executable itself, and the one
/// of the source tree.
pub open spec fn model_directories_of(
    environment: Option<Seq<u8>>,
    executable: Seq<u8>,
    source_tree: Seq<u8>,
) -> Result<Seq<Seq<u8>>, Seq<char>> {
    match environment {
        Some(directory) => if directory.len() == 0 {
            Err("INTERPOLATE_MODEL_DIRECTORY must not be empty"@)
        } else {
            Ok(seq![directory])
        },
        None => {
            let development = host::path_joined(source_tree, "models/rife-v4.25"@);
            match host::path_parent(executable) {
                None => Ok(seq![development]),
                Some(directory) => {
                    let adjacent = host::path_joined(directory, "models/rife-v4.25"@);
                    match host::path_parent(directory) {
                        None => Ok(seq![adjacent, development]),
                        Some(root) => Ok(
                            seq![
                                host::path_joined(root, "share/interpolate/models/rife-v4.25"@),
                                adjacent,
                                development,
                            ],
                        ),
                    }
                },
            }
        },
    }
}

/// A list of paths as bytes, or the failure as characters.
pub open spec fn paths_result(result: Result<Vec<PathBuf>, String>) -> Result<
    Seq<Seq<u8>>,
    Seq<char>,
> {
    match result {
        Ok(paths) => Ok(paths_bytes(paths@)),
        Err(message) => Err(message@),
    }
}

/// The directories that may hold the model, in the order in which they are tried.
/// The executable matters only where the environment names no directory.
pub fn model_directories(
    environment: Option<&Path>,
    executable: &Path,
    source_tree: &Path,
) -> (result: Result<Vec<PathBuf>, String>)
    ensures
        paths_result(result) == model_directories_of(
            option_path_bytes(environment),
            host::path_bytes(executable),
            host::path_bytes(source_tree),
        ),
{
    let mut directories: Vec<PathBuf> = Vec::new();
    if let Some(directory) = environment {
        if path_is_empty(directory) {
            return Err("INTERPOLATE_MODEL_DIRECTORY must not be empty".to_owned());
        }
        directories.push(directory.to_path_buf());
        proof {
            assert(paths_bytes(directories@) =~= seq![host::path_bytes(directory)]);
        }
        return Ok(directories);
    }
    if let Some(directory) = executable.parent() {
        if let Some(root) = directory.parent() {
            directories.push(join_path(root, "share/interpolate/models/rife-v4.25"));
        }
        directories.push(join_path(directory, "models/rife-v4.25"));
    }
    directories.push(join_path(source_tree, "models/rife-v4.25"));
    proof {
        let expected = model_directories_of(
            option_path_bytes(environment),
            host::path_bytes(executable),
            host::path_bytes(source_tree),
        );
        assert(paths_bytes(directories@) =~= expected->Ok_0);
    }
    Ok(directories)
}

/// The position of the first `true`, or the length where there is none.
pub open spec fn first_true(found: Seq<bool>) -> int
    decreases found.len(),
{
    if found.len() == 0 || found[0] {
        0
    } else {
        1 + first_true(found.drop_first())
    }
}

proof fn lemma_first_true(found: Seq<bool>, position: int)
    requires
        0 <= position <= found.len(),
        forall|i: int| 0 <= i < position ==> !found[i],
        position < found.len() ==> found[position],
    ensures
        first_true(found) == position,
    decreases found.len(),
{
    if position > 0 {
        assert(!found[0]);
        let rest = found.drop_first();
        assert forall|i: int| 0 <= i < position - 1 implies !rest[i] by {
            assert(rest[i] == found[i + 1]);
        }
        lemma_first_true(rest, position - 1);
    }
}

/// The first of some paths that was found, if any was.
pub fn first_found(paths: &Vec<PathBuf>, found: &Vec<bool>) -> (path: Option<PathBuf>)
    requires
        paths@.len() == found@.len(),
    ensures
        path == if first_true(found@) < found@.len() {
            Some(paths@[first_true(found@)])
        } else {
            None
        },
{
    let mut index: usize = 0;
    while index < found.len()
        invariant
            index <= found@.len(),
            paths@.len() == found@.len(),
            forall|i: int| 0 <= i < index ==> !found@[i],
        decreases found@.len() - index,
    {
        if found[index] {
            proof {
                lemma_first_true(found@, index as int);
            }
            return Some(paths[index].clone());
        }
        index = index + 1;
    }
    proof {
        lemma_first_true(found@, index as int);
    }
    None
}

/// The model directory to use: the first that holds the model.
pub fn resolve_model_directory(
    from_environment: bool,
    directories: &Vec<PathBuf>,
    found: &Vec<bool>,
) -> (result: Result<PathBuf, String>)
    requires
        directories@.len() == found@.len(),
    ensures
        text::result_text(result) == if first_true(found@) < found@.len() {
            Ok(directories@[first_true(found@)])
        } else if from_environment {
            Err("INTERPOLATE_MODEL_DIRECTORY does not contain the RIFE 4.25 model"@)
        } else {
            Err("RIFE 4.25 model files could not be located"@)
        },
{
    match first_found(directories, found) {
        Some(directory) => Ok(directory),
        None => if from_environment {
            Err("INTERPOLATE_MODEL_DIRECTORY does not contain the RIFE 4.25 model".to_owned())
        } else {
            Err("RIFE 4.25 model files could not be located".to_owned())
        },
    }
}

/// The first that was found stands behind none that was, and is one that was; where none
/// was found there is none.
pub proof fn nothing_is_found_before_the_first(found: Seq<bool>)
    ensures
        0 <= first_true(found) <= found.len(),
        forall|i: int| 0 <= i < first_true(found) ==> !#[trigger] found[i],
        first_true(found) < found.len() ==> found[first_true(found)],
        first_true(found) < found.len() <==> found.contains(true),
    decreases found.len(),
{
    if found.len() > 0 && !found[0] {
        let rest = found.drop_first();
        nothing_is_found_before_the_first(rest);
        assert forall|i: int| 0 <= i < first_true(found) implies !#[trigger] found[i] by {
            if i > 0 {
                assert(rest[i - 1] == found[i]);
            }
        }
        if first_true(found) < found.len() {
            assert(rest[first_true(rest)] == found[first_true(found)]);
        }
    }
    if found.contains(true) {
        let position = found.index_of(true);
        assert(found[position]);
    }
}

/// The steps that a job takes where each of them succeeds.
pub open spec fn steps_of_a_job() -> Seq<StageKind> {
    seq![
        StageKind::Validate,
        StageKind::Probe,
        StageKind::CheckTarget,
        StageKind::Initialize,
        StageKind::NamePartial,
        StageKind::RemoveStalePartial,
        StageKind::StartDecoder,
        StageKind::StartEncoder,
        StageKind::ProcessFrames,
        StageKind::Finalize,
        StageKind::Publish,
        StageKind::Completed,
    ]
}

/// A job that nothing stops takes its steps in order, and none twice; being cancelled
/// ends it at once only before the backend is created; and a failure ends it after what
/// was started has been stopped.
pub proof fn steps_come_in_order(step: int)
    requires
        0 <= step < 11,
    ensures
        following(steps_of_a_job()[step], StepOutcome::Succeeded) == steps_of_a_job()[step + 1],
        step != 2 ==> following(steps_of_a_job()[step], StepOutcome::Cancelled)
            == steps_of_a_job()[step + 1],
        following(StageKind::CheckTarget, StepOutcome::Cancelled) == StageKind::Failed,
        following(StageKind::StartFallbackEncoder, StepOutcome::Succeeded)
            == StageKind::ProcessFrames,
        following(steps_of_a_job()[step], StepOutcome::Failed) == if step == 7 {
            StageKind::StopDecoder
        } else if step == 8 {
            StageKind::StopProcesses
        } else {
            StageKind::Failed
        },
        following(StageKind::StopDecoder, StepOutcome::Succeeded) == StageKind::Failed,
        following(StageKind::DiscardPartial, StepOutcome::Succeeded) == StageKind::Failed,
        following(StageKind::FindPartial, StepOutcome::Succeeded) == StageKind::Failed,
{
}

/// What follows a step that succeeded is the same with what the stages carry along and
/// without.
pub proof fn stages_and_kinds_agree(stage: JobStage)
    requires
        stage.is_plain() || stage is StartEncoder || stage is StartFallbackEncoder,
    ensures
        stage.after_success().kind() == following(stage.kind(), StepOutcome::Succeeded),
        stage.after_success().kind() != stage.kind(),
{
}

/// A job that is over goes nowhere, however anything else went.
pub proof fn ended_jobs_stay_ended(outcome: StepOutcome)
    ensures
        following(StageKind::Completed, outcome) == StageKind::Completed,
        following(StageKind::Failed, outcome) == StageKind::Failed,
{
}

/// A step went as its result says: a failure counts before anything else.
pub proof fn failures_count_before_being_cancelled<T>(result: Result<T, String>, cancelled: bool)
    ensures
        outcome_of(result, cancelled).is_failure() <==> result is Err,
        outcome_of(result, cancelled) == StepOutcome::Cancelled <==> result is Ok && cancelled,
        outcome_of(result, cancelled) == StepOutcome::Succeeded <==> result is Ok && !cancelled,
{
}

/// The front end is told at last what became of the job: that it is complete exactly
/// where it is, with its output and what was found; and else its failure, unless the job
/// was cancelled.
pub proof fn the_last_update_tells_the_result(
    output_path: PathBuf,
    result: Result<CadenceDiagnostics, String>,
    cancelled: bool,
)
    ensures
        last_update(output_path, result, cancelled) is Completed <==> result is Ok,
        last_update(output_path, result, cancelled) is Cancelled <==> result is Err && cancelled,
        last_update(output_path, result, cancelled) is Failed <==> result is Err && !cancelled,
        last_update(output_path, result, cancelled) matches JobUpdate::Completed {
            path,
            cadence_diagnostics,
        } ==> path == output_path && result == Ok::<CadenceDiagnostics, String>(
            cadence_diagnostics,
        ),
        last_update(output_path, result, cancelled) matches JobUpdate::Failed(error) ==> result
            == Err::<CadenceDiagnostics, String>(error),
{
}

/// The log says of a job that starts what it reads, what it writes, and its content
/// preset, whose names differ.
pub proof fn starting_jobs_are_told_apart(preset: ContentPreset, input: Seq<char>, output: Seq<char>)
    ensures
        text::holds_text(start_text(preset, input, output), preset_name_text(preset)),
        text::holds_text(start_text(preset, input, output), input + " -> "@ + output),
        preset_name_text(ContentPreset::Movie) != preset_name_text(ContentPreset::Anime),
        preset == ContentPreset::Movie ==> text::holds_text(
            start_text(preset, input, output),
            "Movie"@,
        ),
{
    reveal_strlit("Movie");
    reveal_strlit("Anime");
    assert("Movie"@[0] == 'M' && "Anime"@[0] == 'A');
    let name = preset_name_text(preset);
    let whole = start_text(preset, input, output);
    assert(whole =~= "starting "@ + name + (" job: "@ + input + " -> "@ + output));
    assert(whole =~= ("starting "@ + name + " job: "@) + (input + " -> "@ + output)
        + Seq::<char>::empty());
}

/// Where the environment names a directory, no other is tried, and it has to have a name;
/// else the last that is tried is that of the source tree, and before it those that
/// belong to the executable, the one beside it last.
pub proof fn model_directories_are_tried_in_order(
    environment: Option<Seq<u8>>,
    executable: Seq<u8>,
    source_tree: Seq<u8>,
)
    ensures
        ({
            let tried = model_directories_of(environment, executable, source_tree);
            &&& tried is Err <==> environment is Some && environment->0.len() == 0
            &&& environment is Some && environment->0.len() > 0 ==> tried
                == Ok::<Seq<Seq<u8>>, Seq<char>>(seq![environment->0])
            &&& environment is None ==> {
                &&& 1 <= tried->Ok_0.len() <= 3
                &&& tried->Ok_0.last() == host::path_joined(source_tree, "models/rife-v4.25"@)
                &&& tried->Ok_0.len() >= 2 <==> host::path_parent(executable) is Some
                &&& host::path_parent(executable) matches Some(directory) ==> {
                    &&& tried->Ok_0[tried->Ok_0.len() - 2] == host::path_joined(
                        directory,
                        "models/rife-v4.25"@,
                    )
                    &&& tried->Ok_0.len() == 3 <==> host::path_parent(directory) is Some
                    &&& host::path_parent(directory) matches Some(root) ==> tried->Ok_0[0]
                        == host::path_joined(root, "share/interpolate/models/rife-v4.25"@)
                }
            }
        }),
{
}

proof fn lemma_cleanup_holds(message: Seq<char>, cleanup: Seq<char>, failure: Option<Seq<char>>)
    ensures
        message.is_prefix_of(pipeline::media::with_cleanup(message, cleanup, failure)),
        forall|part: Seq<char>| #[trigger]
            text::holds_text(message, part) ==> text::holds_text(
                pipeline::media::with_cleanup(message, cleanup, failure),
                part,
            ),
        failure matches Some(failure) ==> text::holds_text(
            pipeline::media::with_cleanup(message, cleanup, Some(failure)),
            failure,
        ),
{
    let whole = pipeline::media::with_cleanup(message, cleanup, failure);
    if let Some(failure) = failure {
        assert(whole =~= (message + cleanup) + failure + Seq::<char>::empty());
        assert(message =~= whole.take(message.len() as int));
        assert forall|part: Seq<char>| #[trigger]
            text::holds_text(message, part) implies text::holds_text(whole, part) by {
            text::longer_texts_hold_as_much(
                Seq::empty(),
                message,
                cleanup + failure,
                part,
            );
            assert(whole =~= Seq::<char>::empty() + message + (cleanup + failure));
        }
    } else {
        assert(message =~= whole.take(message.len() as int));
    }
}

/// A job that could not process its frames ends with that failure first, says where the
/// incomplete output remains where it does, and loses no failure of the cleanup; where
/// there was none it says nothing else.
pub proof fn stopped_jobs_lose_no_failure(
    error: Seq<char>,
    stopped: StoppedProcesses,
    partial: Option<Seq<char>>,
)
    ensures
        ({
            let message = stopped_message(error, stopped, partial);
            &&& error.is_prefix_of(message)
            &&& partial matches Some(place) ==> text::holds_text(message, place)
            &&& stopped.decoder_terminated matches Err(failure) ==> text::holds_text(
                message,
                failure@,
            )
            &&& stopped.encoder_terminated matches Err(failure) ==> text::holds_text(
                message,
                failure@,
            )
            &&& stopped.decoder_log matches Err(failure) ==> text::holds_text(message, failure@)
            &&& stopped.encoder_log matches Err(failure) ==> text::holds_text(message, failure@)
            &&& message == error <==> partial is None && stopped.decoder_terminated is Ok
                && stopped.encoder_terminated is Ok && stopped.decoder_log is Ok
                && stopped.encoder_log is Ok
        }),
{
    reveal_strlit("; recoverable partial output remains at ");
    reveal_strlit("; decoder cleanup failed: ");
    reveal_strlit("; encoder cleanup failed: ");
    reveal_strlit("; decoder diagnostics failed: ");
    reveal_strlit("; encoder diagnostics failed: ");
    let first = pipeline::media::with_cleanup(
        error,
        "; recoverable partial output remains at "@,
        partial,
    );
    let second = pipeline::media::with_cleanup(
        first,
        "; decoder cleanup failed: "@,
        pipeline::media::failure_of(stopped.decoder_terminated),
    );
    let third = pipeline::media::with_cleanup(
        second,
        "; encoder cleanup failed: "@,
        pipeline::media::failure_of(stopped.encoder_terminated),
    );
    let fourth = pipeline::media::with_cleanup(
        third,
        "; decoder diagnostics failed: "@,
        pipeline::media::failure_of(stopped.decoder_log),
    );
    lemma_cleanup_holds(error, "; recoverable partial output remains at "@, partial);
    lemma_cleanup_holds(
        first,
        "; decoder cleanup failed: "@,
        pipeline::media::failure_of(stopped.decoder_terminated),
    );
    lemma_cleanup_holds(
        second,
        "; encoder cleanup failed: "@,
        pipeline::media::failure_of(stopped.encoder_terminated),
    );
    lemma_cleanup_holds(
        third,
        "; decoder diagnostics failed: "@,
        pipeline::media::failure_of(stopped.decoder_log),
    );
    lemma_cleanup_holds(
        fourth,
        "; encoder diagnostics failed: "@,
        pipeline::media::failure_of(stopped.encoder_log),
    );
    let message = stopped_message(error, stopped, partial);
    assert(error =~= message.take(error.len() as int));
}

/// A job that could not be finished ends with the failure first and the place of the
/// incomplete output last.
pub proof fn unfinished_jobs_say_where_their_output_is(error: Seq<char>, partial_path: &Path)
    ensures
        error.is_prefix_of(unfinished_message(error, partial_path)),
        host::path_display(host::path_bytes(partial_path)).is_suffix_of(
            unfinished_message(error, partial_path),
        ),
{
    let message = unfinished_message(error, partial_path);
    let place = host::path_display(host::path_bytes(partial_path));
    assert(error =~= message.take(error.len() as int));
    assert(place =~= message.skip(message.len() - place.len()));
}

/// A job that failed has one failure, and one that is complete has none.
pub proof fn failed_jobs_have_one_failure(stage: JobStage, message: Seq<char>, other: Seq<char>)
    requires
        stage.failed_with(message),
    ensures
        stage.failed_with(other) ==> other == message,
        stage.kind() == StageKind::Failed,
{
}

} // verus!
