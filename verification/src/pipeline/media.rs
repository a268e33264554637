//! The child processes of a job: how they are started, stopped and waited for.

use crate::app::settings::{encoder_preset_options, EncoderPreset, H264Profile, VideoEncoder};
use crate::pipeline::{JobConfiguration, VideoMetadata};
use crate::text::{decimal_text, push_decimal};
use crate::{app, text};
use vstd::prelude::*;

verus! {

/// One argument of a media process.
pub enum MediaArgument {
    Text(String),
    InputPath,
    PartialPath,
}

/// One argument of a media process, its text as characters.
pub enum MediaArgumentView {
    Text(Seq<char>),
    InputPath,
    PartialPath,
}

impl View for MediaArgument {
    type V = MediaArgumentView;

    open spec fn view(&self) -> MediaArgumentView {
        match *self {
            MediaArgument::Text(value) => MediaArgumentView::Text(value@),
            MediaArgument::InputPath => MediaArgumentView::InputPath,
            MediaArgument::PartialPath => MediaArgumentView::PartialPath,
        }
    }
}

/// What the arguments of a media process say.
pub open spec fn arguments_view(arguments: Seq<MediaArgument>) -> Seq<MediaArgumentView> {
    arguments.map_values(|argument: MediaArgument| argument@)
}

/// Arguments that are texts.
pub open spec fn text_arguments(values: Seq<Seq<char>>) -> Seq<MediaArgumentView> {
    values.map_values(|value: Seq<char>| MediaArgumentView::Text(value))
}

/// What the decoder is started with: it writes the video frames of the input as they
/// are, in RGB24, to its standard output, and decodes on the graphics card where it is
/// asked to.
pub open spec fn decoder_command(use_nvdec: bool) -> Seq<MediaArgumentView> {
    text_arguments(seq!["-nostdin"@, "-v"@, "error"@, "-threads"@, "2"@]) + text_arguments(
        if use_nvdec {
            seq!["-hwaccel"@, "cuda"@]
        } else {
            seq![]
        },
    ) + text_arguments(seq!["-i"@]) + seq![MediaArgumentView::InputPath] + text_arguments(
        seq![
            "-map"@,
            "0:v:0"@,
            "-an"@,
            "-sn"@,
            "-dn"@,
            "-fps_mode"@,
            "passthrough"@,
            "-pix_fmt"@,
            "rgb24"@,
            "-f"@,
            "rawvideo"@,
            "pipe:1"@,
        ],
    )
}

/// How the output video is encoded, and what else of the input goes into it.
#[derive(Clone, Copy, Debug, PartialEq, Eq, Structural)]
pub struct EncoderSettings {
    pub video_encoder: VideoEncoder,
    pub preset: EncoderPreset,
    pub quality_level: u8,
    pub h264_profile: H264Profile,
    pub thread_count: u8,
    pub preserve_audio: bool,
    pub preserve_subtitles: bool,
    pub preserve_metadata: bool,
}

/// What the encoder of a preset calls it.
pub open spec fn preset_argument(preset: EncoderPreset) -> Seq<char> {
    match preset {
        EncoderPreset::X264VeryFast => "veryfast"@,
        EncoderPreset::X264Faster => "faster"@,
        EncoderPreset::X264Fast => "fast"@,
        EncoderPreset::X264Medium => "medium"@,
        EncoderPreset::X264Slow => "slow"@,
        EncoderPreset::X264Slower => "slower"@,
        EncoderPreset::X264VerySlow => "veryslow"@,
        EncoderPreset::X264Placebo => "placebo"@,
        EncoderPreset::NvidiaP1 => "p1"@,
        EncoderPreset::NvidiaP2 => "p2"@,
        EncoderPreset::NvidiaP3 => "p3"@,
        EncoderPreset::NvidiaP4 => "p4"@,
        EncoderPreset::NvidiaP5 => "p5"@,
        EncoderPreset::NvidiaP6 => "p6"@,
        EncoderPreset::NvidiaP7 => "p7"@,
    }
}

/// Whether a preset is one of the graphics card's encoder.
pub open spec fn is_nvidia_preset(preset: EncoderPreset) -> bool {
    app::settings::presets_of(VideoEncoder::NvidiaH264).contains(preset)
}

impl EncoderSettings {
    /// The encoder that is tried first: the one that is chosen, or else the one that
    /// the preset is for.
    pub open spec fn first_encoder(self) -> VideoEncoder {
        match self.video_encoder {
            VideoEncoder::Automatic => if is_nvidia_preset(self.preset) {
                VideoEncoder::NvidiaH264
            } else {
                VideoEncoder::SoftwareH264
            },
            chosen => chosen,
        }
    }

    /// The preset that an encoder is used with: the one that is chosen, or the usual
    /// one where that is for the other encoder.
    pub open spec fn preset_for(self, encoder: VideoEncoder) -> EncoderPreset {
        if is_nvidia_preset(self.preset) == (encoder == VideoEncoder::NvidiaH264) {
            self.preset
        } else if encoder == VideoEncoder::NvidiaH264 {
            EncoderPreset::NvidiaP5
        } else {
            EncoderPreset::X264Medium
        }
    }

    /// Which streams go into the output, and whether metadata and chapters do.
    pub open spec fn stream_arguments(self) -> Seq<Seq<char>> {
        seq!["-map"@, "0:v:0"@] + (if self.preserve_audio {
            seq!["-map"@, "1:a?"@]
        } else {
            seq![]
        }) + (if self.preserve_subtitles {
            seq!["-map"@, "1:s?"@]
        } else {
            seq![]
        }) + (if self.preserve_metadata {
            seq!["-map_metadata"@, "1"@, "-map_chapters"@, "1"@]
        } else {
            seq![
                "-map_metadata"@,
                "-1"@,
                "-map_metadata:s"@,
                "-1"@,
                "-map_chapters"@,
                "-1"@,
            ]
        })
    }

    /// How an encoder is asked for the quality.
    pub open spec fn quality_arguments(self, encoder: VideoEncoder) -> Seq<Seq<char>> {
        let level = text::decimal(self.quality_level as nat);
        if encoder == VideoEncoder::NvidiaH264 {
            seq!["-rc"@, "vbr"@, "-cq"@, level, "-b:v"@, "0"@]
        } else {
            seq!["-crf"@, level]
        }
    }

    /// How an encoder is asked for the profile, where one is chosen.
    pub open spec fn profile_arguments(self) -> Seq<Seq<char>> {
        match self.h264_profile {
            H264Profile::Auto => seq![],
            H264Profile::Main => seq!["-profile:v"@, "main"@],
            H264Profile::High => seq!["-profile:v"@, "high"@],
        }
    }

    /// How the video is encoded.
    pub open spec fn video_arguments(self, encoder: VideoEncoder) -> Seq<Seq<char>> {
        seq![
            "-c:v"@,
            if encoder == VideoEncoder::NvidiaH264 {
                "h264_nvenc"@
            } else {
                "libx264"@
            },
            "-preset"@,
            preset_argument(self.preset_for(encoder)),
        ] + self.quality_arguments(encoder) + self.profile_arguments() + seq![
            "-pix_fmt"@,
            "yuv420p"@,
            "-threads"@,
            text::decimal(self.thread_count as nat),
        ]
    }

    /// That sound and subtitles are copied as they are.
    pub open spec fn copy_arguments(self) -> Seq<Seq<char>> {
        (if self.preserve_audio {
            seq!["-c:a"@, "copy"@]
        } else {
            seq![]
        }) + (if self.preserve_subtitles {
            seq!["-c:s"@, "copy"@]
        } else {
            seq![]
        })
    }
}

/// The size of the frames that the encoder reads.
pub open spec fn video_size_text(width: int, height: int) -> Seq<char> {
    text::decimal(width as nat) + "x"@ + text::decimal(height as nat)
}

/// The rate of the frames that the encoder reads.
pub open spec fn frame_rate_text(numerator: int, denominator: int) -> Seq<char> {
    text::decimal(numerator as nat) + "/"@ + text::decimal(denominator as nat)
}

/// What the encoder is started with: it reads RGB24 frames from its standard input,
/// encodes them as the settings say, copies what they keep of the input, and writes the
/// incomplete output.
pub open spec fn encoder_command(
    video_size: Seq<char>,
    frame_rate: Seq<char>,
    settings: EncoderSettings,
    encoder: VideoEncoder,
) -> Seq<MediaArgumentView> {
    text_arguments(
        seq![
            "-nostdin"@,
            "-v"@,
            "error"@,
            "-y"@,
            "-threads"@,
            "2"@,
            "-f"@,
            "rawvideo"@,
            "-pix_fmt"@,
            "rgb24"@,
            "-video_size"@,
            video_size,
            "-framerate"@,
            frame_rate,
            "-i"@,
            "pipe:0"@,
            "-i"@,
        ],
    ) + seq![MediaArgumentView::InputPath] + text_arguments(
        settings.stream_arguments() + settings.video_arguments(encoder)
            + settings.copy_arguments(),
    ) + seq![MediaArgumentView::PartialPath]
}

fn push_text(arguments: &mut Vec<MediaArgument>, value: &str)
    ensures
        arguments_view(final(arguments)@) == arguments_view(old(arguments)@).push(
            MediaArgumentView::Text(value@),
        ),
{
    let ghost before = arguments@;
    arguments.push(MediaArgument::Text(value.to_owned()));
    proof {
        assert(arguments_view(arguments@) =~= arguments_view(before).push(
            MediaArgumentView::Text(value@),
        ));
    }
}

fn push_path(arguments: &mut Vec<MediaArgument>, argument: MediaArgument)
    ensures
        arguments_view(final(arguments)@) == arguments_view(old(arguments)@).push(argument@),
{
    let ghost before = arguments@;
    arguments.push(argument);
    proof {
        assert(arguments_view(arguments@) =~= arguments_view(before).push(argument@));
    }
}

/// The arguments of the decoder.
pub fn decoder_arguments(use_nvdec: bool) -> (arguments: Vec<MediaArgument>)
    ensures
        arguments_view(arguments@) == decoder_command(use_nvdec),
{
    let mut arguments: Vec<MediaArgument> = Vec::new();
    push_text(&mut arguments, "-nostdin");
    push_text(&mut arguments, "-v");
    push_text(&mut arguments, "error");
    push_text(&mut arguments, "-threads");
    push_text(&mut arguments, "2");
    if use_nvdec {
        push_text(&mut arguments, "-hwaccel");
        push_text(&mut arguments, "cuda");
    }
    push_text(&mut arguments, "-i");
    push_path(&mut arguments, MediaArgument::InputPath);
    push_text(&mut arguments, "-map");
    push_text(&mut arguments, "0:v:0");
    push_text(&mut arguments, "-an");
    push_text(&mut arguments, "-sn");
    push_text(&mut arguments, "-dn");
    push_text(&mut arguments, "-fps_mode");
    push_text(&mut arguments, "passthrough");
    push_text(&mut arguments, "-pix_fmt");
    push_text(&mut arguments, "rgb24");
    push_text(&mut arguments, "-f");
    push_text(&mut arguments, "rawvideo");
    push_text(&mut arguments, "pipe:1");
    proof {
        assert(arguments_view(arguments@) =~= decoder_command(use_nvdec));
    }
    arguments
}

/// What the encoder of a preset calls it.
fn preset_name(preset: EncoderPreset) -> (name: &'static str)
    ensures
        name@ == preset_argument(preset),
{
    match preset {
        EncoderPreset::X264VeryFast => "veryfast",
        EncoderPreset::X264Faster => "faster",
        EncoderPreset::X264Fast => "fast",
        EncoderPreset::X264Medium => "medium",
        EncoderPreset::X264Slow => "slow",
        EncoderPreset::X264Slower => "slower",
        EncoderPreset::X264VerySlow => "veryslow",
        EncoderPreset::X264Placebo => "placebo",
        EncoderPreset::NvidiaP1 => "p1",
        EncoderPreset::NvidiaP2 => "p2",
        EncoderPreset::NvidiaP3 => "p3",
        EncoderPreset::NvidiaP4 => "p4",
        EncoderPreset::NvidiaP5 => "p5",
        EncoderPreset::NvidiaP6 => "p6",
        EncoderPreset::NvidiaP7 => "p7",
    }
}

fn preset_is_nvidia(preset: EncoderPreset) -> (nvidia: bool)
    ensures
        nvidia == is_nvidia_preset(preset),
{
    let presets: Vec<EncoderPreset> = encoder_preset_options(VideoEncoder::NvidiaH264);
    let mut index: usize = 0;
    while index < presets.len()
        invariant
            index <= presets@.len(),
            presets@ == app::settings::presets_of(VideoEncoder::NvidiaH264),
            forall|i: int| 0 <= i < index ==> presets@[i] != preset,
        decreases presets@.len() - index,
    {
        if presets[index] == preset {
            return true;
        }
        index = index + 1;
    }
    false
}

/// The decimal notation of a number, as an argument.
fn push_number(arguments: &mut Vec<MediaArgument>, number: u8)
    ensures
        arguments_view(final(arguments)@) == arguments_view(old(arguments)@).push(
            MediaArgumentView::Text(text::decimal(number as nat)),
        ),
{
    let value = decimal_text(number as u128);
    push_text(arguments, value.as_str());
}

impl EncoderSettings {
    /// The encoder to try first. Where none is chosen, the preset tells: it starts as
    /// that of the best encoder there is.
    pub fn choose_encoder(&self) -> (encoder: VideoEncoder)
        ensures
            encoder == self.first_encoder(),
            encoder != VideoEncoder::Automatic,
    {
        match self.video_encoder {
            VideoEncoder::Automatic => if preset_is_nvidia(self.preset) {
                VideoEncoder::NvidiaH264
            } else {
                VideoEncoder::SoftwareH264
            },
            chosen => chosen,
        }
    }

    fn push_streams(&self, arguments: &mut Vec<MediaArgument>)
        ensures
            arguments_view(final(arguments)@) == arguments_view(old(arguments)@) + text_arguments(
                self.stream_arguments(),
            ),
    {
        let ghost before = arguments_view(arguments@);
        push_text(arguments, "-map");
        push_text(arguments, "0:v:0");
        if self.preserve_audio {
            push_text(arguments, "-map");
            push_text(arguments, "1:a?");
        }
        if self.preserve_subtitles {
            push_text(arguments, "-map");
            push_text(arguments, "1:s?");
        }
        if self.preserve_metadata {
            push_text(arguments, "-map_metadata");
            push_text(arguments, "1");
            push_text(arguments, "-map_chapters");
            push_text(arguments, "1");
        } else {
            push_text(arguments, "-map_metadata");
            push_text(arguments, "-1");
            push_text(arguments, "-map_metadata:s");
            push_text(arguments, "-1");
            push_text(arguments, "-map_chapters");
            push_text(arguments, "-1");
        }
        proof {
            assert(arguments_view(arguments@) =~= before + text_arguments(
                self.stream_arguments(),
            ));
        }
    }

    fn push_video(&self, arguments: &mut Vec<MediaArgument>, encoder: VideoEncoder)
        ensures
            arguments_view(final(arguments)@) == arguments_view(old(arguments)@) + text_arguments(
                self.video_arguments(encoder),
            ),
    {
        let ghost before = arguments_view(arguments@);
        let nvidia = encoder == VideoEncoder::NvidiaH264;
        let preset = if preset_is_nvidia(self.preset) == nvidia {
            self.preset
        } else if nvidia {
            EncoderPreset::NvidiaP5
        } else {
            EncoderPreset::X264Medium
        };
        push_text(arguments, "-c:v");
        push_text(
            arguments,
            if nvidia {
                "h264_nvenc"
            } else {
                "libx264"
            },
        );
        push_text(arguments, "-preset");
        push_text(arguments, preset_name(preset));
        if nvidia {
            push_text(arguments, "-rc");
            push_text(arguments, "vbr");
            push_text(arguments, "-cq");
            push_number(arguments, self.quality_level);
            push_text(arguments, "-b:v");
            push_text(arguments, "0");
        } else {
            push_text(arguments, "-crf");
            push_number(arguments, self.quality_level);
        }
        match self.h264_profile {
            H264Profile::Auto => {},
            H264Profile::Main => {
                push_text(arguments, "-profile:v");
                push_text(arguments, "main");
            },
            H264Profile::High => {
                push_text(arguments, "-profile:v");
                push_text(arguments, "high");
            },
        }
        push_text(arguments, "-pix_fmt");
        push_text(arguments, "yuv420p");
        push_text(arguments, "-threads");
        push_number(arguments, self.thread_count);
        proof {
            assert(arguments_view(arguments@) =~= before + text_arguments(
                self.video_arguments(encoder),
            ));
        }
    }

    fn push_copies(&self, arguments: &mut Vec<MediaArgument>)
        ensures
            arguments_view(final(arguments)@) == arguments_view(old(arguments)@) + text_arguments(
                self.copy_arguments(),
            ),
    {
        let ghost before = arguments_view(arguments@);
        if self.preserve_audio {
            push_text(arguments, "-c:a");
            push_text(arguments, "copy");
        }
        if self.preserve_subtitles {
            push_text(arguments, "-c:s");
            push_text(arguments, "copy");
        }
        proof {
            assert(arguments_view(arguments@) =~= before + text_arguments(self.copy_arguments()));
        }
    }
}

/// The arguments of the encoder.
#[verifier::rlimit(40)]
pub fn encoder_arguments(
    configuration: &JobConfiguration,
    metadata: &VideoMetadata,
    settings: &EncoderSettings,
    encoder: VideoEncoder,
) -> (arguments: Vec<MediaArgument>)
    requires
        encoder != VideoEncoder::Automatic,
    ensures
        arguments_view(arguments@) == encoder_command(
            video_size_text(metadata.width as int, metadata.height as int),
            frame_rate_text(
                configuration.target_fps_num as int,
                configuration.target_fps_den as int,
            ),
            *settings,
            encoder,
        ),
{
    let mut video_size = String::new();
    push_decimal(&mut video_size, metadata.width as u128);
    video_size.append("x");
    push_decimal(&mut video_size, metadata.height as u128);
    let mut frame_rate = String::new();
    push_decimal(&mut frame_rate, configuration.target_fps_num as u128);
    frame_rate.append("/");
    push_decimal(&mut frame_rate, configuration.target_fps_den as u128);
    proof {
        assert(video_size@ =~= video_size_text(metadata.width as int, metadata.height as int));
        assert(frame_rate@ =~= frame_rate_text(
            configuration.target_fps_num as int,
            configuration.target_fps_den as int,
        ));
    }
    let mut arguments: Vec<MediaArgument> = Vec::new();
    push_text(&mut arguments, "-nostdin");
    push_text(&mut arguments, "-v");
    push_text(&mut arguments, "error");
    push_text(&mut arguments, "-y");
    push_text(&mut arguments, "-threads");
    push_text(&mut arguments, "2");
    push_text(&mut arguments, "-f");
    push_text(&mut arguments, "rawvideo");
    push_text(&mut arguments, "-pix_fmt");
    push_text(&mut arguments, "rgb24");
    push_text(&mut arguments, "-video_size");
    push_text(&mut arguments, video_size.as_str());
    push_text(&mut arguments, "-framerate");
    push_text(&mut arguments, frame_rate.as_str());
    push_text(&mut arguments, "-i");
    push_text(&mut arguments, "pipe:0");
    push_text(&mut arguments, "-i");
    push_path(&mut arguments, MediaArgument::InputPath);
    settings.push_streams(&mut arguments);
    settings.push_video(&mut arguments, encoder);
    settings.push_copies(&mut arguments);
    push_path(&mut arguments, MediaArgument::PartialPath);
    proof {
        assert(arguments_view(arguments@) =~= encoder_command(
            video_size@,
            frame_rate@,
            *settings,
            encoder,
        ));
    }
    arguments
}

/// A message with the failure of the cleanup after it, where that failed too.
pub open spec fn with_cleanup(
    message: Seq<char>,
    cleanup: Seq<char>,
    failure: Option<Seq<char>>,
) -> Seq<char> {
    match failure {
        Some(failure) => message + cleanup + failure,
        None => message,
    }
}

/// The failure of a step, as characters.
pub open spec fn failure_of(result: Result<(), String>) -> Option<Seq<char>> {
    match result {
        Ok(_) => None,
        Err(message) => Some(message@),
    }
}

/// Appends a failure, after the text that introduces it, where there is one.
pub fn push_failure(message: &mut String, introduction: &str, result: &Result<(), String>)
    ensures
        final(message)@ == with_cleanup(old(message)@, introduction@, failure_of(*result)),
{
    match result {
        Ok(_) => {},
        Err(failure) => {
            message.append(introduction);
            message.append(failure.as_str());
        },
    }
}

/// Why a process that has been started cannot be used: what is missing, and how
/// stopping it went.
pub fn unusable_process(missing: &str, cleanup: &Result<(), String>) -> (message: String)
    ensures
        message@ == with_cleanup(missing@, "; cleanup failed: "@, failure_of(*cleanup)),
{
    let mut message = missing.to_owned();
    push_failure(&mut message, "; cleanup failed: ", cleanup);
    message
}

/// Why a media process whose diagnostics cannot be read ends: the reader's failure,
/// and how stopping the process went.
pub fn unreadable_diagnostics(error: String, process: &str, cleanup: &Result<(), String>) -> (message:
    String)
    ensures
        message@ == with_cleanup(
            error@,
            "; "@ + process@ + " cleanup failed: "@,
            failure_of(*cleanup),
        ),
{
    let mut introduction = "; ".to_owned();
    introduction.append(process);
    introduction.append(" cleanup failed: ");
    let mut message = error;
    push_failure(&mut message, introduction.as_str(), cleanup);
    message
}

/// What became of the thread that reads a process's diagnostics.
pub enum LogWorker {
    /// There is none.
    Missing,
    /// It panicked.
    Panicked,
    /// It returned this.
    Returned(Result<(), String>),
}

/// The outcome of reading a process's diagnostics.
pub open spec fn log_worker_outcome(worker: LogWorker) -> Result<(), Seq<char>> {
    match worker {
        LogWorker::Missing => Err("media log worker is unavailable"@),
        LogWorker::Panicked => Err("media log worker panicked"@),
        LogWorker::Returned(result) => text::result_text(result),
    }
}

/// The outcome of reading a process's diagnostics.
pub fn finish_log_worker(worker: LogWorker) -> (result: Result<(), String>)
    ensures
        text::result_text(result) == log_worker_outcome(worker),
{
    match worker {
        LogWorker::Missing => Err("media log worker is unavailable".to_owned()),
        LogWorker::Panicked => Err("media log worker panicked".to_owned()),
        LogWorker::Returned(result) => result,
    }
}

/// The outcome of waiting for a media process: whether it succeeded, or the first
/// failure of waiting for it, of stopping it after that, and of reading its
/// diagnostics. `wait` is whether it succeeded or why waiting failed.
pub open spec fn media_child_outcome(
    description: Seq<char>,
    wait: Result<bool, Seq<char>>,
    log: Result<(), Seq<char>>,
) -> Result<bool, Seq<char>> {
    match wait {
        Err(error) => Err("failed to wait for "@ + description + ": "@ + error),
        Ok(success) => match log {
            Err(message) => Err(message),
            Ok(_) => Ok(success),
        },
    }
}

/// The outcome of waiting for a media process. Where waiting failed the process was
/// stopped, and that failure is the one to report.
pub fn wait_media_child(
    description: &str,
    wait: Result<bool, String>,
    log: Result<(), String>,
) -> (result: Result<bool, String>)
    requires
        0 < vstd::utf8::encode_utf8(description@).len() <= 32,
    ensures
        text::result_text(result) == media_child_outcome(
            description@,
            text::result_text(wait),
            text::result_text(log),
        ),
{
    match wait {
        Err(error) => {
            let mut message = "failed to wait for ".to_owned();
            message.append(description);
            message.append(": ");
            message.append(error.as_str());
            Err(message)
        },
        Ok(success) => match log {
            Err(message) => Err(message),
            Ok(_) => Ok(success),
        },
    }
}

/// What to do next to stop a process.
pub enum TerminationStep {
    /// Ask whether it has ended.
    Inspect,
    /// Kill it; holds why it could not be asked, if it could not.
    Kill(Option<String>),
    /// Wait for it; `true` where it could not be asked.
    Reap(bool),
    /// Ask once more whether it has ended.
    Confirm,
    /// It is stopped, or could not be.
    Ended(Result<(), String>),
}

impl TerminationStep {
    /// How many steps are left at most.
    pub open spec fn steps_left(self) -> nat {
        match self {
            TerminationStep::Inspect => 4,
            TerminationStep::Kill(_) => 3,
            TerminationStep::Reap(_) => 2,
            TerminationStep::Confirm => 1,
            TerminationStep::Ended(_) => 0,
        }
    }

    /// Whether stopping the process failed with the given message.
    pub open spec fn failed_with(self, message: Seq<char>) -> bool {
        self matches TerminationStep::Ended(Err(actual)) && actual@ == message
    }

    /// Takes in whether the process has ended, or why it could not be asked.
    pub fn inspected(self, ended: Result<bool, String>) -> (next: TerminationStep)
        requires
            self is Inspect || self is Confirm,
        ensures
            next.steps_left() < self.steps_left(),
            self is Inspect ==> next == match ended {
                Ok(true) => TerminationStep::Confirm,
                Ok(false) => TerminationStep::Kill(None),
                Err(error) => TerminationStep::Kill(Some(error)),
            },
            self is Confirm ==> match ended {
                Ok(true) => next == TerminationStep::Ended(Ok(())),
                Ok(false) => next.failed_with("media process remained active after termination"@),
                Err(error) => next.failed_with(
                    "failed to confirm media process termination: "@ + error@,
                ),
            },
            next == TerminationStep::Ended(Ok(())) <==> self is Confirm && ended == Ok::<
                bool,
                String,
            >(true),
            next is Kill <==> self is Inspect && ended != Ok::<bool, String>(true),
            next is Ended <==> self is Confirm,
    {
        match self {
            TerminationStep::Confirm => match ended {
                Ok(true) => TerminationStep::Ended(Ok(())),
                Ok(false) => TerminationStep::Ended(
                    Err("media process remained active after termination".to_owned()),
                ),
                Err(error) => {
                    let mut message = "failed to confirm media process termination: ".to_owned();
                    message.append(error.as_str());
                    TerminationStep::Ended(Err(message))
                },
            },
            _ => match ended {
                Ok(true) => TerminationStep::Confirm,
                Ok(false) => TerminationStep::Kill(None),
                Err(error) => TerminationStep::Kill(Some(error)),
            },
        }
    }

    /// Takes in how killing or waiting for the process went.
    pub fn performed(self, result: Result<(), String>) -> (next: TerminationStep)
        requires
            self is Kill || self is Reap,
        ensures
            next.steps_left() < self.steps_left(),
            match (self, result) {
                (TerminationStep::Kill(inspection), Ok(_)) => next == TerminationStep::Reap(
                    inspection is Some,
                ),
                (TerminationStep::Kill(None), Err(error)) => next.failed_with(
                    "failed to terminate media process: "@ + error@,
                ),
                (TerminationStep::Kill(Some(inspection)), Err(error)) => next.failed_with(
                    "failed to inspect media process ("@ + inspection@ + ") and terminate it: "@
                        + error@,
                ),
                (TerminationStep::Reap(_), Ok(_)) => next == TerminationStep::Confirm,
                (TerminationStep::Reap(false), Err(error)) => next.failed_with(
                    "failed to reap terminated media process: "@ + error@,
                ),
                (TerminationStep::Reap(true), Err(error)) => next.failed_with(
                    "failed to reap media process after inspection failed: "@ + error@,
                ),
                _ => true,
            },
            next is Ended <==> result is Err,
            next matches TerminationStep::Ended(outcome) ==> outcome is Err,
            next is Reap <==> self is Kill && result is Ok,
            next is Confirm <==> self is Reap && result is Ok,
    {
        match self {
            TerminationStep::Kill(inspection) => match result {
                Ok(_) => TerminationStep::Reap(inspection.is_some()),
                Err(error) => match inspection {
                    None => {
                        let mut message = "failed to terminate media process: ".to_owned();
                        message.append(error.as_str());
                        TerminationStep::Ended(Err(message))
                    },
                    Some(inspection) => {
                        let mut message = "failed to inspect media process (".to_owned();
                        message.append(inspection.as_str());
                        message.append(") and terminate it: ");
                        message.append(error.as_str());
                        TerminationStep::Ended(Err(message))
                    },
                },
            },
            TerminationStep::Reap(uninspected) => match result {
                Ok(_) => TerminationStep::Confirm,
                Err(error) => {
                    let mut message = if uninspected {
                        "failed to reap media process after inspection failed: ".to_owned()
                    } else {
                        "failed to reap terminated media process: ".to_owned()
                    };
                    message.append(error.as_str());
                    TerminationStep::Ended(Err(message))
                },
            },
            other => other,
        }
    }
}

/// Whether an option stands at a position of some arguments, with its value behind it.
pub open spec fn option_at(
    arguments: Seq<Seq<char>>,
    position: int,
    option: Seq<char>,
    value: Seq<char>,
) -> bool {
    &&& 0 <= position
    &&& position + 1 < arguments.len()
    &&& arguments[position] == option
    &&& arguments[position + 1] == value
}

/// Whether arguments hold an option with a value.
pub open spec fn has_option(
    arguments: Seq<Seq<char>>,
    option: Seq<char>,
    value: Seq<char>,
) -> bool {
    exists|position: int| #[trigger] option_at(arguments, position, option, value)
}

/// The streams of the input go into the output exactly where they are kept: sound and
/// subtitles each as its own, metadata and chapters together. The video is always the one
/// that was made.
pub proof fn kept_streams_are_mapped(settings: EncoderSettings)
    ensures
        option_at(settings.stream_arguments(), 0, "-map"@, "0:v:0"@),
        has_option(settings.stream_arguments(), "-map"@, "1:a?"@) <==> settings.preserve_audio,
        has_option(settings.stream_arguments(), "-map"@, "1:s?"@) <==> settings.preserve_subtitles,
        has_option(settings.stream_arguments(), "-map_metadata"@, "1"@)
            <==> settings.preserve_metadata,
        has_option(settings.stream_arguments(), "-map_metadata"@, "-1"@)
            <==> !settings.preserve_metadata,
        has_option(settings.stream_arguments(), "-map_chapters"@, "1"@)
            <==> settings.preserve_metadata,
        has_option(settings.stream_arguments(), "-map_chapters"@, "-1"@)
            <==> !settings.preserve_metadata,
        !settings.preserve_metadata ==> has_option(
            settings.stream_arguments(),
            "-map_metadata:s"@,
            "-1"@,
        ),
        has_option(settings.copy_arguments(), "-c:a"@, "copy"@) <==> settings.preserve_audio,
        has_option(settings.copy_arguments(), "-c:s"@, "copy"@) <==> settings.preserve_subtitles,
{
    reveal_strlit("-map");
    reveal_strlit("0:v:0");
    reveal_strlit("1:a?");
    reveal_strlit("1:s?");
    reveal_strlit("-map_metadata");
    reveal_strlit("-map_metadata:s");
    reveal_strlit("-map_chapters");
    reveal_strlit("1");
    reveal_strlit("-1");
    reveal_strlit("-c:a");
    reveal_strlit("-c:s");
    reveal_strlit("copy");
    let streams = settings.stream_arguments();
    let copies = settings.copy_arguments();
    let audio = if settings.preserve_audio {
        2int
    } else {
        0int
    };
    let subtitles = if settings.preserve_subtitles {
        2int
    } else {
        0int
    };
    assert("1:a?"@[2] != "1:s?"@[2]);
    assert("-map"@[0] == '-' && "1:a?"@[0] == '1' && "1:s?"@[0] == '1');
    assert("0:v:0"@.len() == 5 && "1:a?"@.len() == 4 && "1"@.len() == 1 && "-1"@.len() == 2);
    assert("-map"@.len() == 4 && "-map_metadata"@.len() == 13 && "-map_chapters"@.len() == 13
        && "-map_metadata:s"@.len() == 15);
    assert("-c:a"@[3] != "-c:s"@[3]);
    assert(settings.preserve_audio ==> option_at(streams, 2, "-map"@, "1:a?"@));
    assert(settings.preserve_subtitles ==> option_at(streams, 2 + audio, "-map"@, "1:s?"@));
    let metadata = 2 + audio + subtitles;
    assert(settings.preserve_metadata ==> option_at(streams, metadata, "-map_metadata"@, "1"@)
        && option_at(streams, metadata + 2, "-map_chapters"@, "1"@));
    assert(!settings.preserve_metadata ==> option_at(streams, metadata, "-map_metadata"@, "-1"@)
        && option_at(streams, metadata + 2, "-map_metadata:s"@, "-1"@) && option_at(
        streams,
        metadata + 4,
        "-map_chapters"@,
        "-1"@,
    ));
    assert(settings.preserve_audio ==> option_at(copies, 0, "-c:a"@, "copy"@));
    assert(settings.preserve_subtitles ==> option_at(copies, audio, "-c:s"@, "copy"@));
}

/// The encoder gets the quality, the profile and the threads that were chosen, and a
/// preset of its own: on the graphics card with its own names for them, on the CPU with
/// those of x264.
pub proof fn encoders_get_their_settings(settings: EncoderSettings, encoder: VideoEncoder)
    requires
        encoder != VideoEncoder::Automatic,
    ensures
        ({
            let arguments = settings.video_arguments(encoder);
            &&& encoder == VideoEncoder::NvidiaH264 ==> {
                &&& has_option(arguments, "-c:v"@, "h264_nvenc"@)
                &&& has_option(arguments, "-cq"@, text::decimal(settings.quality_level as nat))
                &&& !arguments.contains("-crf"@)
                &&& !arguments.contains("libx264"@)
            }
            &&& encoder == VideoEncoder::SoftwareH264 ==> {
                &&& has_option(arguments, "-c:v"@, "libx264"@)
                &&& has_option(arguments, "-crf"@, text::decimal(settings.quality_level as nat))
                &&& !arguments.contains("-cq"@)
                &&& !arguments.contains("h264_nvenc"@)
            }
            &&& has_option(arguments, "-threads"@, text::decimal(settings.thread_count as nat))
            &&& has_option(arguments, "-pix_fmt"@, "yuv420p"@)
            &&& settings.h264_profile == H264Profile::Main ==> has_option(
                arguments,
                "-profile:v"@,
                "main"@,
            )
            &&& settings.h264_profile == H264Profile::High ==> has_option(
                arguments,
                "-profile:v"@,
                "high"@,
            )
            &&& settings.h264_profile == H264Profile::Auto ==> !arguments.contains("-profile:v"@)
            &&& has_option(arguments, "-preset"@, preset_argument(settings.preset_for(encoder)))
        }),
{
    reveal_strlit("-c:v");
    reveal_strlit("h264_nvenc");
    reveal_strlit("libx264");
    reveal_strlit("-preset");
    reveal_strlit("-rc");
    reveal_strlit("vbr");
    reveal_strlit("-cq");
    reveal_strlit("-b:v");
    reveal_strlit("0");
    reveal_strlit("-crf");
    reveal_strlit("-profile:v");
    reveal_strlit("main");
    reveal_strlit("high");
    reveal_strlit("-pix_fmt");
    reveal_strlit("yuv420p");
    reveal_strlit("-threads");
    let arguments = settings.video_arguments(encoder);
    let level = text::decimal(settings.quality_level as nat);
    let threads = text::decimal(settings.thread_count as nat);
    let preset = preset_argument(settings.preset_for(encoder));
    text::decimal_is_made_of_digits(settings.quality_level as nat);
    text::decimal_is_made_of_digits(settings.thread_count as nat);
    assert(text::is_digit(level[0]));
    assert(text::is_digit(threads[0]));
    lemma_preset_arguments_are_names(settings.preset_for(encoder));
    assert("-crf"@[1] == 'c' && "-b:v"@[1] == 'b' && "-crf"@[2] == 'r' && "-c:v"@[2] == ':');
    assert("-crf"@[0] == '-' && "main"@[0] == 'm' && "high"@[0] == 'h' && "-cq"@[0] == '-');
    assert("libx264"@[0] == 'l' && "yuv420p"@[0] == 'y' && "-preset"@[0] == '-'
        && "-pix_fmt"@[0] == '-' && "-threads"@[0] == '-' && "-profile:v"@[0] == '-'
        && "h264_nvenc"@[0] == 'h' && "vbr"@[0] == 'v' && "-rc"@[0] == '-' && "-rc"@[1] == 'r'
        && "-cq"@[1] == 'c' && "0"@[0] == '0' && "-b:v"@[0] == '-' && "-c:v"@[0] == '-');
    assert("-crf"@.len() == 4 && "-c:v"@.len() == 4 && "-b:v"@.len() == 4 && "main"@.len() == 4
        && "high"@.len() == 4 && "-cq"@.len() == 3 && "-rc"@.len() == 3 && "vbr"@.len() == 3
        && "-pix_fmt"@.len() == 8 && "-threads"@.len() == 8 && "-preset"@.len() == 7
        && "libx264"@.len() == 7 && "yuv420p"@.len() == 7 && "0"@.len() == 1
        && "h264_nvenc"@.len() == 10 && "-profile:v"@.len() == 10);
    let profile = if settings.h264_profile == H264Profile::Auto {
        0int
    } else {
        2int
    };
    assert(option_at(arguments, 2, "-preset"@, preset));
    if encoder == VideoEncoder::NvidiaH264 {
        assert(option_at(arguments, 0, "-c:v"@, "h264_nvenc"@));
        assert(option_at(arguments, 6, "-cq"@, level));
        assert(settings.h264_profile == H264Profile::Main ==> option_at(
            arguments,
            10,
            "-profile:v"@,
            "main"@,
        ));
        assert(settings.h264_profile == H264Profile::High ==> option_at(
            arguments,
            10,
            "-profile:v"@,
            "high"@,
        ));
        assert(option_at(arguments, 10 + profile, "-pix_fmt"@, "yuv420p"@));
        assert(option_at(arguments, 12 + profile, "-threads"@, threads));
    } else {
        assert(option_at(arguments, 0, "-c:v"@, "libx264"@));
        assert(option_at(arguments, 4, "-crf"@, level));
        assert(settings.h264_profile == H264Profile::Main ==> option_at(
            arguments,
            6,
            "-profile:v"@,
            "main"@,
        ));
        assert(settings.h264_profile == H264Profile::High ==> option_at(
            arguments,
            6,
            "-profile:v"@,
            "high"@,
        ));
        assert(option_at(arguments, 6 + profile, "-pix_fmt"@, "yuv420p"@));
        assert(option_at(arguments, 8 + profile, "-threads"@, threads));
    }
}

/// What encoders call their presets are names of lower-case letters and digits, of eight
/// characters at most.
proof fn lemma_preset_arguments_are_names(preset: EncoderPreset)
    ensures
        2 <= preset_argument(preset).len() <= 8,
        preset_argument(preset)[0] != '-',
        preset_argument(preset) != "libx264"@,
        preset_argument(preset) != "h264_nvenc"@,
{
    reveal_strlit("libx264");
    reveal_strlit("h264_nvenc");
    reveal_strlit("veryfast");
    reveal_strlit("faster");
    reveal_strlit("fast");
    reveal_strlit("medium");
    reveal_strlit("slow");
    reveal_strlit("slower");
    reveal_strlit("veryslow");
    reveal_strlit("placebo");
    reveal_strlit("p1");
    reveal_strlit("p2");
    reveal_strlit("p3");
    reveal_strlit("p4");
    reveal_strlit("p5");
    reveal_strlit("p6");
    reveal_strlit("p7");
    assert("placebo"@[0] != "libx264"@[0]);
    assert("h264_nvenc"@.len() == 10);
}

/// The presets of the graphics card's encoder are numbered from the fastest on, and no
/// two presets have the same name.
pub proof fn presets_have_names_of_their_own(one: EncoderPreset, other: EncoderPreset, position: int)
    ensures
        0 <= position < 7 ==> preset_argument(
            app::settings::presets_of(VideoEncoder::NvidiaH264)[position],
        ) == seq!['p'] + text::decimal((position + 1) as nat),
        preset_argument(one) == preset_argument(other) ==> one == other,
{
    reveal_strlit("veryfast");
    reveal_strlit("faster");
    reveal_strlit("fast");
    reveal_strlit("medium");
    reveal_strlit("slow");
    reveal_strlit("slower");
    reveal_strlit("veryslow");
    reveal_strlit("placebo");
    reveal_strlit("p1");
    reveal_strlit("p2");
    reveal_strlit("p3");
    reveal_strlit("p4");
    reveal_strlit("p5");
    reveal_strlit("p6");
    reveal_strlit("p7");
    assert("veryfast"@[4] != "veryslow"@[4]);
    assert("faster"@[0] != "medium"@[0] && "faster"@[0] != "slower"@[0] && "medium"@[0]
        != "slower"@[0]);
    assert("fast"@[0] != "slow"@[0]);
    assert("veryfast"@.len() == 8 && "faster"@.len() == 6 && "fast"@.len() == 4 && "medium"@.len()
        == 6 && "slow"@.len() == 4 && "slower"@.len() == 6 && "veryslow"@.len() == 8
        && "placebo"@.len() == 7);
    assert("p1"@.len() == 2 && "p2"@.len() == 2 && "p3"@.len() == 2 && "p4"@.len() == 2
        && "p5"@.len() == 2 && "p6"@.len() == 2 && "p7"@.len() == 2);
    assert("p1"@[1] == '1' && "p2"@[1] == '2' && "p3"@[1] == '3' && "p4"@[1] == '4' && "p5"@[1]
        == '5' && "p6"@[1] == '6' && "p7"@[1] == '7');
    if 0 <= position < 7 {
        assert(preset_argument(app::settings::presets_of(VideoEncoder::NvidiaH264)[position])
            =~= seq!['p'] + text::decimal((position + 1) as nat));
    }
}

/// An encoder is used with a preset of its own: the chosen one where it is one, and else
/// the one that it is used with at first.
pub proof fn encoders_use_presets_of_their_own(settings: EncoderSettings, encoder: VideoEncoder)
    requires
        encoder != VideoEncoder::Automatic,
    ensures
        app::settings::presets_of(encoder).contains(settings.preset_for(encoder)),
        app::settings::presets_of(encoder).contains(settings.preset) ==> settings.preset_for(
            encoder,
        ) == settings.preset,
        !app::settings::presets_of(encoder).contains(settings.preset) ==> settings.preset_for(
            encoder,
        ) == app::state::first_preset(seq![encoder], encoder),
{
    app::settings::presets_have_one_encoder(settings.preset);
    assert(app::settings::presets_of(VideoEncoder::NvidiaH264)[4] == EncoderPreset::NvidiaP5);
    assert(app::settings::presets_of(VideoEncoder::SoftwareH264)[3] == EncoderPreset::X264Medium);
}

/// The encoder that is tried first is the chosen one, and the automatic choice is the one
/// that the preset is for.
pub proof fn chosen_encoders_come_first(settings: EncoderSettings)
    ensures
        settings.video_encoder != VideoEncoder::Automatic ==> settings.first_encoder()
            == settings.video_encoder,
        settings.first_encoder() != VideoEncoder::Automatic,
        settings.video_encoder == VideoEncoder::Automatic ==> app::settings::presets_of(
            settings.first_encoder(),
        ).contains(settings.preset),
{
    app::settings::presets_have_one_encoder(settings.preset);
}

/// The encoder reads the frames that were made, at their size and rate, from its standard
/// input and everything else from the input; what the settings say stands between that
/// and the incomplete output, which comes last.
pub proof fn encoders_read_frames_and_write_the_partial(
    width: int,
    height: int,
    numerator: int,
    denominator: int,
    settings: EncoderSettings,
    encoder: VideoEncoder,
)
    ensures
        ({
            let command = encoder_command(
                video_size_text(width, height),
                frame_rate_text(numerator, denominator),
                settings,
                encoder,
            );
            let told = settings.stream_arguments() + settings.video_arguments(encoder)
                + settings.copy_arguments();
            &&& command.len() == 19 + told.len()
            &&& command[10] == MediaArgumentView::Text("-video_size"@)
            &&& command[11] == MediaArgumentView::Text(
                text::decimal(width as nat) + "x"@ + text::decimal(height as nat),
            )
            &&& command[12] == MediaArgumentView::Text("-framerate"@)
            &&& command[13] == MediaArgumentView::Text(
                text::decimal(numerator as nat) + "/"@ + text::decimal(denominator as nat),
            )
            &&& command[14] == MediaArgumentView::Text("-i"@)
            &&& command[15] == MediaArgumentView::Text("pipe:0"@)
            &&& command[16] == MediaArgumentView::Text("-i"@)
            &&& command[17] == MediaArgumentView::InputPath
            &&& forall|i: int|
                0 <= i < told.len() ==> #[trigger] command[18 + i] == MediaArgumentView::Text(
                    told[i],
                )
            &&& command.last() == MediaArgumentView::PartialPath
            &&& command[6] == MediaArgumentView::Text("-f"@)
            &&& command[7] == MediaArgumentView::Text("rawvideo"@)
            &&& command[8] == MediaArgumentView::Text("-pix_fmt"@)
            &&& command[9] == MediaArgumentView::Text("rgb24"@)
        }),
{
}

/// The decoder reads the input and writes frames in RGB24 to its standard output; it
/// decodes on the graphics card exactly where it is asked to.
pub proof fn decoders_read_the_input_and_write_frames(use_nvdec: bool)
    ensures
        ({
            let command = decoder_command(use_nvdec);
            let input = if use_nvdec {
                8int
            } else {
                6int
            };
            &&& command[input - 1] == MediaArgumentView::Text("-i"@)
            &&& command[input] == MediaArgumentView::InputPath
            &&& command.contains(MediaArgumentView::Text("-hwaccel"@)) <==> use_nvdec
            &&& use_nvdec ==> command[5] == MediaArgumentView::Text("-hwaccel"@) && command[6]
                == MediaArgumentView::Text("cuda"@)
            &&& command[input + 1] == MediaArgumentView::Text("-map"@)
            &&& command[input + 2] == MediaArgumentView::Text("0:v:0"@)
            &&& command[input + 8] == MediaArgumentView::Text("-pix_fmt"@)
            &&& command[input + 9] == MediaArgumentView::Text("rgb24"@)
            &&& command.last() == MediaArgumentView::Text("pipe:1"@)
            &&& !command.contains(MediaArgumentView::PartialPath)
        }),
{
    reveal_strlit("-hwaccel");
    reveal_strlit("cuda");
    reveal_strlit("-nostdin");
    reveal_strlit("-v");
    reveal_strlit("error");
    reveal_strlit("-threads");
    reveal_strlit("2");
    reveal_strlit("-i");
    reveal_strlit("-map");
    reveal_strlit("0:v:0");
    reveal_strlit("-an");
    reveal_strlit("-sn");
    reveal_strlit("-dn");
    reveal_strlit("-fps_mode");
    reveal_strlit("passthrough");
    reveal_strlit("-pix_fmt");
    reveal_strlit("rgb24");
    reveal_strlit("-f");
    reveal_strlit("rawvideo");
    reveal_strlit("pipe:1");
    let command = decoder_command(use_nvdec);
    assert("-hwaccel"@[1] == 'h');
    assert("-nostdin"@[1] == 'n' && "-threads"@[1] == 't' && "-pix_fmt"@[1] == 'p'
        && "rawvideo"@[1] == 'a');
    assert("-hwaccel"@.len() == 8 && "-v"@.len() == 2 && "error"@.len() == 5 && "2"@.len() == 1
        && "-i"@.len() == 2 && "-map"@.len() == 4 && "0:v:0"@.len() == 5 && "-an"@.len() == 3
        && "-sn"@.len() == 3 && "-dn"@.len() == 3 && "-fps_mode"@.len() == 9
        && "passthrough"@.len() == 11 && "rgb24"@.len() == 5 && "-f"@.len() == 2
        && "pipe:1"@.len() == 6);
    assert(command[5] == MediaArgumentView::Text(
        if use_nvdec {
            "-hwaccel"@
        } else {
            "-i"@
        },
    ));
}

/// A message is followed by what introduces a failure and by the failure itself where
/// there is one, and stays as it is where there is none.
pub proof fn failures_are_added_to_the_message(
    message: Seq<char>,
    introduction: Seq<char>,
    result: Result<(), String>,
)
    ensures
        result is Ok ==> with_cleanup(message, introduction, failure_of(result)) == message,
        result matches Err(failure) ==> with_cleanup(
            message,
            introduction,
            failure_of(result),
        ) == message + introduction + failure@,
        message.is_prefix_of(with_cleanup(message, introduction, failure_of(result))),
{
}

/// A media process ended well exactly where waiting for it, its own end and the reading
/// of its diagnostics all did.
pub proof fn media_processes_end_well_in_every_respect(
    description: Seq<char>,
    wait: Result<bool, Seq<char>>,
    worker: LogWorker,
)
    ensures
        media_child_outcome(description, wait, log_worker_outcome(worker)) == Ok::<bool, Seq<char>>(
            true,
        ) <==> wait == Ok::<bool, Seq<char>>(true) && (worker matches LogWorker::Returned(result)
            && result is Ok),
        media_child_outcome(description, wait, log_worker_outcome(worker)) == Ok::<bool, Seq<char>>(
            false,
        ) <==> wait == Ok::<bool, Seq<char>>(false) && (worker matches LogWorker::Returned(result)
            && result is Ok),
{
}

/// The presets of the CPU encoder have the names of x264, from the fastest to the slowest.
pub proof fn cpu_presets_have_the_names_of_x264(position: int)
    requires
        0 <= position < 8,
    ensures
        preset_argument(app::settings::presets_of(VideoEncoder::SoftwareH264)[position]) == seq![
            "veryfast"@,
            "faster"@,
            "fast"@,
            "medium"@,
            "slow"@,
            "slower"@,
            "veryslow"@,
            "placebo"@,
        ][position],
{
}

/// A process that could not be stopped has one failure, and one that was has none.
pub proof fn unstopped_processes_have_one_failure(
    step: TerminationStep,
    message: Seq<char>,
    other: Seq<char>,
)
    requires
        step.failed_with(message),
    ensures
        step.failed_with(other) ==> other == message,
        step is Ended,
        step != TerminationStep::Ended(Ok(())),
{
}

} // verus!
