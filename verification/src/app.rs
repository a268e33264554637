//! The state of the application: what the user has chosen, how a job is going, and
//! how both answer to what happens.

pub mod settings;
pub mod state;
pub mod view;

use crate::app::settings::{
    EncoderPreset, H264Profile, MainPageTab, VideoEncoder, ENCODER_THREAD_COUNT_MAX,
    ENCODING_QUALITY_MAX,
};
use crate::app::state::{
    contains_encoder, read_number, BackgroundMode, ContentSettings, EncodingSettings,
    HardwareSettings, JobState, KeyOutcome, NumberField, OpenMenus, PageSelection,
    PreservedStreams, SourceSelection, TARGET_FPS_DEFAULT,
};
use crate::backend::{CudaInferenceStatus, InferenceBackend, GPU_COUNT_MAX};
use crate::cadence::ContentPreset;
use crate::host::{display_text, file_name_text, path_from_text};
use crate::pipeline::media::EncoderSettings;
use crate::pipeline::{
    default_output_path, JobConfiguration, JobUpdate, VideoMetadata, TARGET_FPS_MAX,
};
use crate::ratio::Ratio;
use crate::text::parse_unsigned;
use crate::tray::TrayCommand;
use crate::{app, host, pipeline, text};
use std::path::PathBuf;
use vstd::prelude::*;
use vstd::utf8::*;

verus! {

/// How many updates of a job are taken in at once.
pub const UPDATE_DRAIN_COUNT_MAX: usize = 4;

/// How many digits the field of the target rate holds.
pub const TARGET_FPS_DIGIT_COUNT_MAX: usize = 3;

/// How many commands of the tray are taken in at once.
pub const TRAY_COMMAND_DRAIN_COUNT_MAX: usize = 4;

/// Everything that the application knows.
pub struct InterpolateApp {
    pub source: SourceSelection,
    pub hardware: HardwareSettings,
    pub target_fps: NumberField,
    pub encoding: EncodingSettings,
    pub content: ContentSettings,
    pub streams: PreservedStreams,
    pub menus: OpenMenus,
    pub pages: PageSelection,
    pub job: JobState,
    pub background: BackgroundMode,
    pub status: String,
    pub error: Option<String>,
}

/// What a job is started with.
pub struct JobRequest {
    pub configuration: JobConfiguration,
    pub use_nvdec: bool,
    pub inference_backend: InferenceBackend,
    pub video_encoder: VideoEncoder,
    pub encoder_preset: EncoderPreset,
    pub quality_level: u8,
    pub h264_profile: H264Profile,
    pub encoder_thread_count: u8,
    pub preserve_audio: bool,
    pub preserve_subtitles: bool,
    pub preserve_metadata: bool,
}

impl JobRequest {
    /// What of the request the encoder is told.
    pub open spec fn encoder(self) -> EncoderSettings {
        EncoderSettings {
            video_encoder: self.video_encoder,
            preset: self.encoder_preset,
            quality_level: self.quality_level,
            h264_profile: self.h264_profile,
            thread_count: self.encoder_thread_count,
            preserve_audio: self.preserve_audio,
            preserve_subtitles: self.preserve_subtitles,
            preserve_metadata: self.preserve_metadata,
        }
    }

    /// What of the request the encoder is told.
    pub fn encoder_settings(&self) -> (settings: EncoderSettings)
        ensures
            settings == self.encoder(),
    {
        EncoderSettings {
            video_encoder: self.video_encoder,
            preset: self.encoder_preset,
            quality_level: self.quality_level,
            h264_profile: self.h264_profile,
            thread_count: self.encoder_thread_count,
            preserve_audio: self.preserve_audio,
            preserve_subtitles: self.preserve_subtitles,
            preserve_metadata: self.preserve_metadata,
        }
    }
}

/// What the front end does after a command of the tray.
#[derive(Clone, Copy, Debug, PartialEq, Eq, Structural)]
pub enum TrayAction {
    /// Bring the window to the front.
    ShowWindow,
    /// Show the new status.
    Refresh,
    /// Nothing.
    Nothing,
    /// Leave the application.
    Quit,
}

/// What the front end asks for an output with.
pub struct OutputPrompt {
    pub directory: PathBuf,
    pub suggested: Option<String>,
}

impl InterpolateApp {
    /// Every part is in order, a menu with nothing in it is closed, and so are all but
    /// that of backends while a job runs.
    pub open spec fn well_formed(self) -> bool {
        &&& self.hardware.well_formed()
        &&& self.target_fps.well_formed(
            TARGET_FPS_DIGIT_COUNT_MAX as int,
            1,
            TARGET_FPS_MAX as int,
        )
        &&& self.encoding.well_formed()
        &&& self.content.well_formed(self.source.metadata)
        &&& self.menus.well_formed()
        &&& self.menus.gpu ==> self.hardware.gpu_names@.len() > 0
        &&& self.menus.video_encoder ==> self.hardware.video_encoders@.len() > 0
        &&& self.job.running ==> self.menus == self.menus.only_backends()
        &&& self.job.well_formed()
        &&& self.background.well_formed()
    }

    /// Whether the error that is shown is the given one.
    pub open spec fn shows_error(self, message: Seq<char>) -> bool {
        self.error matches Some(error) && error@ == message
    }

    /// The application at its start. The input is the first argument where that is a
    /// file; the output the second, or else the default of the input.
    pub fn new(
        input_path: Option<PathBuf>,
        output_argument: Option<PathBuf>,
        metadata: Option<VideoMetadata>,
        gpus: Result<Vec<String>, String>,
        video_encoders: Vec<VideoEncoder>,
        cuda_status: CudaInferenceStatus,
        tray_available: bool,
        tray_error: Option<String>,
    ) -> (app: InterpolateApp)
        requires
            gpus matches Ok(names) ==> names@.len() <= GPU_COUNT_MAX,
            video_encoders@.len() <= 3,
            0 < encode_utf8(cuda_status.reason@).len() < 256,
        ensures
            app.well_formed(),
            app.source.input_path == input_path,
            app.source.metadata == metadata,
            match (output_argument, input_path) {
                (Some(output), _) => app.source.output_path == Some(output),
                (None, Some(input)) => app.source.output_path matches Some(output)
                    && app::state::is_default_output(output, input, TARGET_FPS_DEFAULT, true),
                (None, None) => app.source.output_path is None,
            },
            match gpus {
                Ok(names) => app.hardware.gpu_names == names && (if names@.len() > 0 {
                    app.error is None
                } else {
                    app.shows_error("No Vulkan GPU was found"@)
                }),
                Err(error) => app.hardware.gpu_names@.len() == 0 && app.error == Some(error),
            },
            app.hardware == (HardwareSettings {
                gpu_names: app.hardware.gpu_names,
                selected_gpu_index: 0,
                video_encoders,
                selected_video_encoder: 0,
                use_nvdec: false,
                cuda_inference_available: cuda_status.available,
                cuda_inference_unavailable_reason: cuda_status.reason,
                cuda_inference_enabled: false,
            }),
            app.target_fps.value == 120 && app.target_fps.input@ == "120"@
                && !app.target_fps.replace_on_type,
            app.encoding.quality.value == 18 && app.encoding.quality.input@ == "18"@
                && !app.encoding.quality.replace_on_type,
            app.encoding.thread_count.value == 2 && app.encoding.thread_count.input@ == "2"@
                && !app.encoding.thread_count.replace_on_type,
            app.encoding.preset == app::state::first_preset(
                video_encoders@,
                VideoEncoder::Automatic,
            ),
            app.encoding.h264_profile == H264Profile::Auto,
            app.content == ContentSettings::defaults(ContentPreset::Movie, metadata),
            app.streams == (PreservedStreams { audio: true, subtitles: true, metadata: true }),
            app.menus == OpenMenus::none(),
            app.pages == (PageSelection {
                settings_page: false,
                main_page_tab: MainPageTab::Interpolation,
            }),
            app.job == JobState::before_frames(false),
            app.background == (BackgroundMode {
                tray_available,
                tray_unavailable_reason: tray_error,
                keep_running: tray_available,
            }),
            app.status@ == "Ready to interpolate"@,
    {
        let output_path = match output_argument {
            Some(path) => Some(path),
            None => match &input_path {
                Some(path) => Some(default_output_path(path.as_path(), TARGET_FPS_DEFAULT, true)),
                None => None,
            },
        };
        let mut gpu_names: Vec<String> = Vec::new();
        let mut error: Option<String> = None;
        match gpus {
            Ok(names) => {
                if names.len() == 0 {
                    error = Some("No Vulkan GPU was found".to_owned());
                }
                gpu_names = names;
            },
            Err(message) => {
                error = Some(message);
            },
        }
        let preset = if contains_encoder(&video_encoders, VideoEncoder::NvidiaH264) {
            EncoderPreset::NvidiaP5
        } else {
            EncoderPreset::X264Medium
        };
        proof {
            reveal_strlit("120");
            reveal_strlit("18");
            reveal_strlit("2");
            assert(text::all_digits("120"@));
            assert(text::all_digits("18"@));
            assert(text::all_digits("2"@));
            reveal(NumberField::holds_digits);
        }
        let content = ContentSettings::default_settings(ContentPreset::Movie, &metadata);
        InterpolateApp {
            source: SourceSelection { input_path, output_path, metadata },
            hardware: HardwareSettings {
                gpu_names,
                selected_gpu_index: 0,
                video_encoders,
                selected_video_encoder: 0,
                use_nvdec: false,
                cuda_inference_available: cuda_status.available,
                cuda_inference_unavailable_reason: cuda_status.reason,
                cuda_inference_enabled: false,
            },
            target_fps: NumberField {
                value: TARGET_FPS_DEFAULT,
                input: "120".to_owned(),
                replace_on_type: false,
            },
            encoding: EncodingSettings {
                quality: NumberField { value: 18, input: "18".to_owned(), replace_on_type: false },
                preset,
                h264_profile: H264Profile::Auto,
                thread_count: NumberField { value: 2, input: "2".to_owned(), replace_on_type: false },
            },
            content,
            streams: PreservedStreams { audio: true, subtitles: true, metadata: true },
            menus: OpenMenus::closed(),
            pages: PageSelection {
                settings_page: false,
                main_page_tab: MainPageTab::Interpolation,
            },
            job: JobState::fresh(false),
            background: BackgroundMode {
                tray_available,
                tray_unavailable_reason: tray_error,
                keep_running: tray_available,
            },
            status: "Ready to interpolate".to_owned(),
            error,
        }
    }

    /// What the front end does after a command of the tray.
    pub open spec fn tray_action(self, command: TrayCommand) -> TrayAction {
        match command {
            TrayCommand::Show => TrayAction::ShowWindow,
            TrayCommand::Cancel => if self.job.running {
                TrayAction::Refresh
            } else {
                TrayAction::Nothing
            },
            TrayCommand::Quit => if self.job.running {
                TrayAction::Refresh
            } else {
                TrayAction::Quit
            },
        }
    }

    /// The job after a command of the tray.
    pub open spec fn job_after_command(self, command: TrayCommand) -> JobState {
        if command == TrayCommand::Show || !self.job.running {
            self.job
        } else {
            JobState {
                cancellation: Some(true),
                quit_after_job: self.job.quit_after_job || command == TrayCommand::Quit,
                ..self.job
            }
        }
    }

    /// Whether the window may close.
    pub open spec fn window_may_close(self) -> bool {
        !(self.job.running && self.background.keep_running)
    }

    /// Takes in a command of the tray. Showing the window is left to the front end;
    /// cancelling asks a running job to stop; quitting does so too and leaves once the
    /// job has stopped, or at once where none is running.
    pub fn tray_command(&mut self, command: TrayCommand) -> (action: TrayAction)
        requires
            old(self).well_formed(),
        ensures
            final(self).well_formed(),
            action == old(self).tray_action(command),
            command == TrayCommand::Show || !old(self).job.running ==> *final(self) == *old(self),
            command != TrayCommand::Show && old(self).job.running ==> *final(self) == (
            InterpolateApp {
                job: old(self).job_after_command(command),
                status: final(self).status,
                ..*old(self)
            }),
            command != TrayCommand::Show && old(self).job.running ==> final(self).status@
                == if command == TrayCommand::Quit {
                "Cancelling before exit"@
            } else {
                "Cancelling after current frame"@
            },
    {
        match command {
            TrayCommand::Show => TrayAction::ShowWindow,
            TrayCommand::Cancel => {
                if self.job.cancellation.is_some() {
                    self.job.cancellation = Some(true);
                    self.status = "Cancelling after current frame".to_owned();
                    TrayAction::Refresh
                } else {
                    TrayAction::Nothing
                }
            },
            TrayCommand::Quit => {
                if self.job.cancellation.is_some() {
                    self.job.cancellation = Some(true);
                    self.job.quit_after_job = true;
                    self.status = "Cancelling before exit".to_owned();
                    TrayAction::Refresh
                } else {
                    TrayAction::Quit
                }
            },
        }
    }

    /// Whether another input can be chosen: not while a job runs.
    pub fn may_select_input(&self) -> (allowed: bool)
        ensures
            allowed == !self.job.running,
    {
        !self.job.running
    }

    /// Takes in the input that was chosen, and what probing it gave. The output becomes
    /// the default of the input where the input can be used.
    pub fn input_selected(&mut self, path: PathBuf, metadata: Result<VideoMetadata, String>)
        requires
            old(self).well_formed(),
        ensures
            final(self).well_formed(),
            match metadata {
                Ok(known) => {
                    &&& final(self).source.is_refreshed_from(
                        SourceSelection {
                            input_path: Some(path),
                            output_path: old(self).source.output_path,
                            metadata: Some(known),
                        },
                        old(self).target_fps.value,
                        old(self).content.scene_detection,
                    )
                    &&& final(self).error is None
                    &&& final(self).status@ == "Video ready"@
                },
                Err(error) => {
                    &&& final(self).source == (SourceSelection {
                        input_path: Some(path),
                        output_path: old(self).source.output_path,
                        metadata: None,
                    })
                    &&& final(self).error == Some(error)
                    &&& final(self).status@ == "Input needs attention"@
                },
            },
            *final(self) == (InterpolateApp {
                source: final(self).source,
                content: old(self).content.for_source(final(self).source.metadata),
                error: final(self).error,
                status: final(self).status,
                ..*old(self)
            }),
    {
        self.source.input_path = Some(path);
        match metadata {
            Ok(known) => {
                self.source.metadata = Some(known);
                self.source.refresh_default_output(
                    self.target_fps.value,
                    self.content.scene_detection,
                );
                self.error = None;
                self.status = "Video ready".to_owned();
            },
            Err(error) => {
                self.source.metadata = None;
                self.error = Some(error);
                self.status = "Input needs attention".to_owned();
            },
        }
        self.content.follow_source(&self.source.metadata);
    }

    /// What to ask for an output with, where one can be chosen: beside the input, and
    /// named as the output is now. Without an input there is an error instead.
    pub fn select_output(&mut self) -> (prompt: Option<OutputPrompt>)
        requires
            old(self).well_formed(),
            old(self).source.output_is_not_empty(),
        ensures
            final(self).well_formed(),
            prompt is Some <==> !old(self).job.running && old(self).source.input_path is Some,
            prompt matches Some(asked) ==> host::path_buf_bytes(asked.directory)
                == pipeline::paths::output_directory(
                host::path_buf_bytes(old(self).source.input_path->0),
            ) && host::is_option_text(
                asked.suggested,
                match old(self).source.output_path {
                    Some(path) => host::path_name_text(host::path_buf_bytes(path)),
                    None => None,
                },
            ),
            old(self).job.running || old(self).source.input_path is Some ==> *final(self) == *old(
                self),
            !old(self).job.running && old(self).source.input_path is None ==> final(
                self).shows_error("Choose an input video first"@) && *final(self) == (
            InterpolateApp { error: final(self).error, ..*old(self) }),
    {
        if self.job.running {
            return None;
        }
        if self.source.input_path.is_none() {
            self.error = Some("Choose an input video first".to_owned());
            return None;
        }
        match &self.source.input_path {
            None => None,
            Some(input_path) => {
                let directory = match input_path.as_path().parent() {
                    Some(parent) => parent.to_path_buf(),
                    None => path_from_text("."),
                };
                let suggested = match &self.source.output_path {
                    Some(path) => file_name_text(path.as_path()),
                    None => None,
                };
                Some(OutputPrompt { directory, suggested })
            },
        }
    }

    /// Takes in the output that was chosen.
    pub fn output_selected(&mut self, path: PathBuf)
        requires
            old(self).well_formed(),
        ensures
            final(self).well_formed(),
            *final(self) == (InterpolateApp {
                source: SourceSelection { output_path: Some(path), ..old(self).source },
                error: None,
                ..*old(self)
            }),
    {
        self.source.output_path = Some(path);
        self.error = None;
    }

    /// Enters the field of the target rate: the next digit replaces what is there.
    /// Returns whether the field is entered, which no running job lets it.
    pub fn focus_target_fps(&mut self) -> (focused: bool)
        requires
            old(self).well_formed(),
        ensures
            final(self).well_formed(),
            focused == !old(self).job.running,
            !focused ==> *final(self) == *old(self),
            focused ==> *final(self) == (InterpolateApp {
                target_fps: NumberField { replace_on_type: true, ..old(self).target_fps },
                ..*old(self)
            }),
    {
        if self.job.running {
            return false;
        }
        self.target_fps.focus();
        true
    }

    /// What a key makes of the text of the target rate.
    pub open spec fn edited_target_fps(self, key: Seq<char>, key_char: Option<Seq<char>>) -> Option<
        Seq<char>,
    > {
        self.target_fps.edited(key, key_char, TARGET_FPS_DIGIT_COUNT_MAX as int)
    }

    /// Whether a key leaves the field of the target rate with a rate that is allowed, so
    /// that the default output follows it.
    pub open spec fn key_sets_target_fps(self, key: Seq<char>, key_char: Option<Seq<char>>) -> bool {
        &&& !self.job.running
        &&& self.edited_target_fps(key, key_char) matches Some(edited)
        &&& app::state::number_in(edited, 1, TARGET_FPS_MAX as nat) is Some
    }

    /// Whether a key would leave the field of the target rate with a rate that is
    /// allowed.
    pub fn sets_target_fps(&self, key: &str, key_char: Option<&str>) -> (sets: bool)
        requires
            self.well_formed(),
        ensures
            sets == self.key_sets_target_fps(key@, pipeline::paths::option_text(key_char)),
    {
        if self.job.running {
            return false;
        }
        let mut field = NumberField {
            value: self.target_fps.value,
            input: self.target_fps.input.clone(),
            replace_on_type: self.target_fps.replace_on_type,
        };
        let (outcome, valid) = field.edit(
            key,
            key_char,
            TARGET_FPS_DIGIT_COUNT_MAX,
            1,
            TARGET_FPS_MAX,
        );
        outcome != KeyOutcome::Ignored && valid
    }

    /// Takes in a key in the field of the target rate, unless a job is running. A rate
    /// that is allowed is used at once, and the default output follows it; another one
    /// is an error, and the last that was allowed stays.
    pub fn edit_target_fps(&mut self, key: &str, key_char: Option<&str>) -> (outcome: KeyOutcome)
        requires
            old(self).well_formed(),
            old(self).key_sets_target_fps(key@, pipeline::paths::option_text(key_char)) ==> old(
                self).source.may_refresh(),
        ensures
            final(self).well_formed(),
            outcome == if old(self).job.running {
                KeyOutcome::Ignored
            } else {
                app::state::key_outcome(
                    old(self).edited_target_fps(key@, pipeline::paths::option_text(key_char)),
                    key@,
                )
            },
            outcome == KeyOutcome::Ignored ==> *final(self) == *old(self),
            outcome != KeyOutcome::Ignored ==> {
                &&& final(self).target_fps.is_edited_from(
                    old(self).target_fps,
                    key@,
                    pipeline::paths::option_text(key_char),
                    TARGET_FPS_DIGIT_COUNT_MAX as int,
                    1,
                    TARGET_FPS_MAX as nat,
                )
                &&& *final(self) == (InterpolateApp {
                    target_fps: final(self).target_fps,
                    source: final(self).source,
                    error: final(self).error,
                    ..*old(self)
                })
                &&& if old(self).key_sets_target_fps(key@, pipeline::paths::option_text(key_char)) {
                    &&& final(self).source.is_refreshed_from(
                        old(self).source,
                        final(self).target_fps.value,
                        old(self).content.scene_detection,
                    )
                    &&& final(self).error is None
                } else {
                    &&& final(self).source == old(self).source
                    &&& final(self).shows_error("Target frame rate must be between 1 and 480 FPS"@)
                }
            },
    {
        if self.job.running {
            return KeyOutcome::Ignored;
        }
        let (outcome, valid) = self.target_fps.edit(
            key,
            key_char,
            TARGET_FPS_DIGIT_COUNT_MAX,
            1,
            TARGET_FPS_MAX,
        );
        if outcome == KeyOutcome::Ignored {
            return outcome;
        }
        if valid {
            self.source.refresh_default_output(self.target_fps.value, self.content.scene_detection);
            self.error = None;
        } else {
            self.error = Some("Target frame rate must be between 1 and 480 FPS".to_owned());
        }
        outcome
    }

    /// Enters the field of the quality: the next digit replaces what is there. Returns
    /// whether the field is entered, which no running job lets it.
    pub fn focus_encoding_quality(&mut self) -> (focused: bool)
        requires
            old(self).well_formed(),
        ensures
            final(self).well_formed(),
            focused == !old(self).job.running,
            !focused ==> *final(self) == *old(self),
            focused ==> *final(self) == (InterpolateApp {
                encoding: EncodingSettings {
                    quality: NumberField { replace_on_type: true, ..old(self).encoding.quality },
                    ..old(self).encoding
                },
                ..*old(self)
            }),
    {
        if self.job.running {
            return false;
        }
        self.encoding.quality.focus();
        true
    }

    /// Takes in a key in the field of the quality, unless a job is running. A level that
    /// is allowed is used at once; another one is an error, and the last that was
    /// allowed stays.
    pub fn edit_encoding_quality(&mut self, key: &str, key_char: Option<&str>) -> (outcome:
        KeyOutcome)
        requires
            old(self).well_formed(),
        ensures
            final(self).well_formed(),
            outcome == if old(self).job.running {
                KeyOutcome::Ignored
            } else {
                app::state::key_outcome(
                    old(self).encoding.quality.edited(
                        key@,
                        pipeline::paths::option_text(key_char),
                        2,
                    ),
                    key@,
                )
            },
            outcome == KeyOutcome::Ignored ==> *final(self) == *old(self),
            outcome != KeyOutcome::Ignored ==> {
                &&& final(self).encoding.quality.is_edited_from(
                    old(self).encoding.quality,
                    key@,
                    pipeline::paths::option_text(key_char),
                    2,
                    0,
                    ENCODING_QUALITY_MAX as nat,
                )
                &&& *final(self) == (InterpolateApp {
                    encoding: EncodingSettings {
                        quality: final(self).encoding.quality,
                        ..old(self).encoding
                    },
                    error: final(self).error,
                    ..*old(self)
                })
                &&& if app::state::number_in(
                    final(self).encoding.quality.input@,
                    0,
                    ENCODING_QUALITY_MAX as nat,
                ) is Some {
                    final(self).error is None
                } else {
                    final(self).shows_error("Encoding quality must be between 0 and 51"@)
                }
            },
    {
        if self.job.running {
            return KeyOutcome::Ignored;
        }
        let (outcome, valid) = self.encoding.edit_quality(key, key_char);
        if outcome != KeyOutcome::Ignored {
            self.error = field_error(valid, "Encoding quality must be between 0 and 51");
        }
        outcome
    }

    /// Enters the field of the encoder threads: the next digit replaces what is there.
    /// Returns whether the field is entered, which no running job lets it.
    pub fn focus_encoder_thread_count(&mut self) -> (focused: bool)
        requires
            old(self).well_formed(),
        ensures
            final(self).well_formed(),
            focused == !old(self).job.running,
            !focused ==> *final(self) == *old(self),
            focused ==> *final(self) == (InterpolateApp {
                encoding: EncodingSettings {
                    thread_count: NumberField {
                        replace_on_type: true,
                        ..old(self).encoding.thread_count
                    },
                    ..old(self).encoding
                },
                ..*old(self)
            }),
    {
        if self.job.running {
            return false;
        }
        self.encoding.thread_count.focus();
        true
    }

    /// Takes in a key in the field of the encoder threads, unless a job is running. A
    /// count that is allowed is used at once; another one is an error, and the last that
    /// was allowed stays.
    pub fn edit_encoder_thread_count(&mut self, key: &str, key_char: Option<&str>) -> (outcome:
        KeyOutcome)
        requires
            old(self).well_formed(),
        ensures
            final(self).well_formed(),
            outcome == if old(self).job.running {
                KeyOutcome::Ignored
            } else {
                app::state::key_outcome(
                    old(self).encoding.thread_count.edited(
                        key@,
                        pipeline::paths::option_text(key_char),
                        2,
                    ),
                    key@,
                )
            },
            outcome == KeyOutcome::Ignored ==> *final(self) == *old(self),
            outcome != KeyOutcome::Ignored ==> {
                &&& final(self).encoding.thread_count.is_edited_from(
                    old(self).encoding.thread_count,
                    key@,
                    pipeline::paths::option_text(key_char),
                    2,
                    0,
                    ENCODER_THREAD_COUNT_MAX as nat,
                )
                &&& *final(self) == (InterpolateApp {
                    encoding: EncodingSettings {
                        thread_count: final(self).encoding.thread_count,
                        ..old(self).encoding
                    },
                    error: final(self).error,
                    ..*old(self)
                })
                &&& if app::state::number_in(
                    final(self).encoding.thread_count.input@,
                    0,
                    ENCODER_THREAD_COUNT_MAX as nat,
                ) is Some {
                    final(self).error is None
                } else {
                    final(self).shows_error("Encoder threads must be between 0 and 16"@)
                }
            },
    {
        if self.job.running {
            return KeyOutcome::Ignored;
        }
        let (outcome, valid) = self.encoding.edit_thread_count(key, key_char);
        if outcome != KeyOutcome::Ignored {
            self.error = field_error(valid, "Encoder threads must be between 0 and 16");
        }
        outcome
    }

    /// Opens or closes the menu of encoder presets, and closes that of profiles.
    pub fn toggle_encoder_preset_menu(&mut self)
        requires
            old(self).well_formed(),
            !old(self).job.running,
        ensures
            final(self).well_formed(),
            *final(self) == (InterpolateApp {
                menus: OpenMenus {
                    encoder_preset: !old(self).menus.encoder_preset,
                    h264_profile: false,
                    ..old(self).menus
                },
                ..*old(self)
            }),
    {
        self.menus.encoder_preset = !self.menus.encoder_preset;
        self.menus.h264_profile = false;
    }

    /// Selects an encoder preset, unless a job is running.
    pub fn select_encoder_preset(&mut self, preset: EncoderPreset)
        requires
            old(self).well_formed(),
        ensures
            final(self).well_formed(),
            old(self).job.running ==> *final(self) == *old(self),
            !old(self).job.running ==> *final(self) == (InterpolateApp {
                encoding: EncodingSettings { preset, ..old(self).encoding },
                menus: OpenMenus { encoder_preset: false, ..old(self).menus },
                ..*old(self)
            }),
    {
        if !self.job.running {
            self.encoding.preset = preset;
            self.menus.encoder_preset = false;
        }
    }

    /// Opens or closes the menu of profiles, and closes that of encoder presets, unless a
    /// job is running.
    pub fn toggle_h264_profile_menu(&mut self)
        requires
            old(self).well_formed(),
        ensures
            final(self).well_formed(),
            old(self).job.running ==> *final(self) == *old(self),
            !old(self).job.running ==> *final(self) == (InterpolateApp {
                menus: OpenMenus {
                    h264_profile: !old(self).menus.h264_profile,
                    encoder_preset: false,
                    ..old(self).menus
                },
                ..*old(self)
            }),
    {
        if !self.job.running {
            self.menus.h264_profile = !self.menus.h264_profile;
            self.menus.encoder_preset = false;
        }
    }

    /// Selects a profile, unless a job is running.
    pub fn select_h264_profile(&mut self, profile: H264Profile)
        requires
            old(self).well_formed(),
        ensures
            final(self).well_formed(),
            old(self).job.running ==> *final(self) == *old(self),
            !old(self).job.running ==> *final(self) == (InterpolateApp {
                encoding: EncodingSettings { h264_profile: profile, ..old(self).encoding },
                menus: OpenMenus { h264_profile: false, ..old(self).menus },
                ..*old(self)
            }),
    {
        if !self.job.running {
            self.encoding.h264_profile = profile;
            self.menus.h264_profile = false;
        }
    }

    /// Turns the copying of sound on or off, unless a job is running.
    pub fn toggle_preserve_audio(&mut self)
        requires
            old(self).well_formed(),
        ensures
            final(self).well_formed(),
            old(self).job.running ==> *final(self) == *old(self),
            !old(self).job.running ==> *final(self) == (InterpolateApp {
                streams: PreservedStreams { audio: !old(self).streams.audio, ..old(self).streams },
                ..*old(self)
            }),
    {
        if !self.job.running {
            self.streams.audio = !self.streams.audio;
        }
    }

    /// Turns the copying of subtitles on or off, unless a job is running.
    pub fn toggle_preserve_subtitles(&mut self)
        requires
            old(self).well_formed(),
        ensures
            final(self).well_formed(),
            old(self).job.running ==> *final(self) == *old(self),
            !old(self).job.running ==> *final(self) == (InterpolateApp {
                streams: PreservedStreams {
                    subtitles: !old(self).streams.subtitles,
                    ..old(self).streams
                },
                ..*old(self)
            }),
    {
        if !self.job.running {
            self.streams.subtitles = !self.streams.subtitles;
        }
    }

    /// Turns the copying of metadata on or off, unless a job is running.
    pub fn toggle_preserve_metadata(&mut self)
        requires
            old(self).well_formed(),
        ensures
            final(self).well_formed(),
            old(self).job.running ==> *final(self) == *old(self),
            !old(self).job.running ==> *final(self) == (InterpolateApp {
                streams: PreservedStreams {
                    metadata: !old(self).streams.metadata,
                    ..old(self).streams
                },
                ..*old(self)
            }),
    {
        if !self.job.running {
            self.streams.metadata = !self.streams.metadata;
        }
    }

    /// Turns to the settings page or away from it, and closes every menu.
    pub fn set_settings_page(&mut self, settings_page: bool)
        requires
            old(self).well_formed(),
        ensures
            final(self).well_formed(),
            *final(self) == (InterpolateApp {
                pages: PageSelection { settings_page, ..old(self).pages },
                menus: OpenMenus::none(),
                ..*old(self)
            }),
    {
        self.pages.settings_page = settings_page;
        self.menus = OpenMenus::closed();
    }

    /// Turns to a tab of the main page, and closes every menu.
    pub fn set_main_page_tab(&mut self, tab: MainPageTab)
        requires
            old(self).well_formed(),
        ensures
            final(self).well_formed(),
            *final(self) == (InterpolateApp {
                pages: PageSelection { main_page_tab: tab, ..old(self).pages },
                menus: OpenMenus::none(),
                ..*old(self)
            }),
    {
        self.pages.main_page_tab = tab;
        self.menus = OpenMenus::closed();
    }

    /// Selects a tab of the main page.
    pub fn select_main_page_tab(&mut self, tab: MainPageTab)
        requires
            old(self).well_formed(),
        ensures
            final(self).well_formed(),
            *final(self) == (InterpolateApp {
                pages: PageSelection { main_page_tab: tab, ..old(self).pages },
                menus: OpenMenus::none(),
                ..*old(self)
            }),
    {
        self.set_main_page_tab(tab);
    }

    /// Turns to the main page.
    pub fn show_encode_page(&mut self)
        requires
            old(self).well_formed(),
        ensures
            final(self).well_formed(),
            *final(self) == (InterpolateApp {
                pages: PageSelection { settings_page: false, ..old(self).pages },
                menus: OpenMenus::none(),
                ..*old(self)
            }),
    {
        self.set_settings_page(false);
    }

    /// Turns to the settings page.
    pub fn show_settings_page(&mut self)
        requires
            old(self).well_formed(),
        ensures
            final(self).well_formed(),
            *final(self) == (InterpolateApp {
                pages: PageSelection { settings_page: true, ..old(self).pages },
                menus: OpenMenus::none(),
                ..*old(self)
            }),
    {
        self.set_settings_page(true);
    }

    /// Opens or closes the menu of GPUs, and closes the others but that of backends,
    /// unless a job is running or there is no GPU.
    pub fn toggle_gpu_menu(&mut self)
        requires
            old(self).well_formed(),
        ensures
            final(self).well_formed(),
            old(self).job.running || old(self).hardware.gpu_names@.len() == 0 ==> *final(self)
                == *old(self),
            !old(self).job.running && old(self).hardware.gpu_names@.len() > 0 ==> *final(self) == (
            InterpolateApp {
                menus: OpenMenus { gpu: !old(self).menus.gpu, ..old(self).menus.only_backends() },
                ..*old(self)
            }),
    {
        if !self.job.running && self.hardware.gpu_names.len() > 0 {
            let open = !self.menus.gpu;
            self.menus = self.menus.closed_but_backends();
            self.menus.gpu = open;
        }
    }

    /// Selects a GPU, unless a job is running.
    pub fn select_gpu(&mut self, gpu_index: usize)
        requires
            old(self).well_formed(),
            gpu_index < old(self).hardware.gpu_names@.len(),
        ensures
            final(self).well_formed(),
            old(self).job.running ==> *final(self) == *old(self),
            !old(self).job.running ==> *final(self) == (InterpolateApp {
                hardware: HardwareSettings { selected_gpu_index: gpu_index, ..old(self).hardware },
                menus: OpenMenus { gpu: false, ..old(self).menus },
                ..*old(self)
            }),
    {
        if !self.job.running {
            self.hardware.selected_gpu_index = gpu_index;
            self.menus.gpu = false;
        }
    }

    /// Opens or closes the menu of encoders, and closes the others but that of backends,
    /// unless a job is running or there is no encoder.
    pub fn toggle_video_encoder_menu(&mut self)
        requires
            old(self).well_formed(),
        ensures
            final(self).well_formed(),
            old(self).job.running || old(self).hardware.video_encoders@.len() == 0 ==> *final(self)
                == *old(self),
            !old(self).job.running && old(self).hardware.video_encoders@.len() > 0 ==> *final(self)
                == (InterpolateApp {
                menus: OpenMenus {
                    video_encoder: !old(self).menus.video_encoder,
                    ..old(self).menus.only_backends()
                },
                ..*old(self)
            }),
    {
        if !self.job.running && self.hardware.video_encoders.len() > 0 {
            let open = !self.menus.video_encoder;
            self.menus = self.menus.closed_but_backends();
            self.menus.video_encoder = open;
        }
    }

    /// Selects an encoder, with the preset that it is used with at first, unless a job is
    /// running.
    pub fn select_video_encoder(&mut self, encoder_index: usize)
        requires
            old(self).well_formed(),
            encoder_index < old(self).hardware.video_encoders@.len(),
        ensures
            final(self).well_formed(),
            old(self).job.running ==> *final(self) == *old(self),
            !old(self).job.running ==> *final(self) == (InterpolateApp {
                hardware: HardwareSettings {
                    selected_video_encoder: encoder_index,
                    ..old(self).hardware
                },
                encoding: EncodingSettings {
                    preset: app::state::first_preset(
                        old(self).hardware.video_encoders@,
                        old(self).hardware.video_encoders@[encoder_index as int],
                    ),
                    ..old(self).encoding
                },
                menus: OpenMenus { video_encoder: false, ..old(self).menus },
                ..*old(self)
            }),
    {
        if !self.job.running {
            let selected_encoder = self.hardware.video_encoders[encoder_index];
            self.encoding.preset = self.hardware.default_encoder_preset(selected_encoder);
            self.hardware.selected_video_encoder = encoder_index;
            self.menus.video_encoder = false;
        }
    }

    /// Opens or closes the menu of backends, and closes the others, unless a job is
    /// running.
    pub fn toggle_inference_backend_menu(&mut self)
        requires
            old(self).well_formed(),
            !(old(self).job.running && old(self).menus.inference_backend),
        ensures
            final(self).well_formed(),
            old(self).job.running ==> *final(self) == *old(self),
            !old(self).job.running ==> *final(self) == (InterpolateApp {
                menus: OpenMenus {
                    inference_backend: !old(self).menus.inference_backend,
                    ..OpenMenus::none()
                },
                ..*old(self)
            }),
    {
        if !self.job.running {
            let open = !self.menus.inference_backend;
            self.menus = OpenMenus::closed();
            self.menus.inference_backend = open;
        }
    }

    /// Selects a backend, unless a job is running.
    pub fn select_inference_backend(&mut self, use_cuda: bool)
        requires
            old(self).well_formed(),
            use_cuda ==> old(self).hardware.cuda_inference_available,
            !(old(self).job.running && old(self).menus.inference_backend),
        ensures
            final(self).well_formed(),
            old(self).job.running ==> *final(self) == *old(self),
            !old(self).job.running ==> *final(self) == (InterpolateApp {
                hardware: HardwareSettings {
                    cuda_inference_enabled: use_cuda,
                    ..old(self).hardware
                },
                menus: OpenMenus { inference_backend: false, ..old(self).menus },
                ..*old(self)
            }),
    {
        if !self.job.running {
            self.hardware.cuda_inference_enabled = use_cuda;
            self.menus.inference_backend = false;
        }
    }

    /// Turns decoding on the NVIDIA GPU on or off, where it is available and no job is
    /// running.
    pub fn toggle_nvdec(&mut self)
        requires
            old(self).well_formed(),
        ensures
            final(self).well_formed(),
            *final(self) == (InterpolateApp {
                hardware: HardwareSettings {
                    use_nvdec: if !old(self).job.running
                        && old(self).hardware.video_encoders@.contains(VideoEncoder::NvidiaH264) {
                        !old(self).hardware.use_nvdec
                    } else {
                        old(self).hardware.use_nvdec
                    },
                    ..old(self).hardware
                },
                ..*old(self)
            }),
    {
        if !self.job.running && contains_encoder(
            &self.hardware.video_encoders,
            VideoEncoder::NvidiaH264,
        ) {
            self.hardware.use_nvdec = !self.hardware.use_nvdec;
        }
    }

    /// Opens or closes the menu of content presets, and closes the others but that of
    /// backends, unless a job is running.
    pub fn toggle_preset_menu(&mut self)
        requires
            old(self).well_formed(),
        ensures
            final(self).well_formed(),
            old(self).job.running ==> *final(self) == *old(self),
            !old(self).job.running ==> *final(self) == (InterpolateApp {
                menus: OpenMenus {
                    preset: !old(self).menus.preset,
                    ..old(self).menus.only_backends()
                },
                ..*old(self)
            }),
    {
        if !self.job.running {
            let open = !self.menus.preset;
            self.menus = self.menus.closed_but_backends();
            self.menus.preset = open;
        }
    }

    /// Selects a content preset, unless a job is running: its settings become the
    /// defaults of the preset, whatever was overridden before, and the default output
    /// follows them.
    pub fn select_content_preset(&mut self, preset: ContentPreset)
        requires
            old(self).well_formed(),
            old(self).job.running || old(self).source.may_refresh(),
        ensures
            final(self).well_formed(),
            old(self).job.running ==> *final(self) == *old(self),
            !old(self).job.running ==> final(self).source.is_refreshed_from(
                old(self).source,
                old(self).target_fps.value,
                true,
            ) && *final(self) == (InterpolateApp {
                content: ContentSettings::defaults(preset, old(self).source.metadata),
                menus: OpenMenus { preset: false, ..old(self).menus },
                source: final(self).source,
                ..*old(self)
            }),
    {
        if !self.job.running {
            self.content = ContentSettings::default_settings(preset, &self.source.metadata);
            self.menus.preset = false;
            self.source.refresh_default_output(self.target_fps.value, self.content.scene_detection);
        }
    }

    /// Whether scene protection can be turned on or off now: only Movie lets it, and
    /// not while a job runs.
    pub open spec fn may_toggle_scene_detection(self) -> bool {
        !self.job.running && self.content.preset == ContentPreset::Movie
    }

    /// Turns scene protection on or off, where that is possible, and lets the default
    /// output follow.
    pub fn toggle_scene_detection(&mut self)
        requires
            old(self).well_formed(),
            old(self).source.output_is_not_empty(),
            old(self).may_toggle_scene_detection() ==> old(self).source.may_refresh(),
        ensures
            final(self).well_formed(),
            !old(self).may_toggle_scene_detection() ==> *final(self) == *old(self),
            old(self).may_toggle_scene_detection() ==> final(self).source.is_refreshed_from(
                old(self).source,
                old(self).target_fps.value,
                !old(self).content.scene_detection,
            ) && *final(self) == (InterpolateApp {
                content: old(self).content.with_scene_detection_toggled(),
                source: final(self).source,
                ..*old(self)
            }),
    {
        if !self.job.running && self.content.preset == ContentPreset::Movie {
            self.content.toggle_scene_detection();
            self.source.refresh_default_output(self.target_fps.value, self.content.scene_detection);
        }
    }

    /// Turns half-scale flow on or off, unless a job is running, and notes whether that
    /// overrides the preset.
    pub fn toggle_uhd_mode(&mut self)
        requires
            old(self).well_formed(),
        ensures
            final(self).well_formed(),
            old(self).job.running ==> *final(self) == *old(self),
            !old(self).job.running ==> *final(self) == (InterpolateApp {
                content: old(self).content.with_uhd_mode_toggled(old(self).source.metadata),
                ..*old(self)
            }),
    {
        if !self.job.running {
            self.content.toggle_uhd_mode(&self.source.metadata);
        }
    }

    /// Turns background mode on or off; without a tray it stays off, and the error says
    /// why.
    pub fn toggle_background_mode(&mut self)
        requires
            old(self).well_formed(),
        ensures
            final(self).well_formed(),
            *final(self) == (InterpolateApp {
                background: BackgroundMode {
                    keep_running: old(self).background.tray_available && !old(
                        self).background.keep_running,
                    ..old(self).background
                },
                error: final(self).error,
                ..*old(self)
            }),
            old(self).background.tray_available ==> final(self).error is None,
            !old(self).background.tray_available ==> final(self).shows_error(
                match old(self).background.tray_unavailable_reason {
                    Some(reason) => reason@,
                    None => "System tray integration is unavailable on this desktop"@,
                },
            ),
    {
        if self.background.tray_available {
            self.background.keep_running = !self.background.keep_running;
            self.error = None;
        } else {
            self.background.keep_running = false;
            self.error = Some(
                match &self.background.tray_unavailable_reason {
                    Some(reason) => reason.clone(),
                    None => "System tray integration is unavailable on this desktop".to_owned(),
                },
            );
        }
    }

    /// Why no job can be started, if none can: the first thing that is missing or
    /// wrong.
    pub open spec fn start_error(self) -> Option<Seq<char>> {
        if text::parsed_unsigned(self.target_fps.input@, u32::MAX as nat) is None {
            Some("Enter a target frame rate between 1 and 480 FPS"@)
        } else if app::state::number_in(
            self.target_fps.input@,
            1,
            TARGET_FPS_MAX as nat,
        ) is None {
            Some("Target frame rate must be between 1 and 480 FPS"@)
        } else if app::state::number_in(
            self.encoding.quality.input@,
            0,
            ENCODING_QUALITY_MAX as nat,
        ) is None {
            Some("Encoding quality must be between 0 and 51"@)
        } else if app::state::number_in(
            self.encoding.thread_count.input@,
            0,
            ENCODER_THREAD_COUNT_MAX as nat,
        ) is None {
            Some("Encoder threads must be between 0 and 16"@)
        } else if self.source.input_path is None {
            Some("Choose an input video"@)
        } else if self.source.output_path is None {
            Some("Choose an output filename"@)
        } else if self.hardware.gpu_names@.len() == 0 {
            Some("A Vulkan GPU is required"@)
        } else if self.hardware.video_encoders@.len() == 0 {
            Some("FFmpeg has no supported H.264 encoder"@)
        } else if self.hardware.selected_video_encoder >= self.hardware.video_encoders@.len() {
            Some("Choose a supported video encoder"@)
        } else {
            None
        }
    }

    /// The target rate that a job is started with: what the field says where that is
    /// allowed.
    pub open spec fn start_rate(self) -> u32 {
        match app::state::number_in(self.target_fps.input@, 1, TARGET_FPS_MAX as nat) {
            Some(rate) => rate as u32,
            None => self.target_fps.value,
        }
    }

    /// What a job is started with.
    pub open spec fn job_request(self) -> JobRequest {
        JobRequest {
            configuration: JobConfiguration {
                input_path: self.source.input_path->0,
                output_path: self.source.output_path->0,
                target_fps_num: self.start_rate(),
                target_fps_den: 1,
                gpu_index: self.hardware.selected_gpu_index as i32,
                content_preset: self.content.preset,
                scene_detection: self.content.scene_detection,
                use_uhd_mode: self.content.use_uhd_mode,
            },
            use_nvdec: self.hardware.use_nvdec,
            inference_backend: self.hardware.backend(),
            video_encoder: self.hardware.video_encoders@[self.hardware.selected_video_encoder as int],
            encoder_preset: self.encoding.preset,
            quality_level: self.encoding.quality.value as u8,
            h264_profile: self.encoding.h264_profile,
            encoder_thread_count: self.encoding.thread_count.value as u8,
            preserve_audio: self.streams.audio,
            preserve_subtitles: self.streams.subtitles,
            preserve_metadata: self.streams.metadata,
        }
    }

    /// Why no job can be started, if none can.
    fn start_obstacle(&self) -> (obstacle: Option<String>)
        ensures
            host::is_option_text(obstacle, self.start_error()),
    {
        if parse_unsigned(self.target_fps.input.as_str(), u32::MAX as u64).is_none() {
            return Some("Enter a target frame rate between 1 and 480 FPS".to_owned());
        }
        if read_number(self.target_fps.input.as_str(), 1, TARGET_FPS_MAX).is_none() {
            return Some("Target frame rate must be between 1 and 480 FPS".to_owned());
        }
        if read_number(
            self.encoding.quality.input.as_str(),
            0,
            ENCODING_QUALITY_MAX as u32,
        ).is_none() {
            return Some("Encoding quality must be between 0 and 51".to_owned());
        }
        if read_number(
            self.encoding.thread_count.input.as_str(),
            0,
            ENCODER_THREAD_COUNT_MAX as u32,
        ).is_none() {
            return Some("Encoder threads must be between 0 and 16".to_owned());
        }
        if self.source.input_path.is_none() {
            return Some("Choose an input video".to_owned());
        }
        if self.source.output_path.is_none() {
            return Some("Choose an output filename".to_owned());
        }
        if self.hardware.gpu_names.len() == 0 {
            return Some("A Vulkan GPU is required".to_owned());
        }
        if self.hardware.video_encoders.len() == 0 {
            return Some("FFmpeg has no supported H.264 encoder".to_owned());
        }
        if self.hardware.selected_video_encoder >= self.hardware.video_encoders.len() {
            return Some("Choose a supported video encoder".to_owned());
        }
        None
    }

    /// Uses the rate that the field gives, where that is allowed.
    fn adopt_start_rate(&mut self)
        requires
            old(self).well_formed(),
        ensures
            final(self).well_formed(),
            *final(self) == (InterpolateApp {
                target_fps: NumberField { value: old(self).start_rate(), ..old(self).target_fps },
                ..*old(self)
            }),
            final(self).start_error() == old(self).start_error(),
            final(self).start_rate() == old(self).start_rate(),
            final(self).job_request() == old(self).job_request(),
    {
        if let Some(rate) = read_number(self.target_fps.input.as_str(), 1, TARGET_FPS_MAX) {
            self.target_fps.value = rate;
        }
    }

    /// What a job is started with, once nothing stands in its way.
    fn build_request(&self) -> (request: Option<JobRequest>)
        requires
            self.well_formed(),
            self.start_error() is None,
            self.target_fps.value == self.start_rate(),
        ensures
            request == Some(self.job_request()),
    {
        match (&self.source.input_path, &self.source.output_path) {
            (Some(input_path), Some(output_path)) => Some(
                JobRequest {
                    configuration: JobConfiguration {
                        input_path: input_path.clone(),
                        output_path: output_path.clone(),
                        target_fps_num: self.target_fps.value,
                        target_fps_den: 1,
                        gpu_index: self.hardware.selected_gpu_index as i32,
                        content_preset: self.content.preset,
                        scene_detection: self.content.scene_detection,
                        use_uhd_mode: self.content.use_uhd_mode,
                    },
                    use_nvdec: self.hardware.use_nvdec,
                    inference_backend: self.hardware.inference_backend(),
                    video_encoder: self.hardware.video_encoders[self.hardware.selected_video_encoder],
                    encoder_preset: self.encoding.preset,
                    quality_level: self.encoding.quality.value as u8,
                    h264_profile: self.encoding.h264_profile,
                    encoder_thread_count: self.encoding.thread_count.value as u8,
                    preserve_audio: self.streams.audio,
                    preserve_subtitles: self.streams.subtitles,
                    preserve_metadata: self.streams.metadata,
                },
            ),
            _ => None,
        }
    }

    /// What a job is to be started with, where none is running and nothing is missing or
    /// wrong; otherwise the error says what. The job is not running yet.
    pub fn start_job(&mut self) -> (request: Option<JobRequest>)
        requires
            old(self).well_formed(),
        ensures
            final(self).well_formed(),
            request is Some <==> !old(self).job.running && old(self).start_error() is None,
            request matches Some(asked) ==> asked == old(self).job_request(),
            old(self).job.running ==> *final(self) == *old(self),
            !old(self).job.running ==> {
                &&& *final(self) == (InterpolateApp {
                    target_fps: NumberField { value: old(self).start_rate(), ..old(self).target_fps },
                    error: final(self).error,
                    ..*old(self)
                })
                &&& match old(self).start_error() {
                    Some(message) => final(self).shows_error(message),
                    None => final(self).error == old(self).error,
                }
            },
    {
        if self.job.running {
            return None;
        }
        self.adopt_start_rate();
        let obstacle = self.start_obstacle();
        if obstacle.is_some() {
            self.error = obstacle;
            return None;
        }
        self.build_request()
    }

    /// Takes in that the worker of a job could not be started.
    pub fn job_not_started(&mut self, reason: &str)
        requires
            old(self).well_formed(),
        ensures
            final(self).well_formed(),
            final(self).shows_error("failed to start interpolation worker: "@ + reason@),
            *final(self) == (InterpolateApp { error: final(self).error, ..*old(self) }),
    {
        let mut message = "failed to start interpolation worker: ".to_owned();
        message.append(reason);
        self.error = Some(message);
    }

    /// Takes in that a job has started, and why the tray could not show it, if it could
    /// not: without the tray there is no background mode.
    pub fn job_started(&mut self, tray_error: Option<String>)
        requires
            old(self).well_formed(),
            !old(self).job.running,
        ensures
            final(self).well_formed(),
            final(self).status@ == "Starting job"@,
            *final(self) == (InterpolateApp {
                job: JobState::before_frames(true),
                menus: old(self).menus.only_backends(),
                status: final(self).status,
                error: tray_error,
                background: BackgroundMode {
                    keep_running: old(self).background.keep_running && tray_error is None,
                    ..old(self).background
                },
                ..*old(self)
            }),
    {
        self.job = JobState::fresh(true);
        self.menus = self.menus.closed_but_backends();
        self.status = "Starting job".to_owned();
        if tray_error.is_some() {
            self.background.keep_running = false;
        }
        self.error = tray_error;
    }

    /// Asks the running job to stop. Returns whether there is one.
    pub fn cancel_job(&mut self) -> (cancelling: bool)
        requires
            old(self).well_formed(),
        ensures
            final(self).well_formed(),
            cancelling == old(self).job.running,
            !old(self).job.running ==> *final(self) == *old(self),
            old(self).job.running ==> final(self).status@ == "Cancelling after current frame"@
                && *final(self) == (InterpolateApp {
                job: JobState { cancellation: Some(true), ..old(self).job },
                status: final(self).status,
                ..*old(self)
            }),
    {
        if self.job.cancellation.is_some() {
            self.job.cancellation = Some(true);
            self.status = "Cancelling after current frame".to_owned();
            return true;
        }
        false
    }

    /// The state of the job after an update.
    pub open spec fn job_after(self, update: JobUpdate) -> JobState {
        match update {
            JobUpdate::Phase(_) => self.job,
            JobUpdate::Progress {
                frame_count,
                frame_count_estimate,
                processing_fps,
                progress,
                cadence_diagnostics,
                performance,
            } => JobState {
                frame_count,
                frame_count_estimate,
                processing_fps,
                progress: Ratio {
                    numerator: if progress.numerator <= progress.denominator {
                        progress.numerator
                    } else {
                        progress.denominator
                    },
                    denominator: progress.denominator,
                },
                cadence_diagnostics,
                performance,
                ..self.job
            },
            JobUpdate::Completed { path, cadence_diagnostics } => JobState {
                progress: Ratio { numerator: 1, denominator: 1 },
                cadence_diagnostics,
                ..self.job.stopped()
            },
            JobUpdate::Cancelled => self.job.stopped(),
            JobUpdate::Failed(_) => self.job.stopped(),
        }
    }

    /// The status after an update.
    pub open spec fn status_after(self, update: JobUpdate) -> Seq<char> {
        match update {
            JobUpdate::Phase(phase) => phase@,
            JobUpdate::Progress { .. } => self.status@,
            JobUpdate::Completed { path, cadence_diagnostics } => "Completed · "@
                + host::path_display(host::path_buf_bytes(path)),
            JobUpdate::Cancelled => "Cancelled safely"@,
            JobUpdate::Failed(_) => "Job failed"@,
        }
    }

    /// Whether everything is in order, apart from a wish to leave after a job that is
    /// over.
    pub open spec fn well_formed_but_leaving(self) -> bool {
        &&& (InterpolateApp {
            job: JobState { quit_after_job: false, ..self.job },
            ..self
        }).well_formed()
        &&& self.job.running ==> self.well_formed()
    }

    /// Takes in what a job tells. Returns whether no job is running any more: then
    /// `job_ended` follows.
    pub fn apply_update(&mut self, update: JobUpdate) -> (finished: bool)
        requires
            old(self).well_formed(),
            update matches JobUpdate::Progress { progress, .. } ==> progress.well_formed(),
        ensures
            finished == !final(self).job.running,
            final(self).well_formed_but_leaving(),
            final(self).status@ == old(self).status_after(update),
            *final(self) == (InterpolateApp {
                job: old(self).job_after(update),
                status: final(self).status,
                error: match update {
                    JobUpdate::Failed(error) => Some(error),
                    _ => old(self).error,
                },
                ..*old(self)
            }),
    {
        match update {
            JobUpdate::Phase(phase) => {
                self.status = phase.to_owned();
            },
            JobUpdate::Progress {
                frame_count,
                frame_count_estimate,
                processing_fps,
                progress,
                cadence_diagnostics,
                performance,
            } => {
                self.job.frame_count = frame_count;
                self.job.frame_count_estimate = frame_count_estimate;
                self.job.processing_fps = processing_fps;
                self.job.performance = performance;
                self.job.progress = progress.at_most_one();
                self.job.cadence_diagnostics = cadence_diagnostics;
            },
            JobUpdate::Completed { path, cadence_diagnostics } => {
                self.job.running = false;
                self.job.cancellation = None;
                self.job.progress = Ratio { numerator: 1, denominator: 1 };
                self.job.cadence_diagnostics = cadence_diagnostics;
                let place = display_text(path.as_path());
                let mut status = "Completed · ".to_owned();
                status.append(place.as_str());
                self.status = status;
            },
            JobUpdate::Cancelled => {
                self.job.running = false;
                self.job.cancellation = None;
                self.status = "Cancelled safely".to_owned();
            },
            JobUpdate::Failed(error) => {
                self.job.running = false;
                self.job.cancellation = None;
                self.status = "Job failed".to_owned();
                self.error = Some(error);
            },
        }
        !self.job.running
    }

    /// Takes in how the worker of a job that is over ended, and why the tray could not
    /// show it, if it could not. Returns whether the application is to be left.
    pub fn job_ended(&mut self, worker_panicked: bool, tray_error: Option<String>) -> (quit: bool)
        requires
            !old(self).job.running,
            old(self).well_formed_but_leaving(),
        ensures
            final(self).well_formed(),
            quit == old(self).job.quit_after_job,
            final(self).status@ == if worker_panicked {
                "Job failed"@
            } else {
                old(self).status@
            },
            match tray_error {
                Some(error) => final(self).error == Some(error),
                None => if worker_panicked {
                    final(self).shows_error("processing worker panicked"@)
                } else {
                    final(self).error == old(self).error
                },
            },
            *final(self) == (InterpolateApp {
                status: final(self).status,
                error: final(self).error,
                background: BackgroundMode {
                    keep_running: old(self).background.keep_running && tray_error is None,
                    ..old(self).background
                },
                job: JobState { quit_after_job: false, ..old(self).job },
                ..*old(self)
            }),
    {
        if worker_panicked {
            self.status = "Job failed".to_owned();
            self.error = Some("processing worker panicked".to_owned());
        }
        if tray_error.is_some() {
            self.background.keep_running = false;
            self.error = tray_error;
        }
        let quit = self.job.quit_after_job;
        self.job.quit_after_job = false;
        quit
    }

    /// What a job whose worker is gone without a last word tells, if a job was running.
    pub fn worker_lost(&self) -> (update: Option<JobUpdate>)
        ensures
            update is Some <==> self.job.running,
            update matches Some(told) ==> (told matches JobUpdate::Failed(message) && message@
                == "processing worker stopped unexpectedly"@),
    {
        if self.job.running {
            Some(JobUpdate::Failed("processing worker stopped unexpectedly".to_owned()))
        } else {
            None
        }
    }

    /// Whether the window may close. A job that runs in the background keeps it, and
    /// the window is minimized instead.
    pub fn close_requested(&mut self) -> (may_close: bool)
        requires
            old(self).well_formed(),
        ensures
            final(self).well_formed(),
            may_close == old(self).window_may_close(),
            may_close ==> *final(self) == *old(self),
            !may_close ==> final(self).status@
                == "Running in background · use the tray to restore"@ && *final(self) == (
            InterpolateApp { status: final(self).status, ..*old(self) }),
    {
        if self.job.running && self.background.keep_running && self.background.tray_available {
            self.status = "Running in background · use the tray to restore".to_owned();
            return false;
        }
        true
    }
}

/// The error after a field was edited: none where what it holds is allowed.
fn field_error(valid: bool, message: &str) -> (error: Option<String>)
    ensures
        error is None <==> valid,
        error matches Some(text) ==> text@ == message@,
{
    if valid {
        None
    } else {
        Some(message.to_owned())
    }
}

/// Whether an update is the last of its job.
pub fn is_terminal(update: &JobUpdate) -> (terminal: bool)
    ensures
        terminal == !(update is Phase || update is Progress),
{
    match update {
        JobUpdate::Phase(_) => false,
        JobUpdate::Progress { .. } => false,
        _ => true,
    }
}

/// A job ends with its last update, and with no other.
pub proof fn last_updates_end_the_job(app: InterpolateApp, update: JobUpdate)
    requires
        app.well_formed(),
        app.job.running,
    ensures
        app.job_after(update).running <==> update is Phase || update is Progress,
        app.job_after(update).running <==> app.job_after(update).cancellation is Some,
{
}

/// Anime always has scene protection, and a job that is started with it analyses the
/// cadence.
pub proof fn anime_is_scene_protected(app: InterpolateApp)
    requires
        app.well_formed(),
        app.content.preset == ContentPreset::Anime,
    ensures
        app.content.scene_detection,
        app.job_request().configuration.scene_detection,
        pipeline::frames::FramePlanner::initial(
            app.job_request().configuration.content_preset,
            app.job_request().configuration.scene_detection,
        ).anime_mode,
{
}

/// A job that the application starts has a rate that the pipeline accepts: checking
/// its configuration fails only on its paths.
pub proof fn started_jobs_have_a_valid_rate(
    app: InterpolateApp,
    input_is_file: bool,
    output_exists: bool,
)
    requires
        app.well_formed(),
        app.start_error() is None,
        input_is_file,
        !output_exists,
        !host::path_equal(
            host::path_buf_bytes(app.source.input_path->0),
            host::path_buf_bytes(app.source.output_path->0),
        ),
        host::path_buf_bytes(app.source.output_path->0).len() > 0,
    ensures
        pipeline::configuration_check(
            app.job_request().configuration,
            input_is_file,
            output_exists,
        ) is Ok,
        app.job_request().configuration.gpu_index >= 0,
{
    reveal(app::state::number_in);
}

/// A job is started with what was chosen, each setting as it is shown: the files, the rate
/// that the field holds, the graphics card, the preset with its scene protection and its
/// flow, the backend, the encoder with everything that it is told, and what is copied of
/// the source.
pub proof fn jobs_are_started_with_what_was_chosen(app: InterpolateApp)
    requires
        app.well_formed(),
        app.start_error() is None,
    ensures
        ({
            let request = app.job_request();
            let configuration = request.configuration;
            &&& Some(configuration.input_path) == app.source.input_path
            &&& Some(configuration.output_path) == app.source.output_path
            &&& configuration.target_fps_den == 1
            &&& app::state::number_in(app.target_fps.input@, 1, 480) == Some(
                configuration.target_fps_num as nat,
            )
            &&& configuration.gpu_index == app.hardware.selected_gpu_index
            &&& configuration.content_preset == ContentPreset::Anime <==> app.content.preset
                == ContentPreset::Anime
            &&& configuration.content_preset == ContentPreset::Movie <==> app.content.preset
                == ContentPreset::Movie
            &&& configuration.scene_detection <==> app.content.scene_detection
            &&& configuration.use_uhd_mode <==> app.content.use_uhd_mode
            &&& request.use_nvdec <==> app.hardware.use_nvdec
            &&& request.inference_backend == InferenceBackend::CudaPytorchVapourSynth
                <==> app.hardware.cuda_inference_enabled
            &&& request.video_encoder == app.encoder()
            &&& request.encoder_preset == app.encoding.preset
            &&& request.quality_level == app.encoding.quality.value
            &&& request.h264_profile == app.encoding.h264_profile
            &&& request.encoder_thread_count == app.encoding.thread_count.value
            &&& request.preserve_audio <==> app.streams.audio
            &&& request.preserve_subtitles <==> app.streams.subtitles
            &&& request.preserve_metadata <==> app.streams.metadata
        }),
{
    reveal(app::state::number_in);
}

/// A job that is started with the Movie preset looks for no held drawings, and protects
/// shot boundaries exactly where that is switched on; one that is started with Anime
/// does both.
pub proof fn jobs_analyse_what_their_preset_asks_for(app: InterpolateApp)
    requires
        app.well_formed(),
        app.start_error() is None,
    ensures
        ({
            let configuration = app.job_request().configuration;
            let planner = pipeline::frames::FramePlanner::initial(
                configuration.content_preset,
                configuration.scene_detection,
            );
            &&& planner.anime_mode <==> app.content.preset == ContentPreset::Anime
            &&& planner.scene_detection <==> app.content.scene_detection
        }),
{
}

/// The encoder is told what the job was started with, each setting as it is.
pub proof fn encoders_are_told_what_was_chosen(request: JobRequest)
    ensures
        request.encoder().video_encoder == request.video_encoder,
        request.encoder().preset == request.encoder_preset,
        request.encoder().quality_level == request.quality_level,
        request.encoder().h264_profile == request.h264_profile,
        request.encoder().thread_count == request.encoder_thread_count,
        request.encoder().preserve_audio == request.preserve_audio,
        request.encoder().preserve_subtitles == request.preserve_subtitles,
        request.encoder().preserve_metadata == request.preserve_metadata,
{
}

/// A job can be started exactly where every field holds a number that is allowed, both
/// files are chosen, and there are a graphics card and an encoder that is selected.
pub proof fn jobs_start_where_everything_is_chosen(app: InterpolateApp)
    ensures
        app.start_error() is None <==> {
            &&& app::state::number_in(app.target_fps.input@, 1, 480) is Some
            &&& app::state::number_in(app.encoding.quality.input@, 0, 51) is Some
            &&& app::state::number_in(app.encoding.thread_count.input@, 0, 16) is Some
            &&& app.source.input_path is Some
            &&& app.source.output_path is Some
            &&& app.hardware.gpu_names@.len() > 0
            &&& app.hardware.selected_video_encoder < app.hardware.video_encoders@.len()
        },
{
    reveal(app::state::number_in);
}

/// What a job tells is shown as it tells it: its counts, its rates and its progress, which
/// is never shown above the whole. The end of a job keeps what was counted, and one that
/// is complete shows the whole and the last counts.
pub proof fn updates_are_shown_as_they_are_told(app: InterpolateApp, update: JobUpdate)
    ensures
        update matches JobUpdate::Progress {
            frame_count,
            frame_count_estimate,
            processing_fps,
            progress,
            cadence_diagnostics,
            performance,
        } ==> {
            let job = app.job_after(update);
            &&& job.frame_count == frame_count
            &&& job.frame_count_estimate == frame_count_estimate
            &&& job.processing_fps == processing_fps
            &&& job.cadence_diagnostics == cadence_diagnostics
            &&& job.performance == performance
            &&& job.progress.denominator == progress.denominator
            &&& job.progress.numerator <= job.progress.denominator
            &&& progress.numerator <= progress.denominator ==> job.progress == progress
            &&& progress.numerator >= progress.denominator ==> job.progress.numerator
                == job.progress.denominator
            &&& job.running == app.job.running
            &&& job.cancellation == app.job.cancellation
            &&& job.quit_after_job == app.job.quit_after_job
        },
        update matches JobUpdate::Phase(phase) ==> app.job_after(update) == app.job
            && app.status_after(update) == phase@,
        update matches JobUpdate::Completed { path, cadence_diagnostics } ==> {
            let job = app.job_after(update);
            &&& !job.running
            &&& job.progress.numerator == job.progress.denominator
            &&& job.progress.numerator > 0
            &&& job.cadence_diagnostics == cadence_diagnostics
            &&& job.frame_count == app.job.frame_count
            &&& job.quit_after_job == app.job.quit_after_job
        },
        update is Cancelled || update is Failed ==> {
            let job = app.job_after(update);
            &&& !job.running
            &&& job.progress == app.job.progress
            &&& job.frame_count == app.job.frame_count
            &&& job.cadence_diagnostics == app.job.cadence_diagnostics
            &&& job.quit_after_job == app.job.quit_after_job
        },
{
}

/// The application is left at once only where no job is running; a running job is asked
/// to stop first, and to leave after it only by quitting. To show the window changes
/// nothing, and no command starts or ends a job.
pub proof fn running_jobs_are_stopped_before_leaving(app: InterpolateApp, command: TrayCommand)
    ensures
        app.tray_action(command) == TrayAction::Quit <==> command == TrayCommand::Quit
            && !app.job.running,
        app.tray_action(command) == TrayAction::ShowWindow <==> command == TrayCommand::Show,
        app.tray_action(command) == TrayAction::Nothing ==> !app.job.running,
        app.job_after_command(command).running == app.job.running,
        command == TrayCommand::Show ==> app.job_after_command(command) == app.job,
        !app.job.running ==> app.job_after_command(command) == app.job,
        app.job.running && command != TrayCommand::Show ==> app.job_after_command(
            command,
        ).cancellation == Some(true),
        app.job.running && command == TrayCommand::Quit ==> app.job_after_command(
            command,
        ).quit_after_job,
        command == TrayCommand::Cancel ==> app.job_after_command(command).quit_after_job
            == app.job.quit_after_job,
        app.job_after_command(command).frame_count == app.job.frame_count,
        app.job_after_command(command).progress == app.job.progress,
{
}

/// The window closes unless a job runs that is to go on in the background, which needs a
/// tray.
pub proof fn windows_close_unless_a_job_goes_on(app: InterpolateApp)
    requires
        app.well_formed(),
    ensures
        !app.window_may_close() <==> app.job.running && app.background.keep_running,
        !app.background.tray_available ==> app.window_may_close(),
        !app.job.running ==> app.window_may_close(),
{
}

/// The field of the target rate holds three digits at most; a key sets the rate exactly
/// where no job runs and it leaves a number from 1 to 480.
pub proof fn keys_set_rates_from_1_to_480(
    app: InterpolateApp,
    key: Seq<char>,
    key_char: Option<Seq<char>>,
)
    ensures
        app.edited_target_fps(key, key_char) == app::state::edited_digits(
            app.target_fps.input@,
            app.target_fps.replace_on_type,
            key,
            key_char,
            3,
        ),
        app.key_sets_target_fps(key, key_char) <==> !app.job.running && (app.edited_target_fps(
            key,
            key_char,
        ) matches Some(edited) && (app::state::number_in(edited, 1, 480) is Some)),
{
}

/// A job is started at the rate that the field holds where it is allowed, and at the last
/// one that was otherwise.
pub proof fn jobs_start_at_the_rate_of_the_field(app: InterpolateApp)
    requires
        text::all_digits(app.target_fps.input@),
        app.target_fps.input@.len() > 0,
    ensures
        1 <= text::digits_value(app.target_fps.input@) <= 480 ==> app.start_rate()
            == text::digits_value(app.target_fps.input@),
        !(1 <= text::digits_value(app.target_fps.input@) <= 480) ==> app.start_rate()
            == app.target_fps.value,
{
    reveal(app::state::number_in);
    let input = app.target_fps.input@;
    assert(text::is_digit(input[0]));
    assert(text::without_plus(input) == input);
}

/// Scene protection can be turned on and off for movies alone, and never while a job runs.
pub proof fn only_movies_turn_scene_protection(app: InterpolateApp)
    ensures
        app.content.preset == ContentPreset::Anime ==> !app.may_toggle_scene_detection(),
        app.job.running ==> !app.may_toggle_scene_detection(),
        app.content.preset == ContentPreset::Movie && !app.job.running
            ==> app.may_toggle_scene_detection(),
{
}

/// Why a job cannot start is told in the order of the window: what the fields hold first,
/// from the rate to the threads, then the files, then the hardware. Where all that comes
/// before is in order, each obstacle is the one that is told.
pub proof fn the_first_obstacle_is_told(app: InterpolateApp)
    ensures
        ({
            let rate = app::state::number_in(app.target_fps.input@, 1, 480) is Some;
            let quality = app::state::number_in(app.encoding.quality.input@, 0, 51) is Some;
            let threads = app::state::number_in(app.encoding.thread_count.input@, 0, 16) is Some;
            let fields = rate && quality && threads;
            let files = app.source.input_path is Some && app.source.output_path is Some;
            &&& app.target_fps.input@.len() == 0 ==> app.start_error() == Some(
                "Enter a target frame rate between 1 and 480 FPS"@,
            )
            &&& !rate ==> app.start_error() == Some(
                "Enter a target frame rate between 1 and 480 FPS"@,
            ) || app.start_error() == Some("Target frame rate must be between 1 and 480 FPS"@)
            &&& rate && !quality ==> app.start_error() == Some(
                "Encoding quality must be between 0 and 51"@,
            )
            &&& rate && quality && !threads ==> app.start_error() == Some(
                "Encoder threads must be between 0 and 16"@,
            )
            &&& fields && app.source.input_path is None ==> app.start_error() == Some(
                "Choose an input video"@,
            )
            &&& fields && app.source.input_path is Some && app.source.output_path is None
                ==> app.start_error() == Some("Choose an output filename"@)
            &&& fields && files && app.hardware.gpu_names@.len() == 0 ==> app.start_error() == Some(
                "A Vulkan GPU is required"@,
            )
            &&& fields && files && app.hardware.gpu_names@.len() > 0
                && app.hardware.video_encoders@.len() == 0 ==> app.start_error() == Some(
                "FFmpeg has no supported H.264 encoder"@,
            )
        }),
{
    reveal(app::state::number_in);
}

/// The status says what a job does, keeps saying it while frames are counted, and at last
/// says how the job ended; of one that is complete it says where the output is.
pub proof fn the_status_says_how_the_job_goes(app: InterpolateApp, update: JobUpdate)
    ensures
        update matches JobUpdate::Phase(phase) ==> app.status_after(update) == phase@,
        update is Progress ==> app.status_after(update) == app.status@,
        update matches JobUpdate::Completed { path, cadence_diagnostics } ==> {
            let place = host::path_display(host::path_buf_bytes(path));
            &&& place.is_suffix_of(app.status_after(update))
            &&& text::holds_text(app.status_after(update), "Completed"@)
        },
        update is Cancelled ==> app.status_after(update) == "Cancelled safely"@,
        update is Failed ==> app.status_after(update) == "Job failed"@,
{
    if let JobUpdate::Completed { path, cadence_diagnostics } = update {
        let place = host::path_display(host::path_buf_bytes(path));
        let status = app.status_after(update);
        reveal_strlit("Completed");
        reveal_strlit("Completed · ");
        reveal_strlit(" · ");
        assert(place =~= status.skip("Completed · "@.len() as int));
        assert("Completed · "@ =~= "Completed"@ + " · "@);
        assert(status =~= Seq::<char>::empty() + "Completed"@ + (" · "@ + place));
    }
}

/// An error is shown exactly where there is one with its words.
pub proof fn errors_are_shown_in_their_words(app: InterpolateApp, message: Seq<char>)
    ensures
        app.error is None ==> !app.shows_error(message),
        app.error matches Some(error) ==> (app.shows_error(message) <==> error@ == message),
{
}

} // verus!
