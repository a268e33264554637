//! What the window shows of the application.

use crate::app::settings::{
    encoder_preset_label, encoder_preset_options, format_remaining_time, video_encoder_label,
    EncoderPreset, MainPageTab, VideoEncoder, ENCODER_THREAD_COUNT_MAX, ENCODING_QUALITY_MAX,
};
use crate::app::state::{contains_encoder, read_number};
use crate::app::InterpolateApp;
use crate::cadence::ContentPreset;
use crate::host::{display_text, file_name_text};
use crate::pipeline::job::preset_name;
use crate::pipeline::TARGET_FPS_MAX;
use crate::text::{decimal_text, push_decimal};
use crate::{app, host, pipeline, text};
use vstd::prelude::*;

verus! {

/// How the dot beside the status looks.
#[derive(Clone, Copy, Debug, PartialEq, Eq, Structural)]
pub enum StatusKind {
    Error,
    Running,
    Idle,
}

/// A kind of stream that can be copied: its name, the mark of its switch, whether it is
/// copied, and what that means.
pub struct MediaRow {
    pub label: &'static str,
    pub id: &'static str,
    pub enabled: bool,
    pub description: &'static str,
}

/// An optional text, or the one that stands for none.
pub open spec fn text_or(value: Option<Seq<char>>, fallback: Seq<char>) -> Seq<char> {
    match value {
        Some(value) => value,
        None => fallback,
    }
}

/// The size of frames, as it is shown.
pub open spec fn frame_size_text(width: nat, height: nat) -> Seq<char> {
    text::decimal(width) + "×"@ + text::decimal(height)
}

/// How many frames are done, as it is shown.
pub open spec fn frame_count_text(frame_count: nat, frame_count_estimate: nat) -> Seq<char> {
    if frame_count_estimate > 0 {
        text::decimal(frame_count) + " / "@ + text::decimal(frame_count_estimate) + " frames"@
    } else {
        "Waiting"@
    }
}

/// What cadence protection has found, as it is shown.
pub open spec fn cadence_text(duplicate_frame_count: nat, cadence_run_count: nat) -> Seq<char> {
    text::decimal(duplicate_frame_count) + " held frames · "@ + text::decimal(cadence_run_count)
        + " smoothed runs"@
}

fn string_or(value: Option<String>, fallback: &str) -> (string: String)
    ensures
        string@ == match value {
            Some(value) => value@,
            None => fallback@,
        },
{
    match value {
        Some(value) => value,
        None => fallback.to_owned(),
    }
}

impl InterpolateApp {
    /// The name of the source.
    pub fn input_name(&self) -> (name: String)
        ensures
            name@ == match self.source.input_path {
                Some(path) => text_or(
                    host::path_name_text(host::path_buf_bytes(path)),
                    "No source selected"@,
                ),
                None => "No source selected"@,
            },
    {
        match &self.source.input_path {
            Some(path) => string_or(file_name_text(path.as_path()), "No source selected"),
            None => "No source selected".to_owned(),
        }
    }

    /// The name of the output.
    pub fn output_name(&self) -> (name: String)
        ensures
            name@ == match self.source.output_path {
                Some(path) => text_or(
                    host::path_name_text(host::path_buf_bytes(path)),
                    "Output is created after choosing a source"@,
                ),
                None => "Output is created after choosing a source"@,
            },
    {
        match &self.source.output_path {
            Some(path) => string_or(
                file_name_text(path.as_path()),
                "Output is created after choosing a source",
            ),
            None => "Output is created after choosing a source".to_owned(),
        }
    }

    /// The directory of the output.
    pub fn output_directory(&self) -> (directory: String)
        ensures
            directory@ == match self.source.output_path {
                Some(path) => match host::path_parent(host::path_buf_bytes(path)) {
                    Some(parent) => host::path_display(parent),
                    None => "—"@,
                },
                None => "—"@,
            },
    {
        match &self.source.output_path {
            Some(path) => match path.as_path().parent() {
                Some(parent) => display_text(parent),
                None => "—".to_owned(),
            },
            None => "—".to_owned(),
        }
    }

    /// What is known of the source, given its rate and duration as they are shown.
    pub fn source_details(&self, rate: &str, seconds: &str) -> (details: String)
        ensures
            details@ == match self.source.metadata {
                Some(metadata) => frame_size_text(
                    metadata.width as nat,
                    metadata.height as nat,
                ) + "  ·  "@ + rate@ + " fps  ·  "@ + seconds@ + "s  ·  "@
                    + metadata.pixel_format@,
                None => "—"@,
            },
    {
        match &self.source.metadata {
            Some(metadata) => {
                let mut details = decimal_text(metadata.width as u128);
                details.append("×");
                push_decimal(&mut details, metadata.height as u128);
                details.append("  ·  ");
                details.append(rate);
                details.append(" fps  ·  ");
                details.append(seconds);
                details.append("s  ·  ");
                details.append(metadata.pixel_format.as_str());
                details
            },
            None => "—".to_owned(),
        }
    }

    /// The size of the output's frames.
    pub fn output_resolution(&self) -> (resolution: String)
        ensures
            resolution@ == match self.source.metadata {
                Some(metadata) => frame_size_text(
                    metadata.width as nat,
                    metadata.height as nat,
                ),
                None => "Same as source"@,
            },
    {
        match &self.source.metadata {
            Some(metadata) => {
                let mut resolution = decimal_text(metadata.width as u128);
                resolution.append("×");
                push_decimal(&mut resolution, metadata.height as u128);
                resolution
            },
            None => "Same as source".to_owned(),
        }
    }

    /// How many frames are done.
    pub fn frame_label(&self) -> (label: String)
        ensures
            label@ == frame_count_text(
                self.job.frame_count as nat,
                self.job.frame_count_estimate as nat,
            ),
    {
        if self.job.frame_count_estimate > 0 {
            let mut label = decimal_text(self.job.frame_count as u128);
            label.append(" / ");
            push_decimal(&mut label, self.job.frame_count_estimate as u128);
            label.append(" frames");
            label
        } else {
            "Waiting".to_owned()
        }
    }

    /// How fast the job is, given its rate as it is shown.
    pub fn speed_label(&self, rate: &str) -> (label: String)
        ensures
            label@ == if self.job.processing_fps.numerator > 0 {
                rate@ + " fps"@
            } else {
                "GPU idle"@
            },
    {
        if self.job.processing_fps.numerator > 0 {
            let mut label = rate.to_owned();
            label.append(" fps");
            label
        } else {
            "GPU idle".to_owned()
        }
    }

    /// Whether the time that is left can be told.
    pub open spec fn has_remaining_time(self) -> bool {
        self.job.processing_fps.numerator > 0 && self.job.frame_count_estimate
            > self.job.frame_count
    }

    /// The time that is left, given in seconds where it can be told.
    pub fn eta_label(&self, remaining_seconds: u64) -> (label: String)
        ensures
            label@ == if self.has_remaining_time() {
                app::settings::remaining_time_text(remaining_seconds as int)
            } else {
                "—"@
            },
    {
        if self.job.processing_fps.numerator > 0 && self.job.frame_count_estimate
            > self.job.frame_count {
            format_remaining_time(remaining_seconds)
        } else {
            "—".to_owned()
        }
    }

    /// Whether the field of the target rate holds one that is allowed.
    pub fn target_fps_valid(&self) -> (valid: bool)
        ensures
            valid == (app::state::number_in(
                self.target_fps.input@,
                1,
                TARGET_FPS_MAX as nat,
            ) is Some),
    {
        read_number(self.target_fps.input.as_str(), 1, TARGET_FPS_MAX).is_some()
    }

    /// Whether the field of the quality holds a level that is allowed.
    pub fn quality_valid(&self) -> (valid: bool)
        ensures
            valid == (app::state::number_in(
                self.encoding.quality.input@,
                0,
                ENCODING_QUALITY_MAX as nat,
            ) is Some),
    {
        read_number(
            self.encoding.quality.input.as_str(),
            0,
            ENCODING_QUALITY_MAX as u32,
        ).is_some()
    }

    /// Whether the field of the encoder threads holds a count that is allowed.
    pub fn thread_count_valid(&self) -> (valid: bool)
        ensures
            valid == (app::state::number_in(
                self.encoding.thread_count.input@,
                0,
                ENCODER_THREAD_COUNT_MAX as nat,
            ) is Some),
    {
        read_number(
            self.encoding.thread_count.input.as_str(),
            0,
            ENCODER_THREAD_COUNT_MAX as u32,
        ).is_some()
    }

    /// The name of the content preset, marked where it is modified.
    pub open spec fn preset_text(self) -> Seq<char> {
        if self.content.is_modified() {
            pipeline::job::preset_name_text(self.content.preset) + " · Modified"@
        } else {
            pipeline::job::preset_name_text(self.content.preset)
        }
    }

    /// The name of the content preset, marked where it is modified.
    pub fn preset_label(&self) -> (label: String)
        ensures
            label@ == self.preset_text(),
    {
        let mut label = preset_name(self.content.preset).to_owned();
        if self.content.scene_detection_overridden || self.content.use_uhd_mode_overridden {
            label.append(" · Modified");
        }
        label
    }

    /// Whether the start button is lit.
    pub fn can_start(&self) -> (can_start: bool)
        ensures
            can_start == (!self.job.running && self.source.input_path is Some
                && self.hardware.gpu_names@.len() > 0 && self.hardware.video_encoders@.len() > 0
                && app::state::number_in(
                self.target_fps.input@,
                1,
                TARGET_FPS_MAX as nat,
            ) is Some),
    {
        !self.job.running && self.source.input_path.is_some() && self.hardware.gpu_names.len() > 0
            && self.hardware.video_encoders.len() > 0 && self.target_fps_valid()
    }

    /// How the dot beside the status looks: an error comes first.
    pub fn status_kind(&self) -> (kind: StatusKind)
        ensures
            kind == if self.error is Some {
                StatusKind::Error
            } else if self.job.running {
                StatusKind::Running
            } else {
                StatusKind::Idle
            },
    {
        if self.error.is_some() {
            StatusKind::Error
        } else if self.job.running {
            StatusKind::Running
        } else {
            StatusKind::Idle
        }
    }

    /// The encoder that is selected, or the automatic choice where none is.
    pub open spec fn encoder(self) -> VideoEncoder {
        if self.hardware.selected_video_encoder < self.hardware.video_encoders@.len() {
            self.hardware.video_encoders@[self.hardware.selected_video_encoder as int]
        } else {
            VideoEncoder::Automatic
        }
    }

    /// The encoder that is selected, or the automatic choice where none is.
    pub fn selected_encoder(&self) -> (encoder: VideoEncoder)
        ensures
            encoder == self.encoder(),
    {
        if self.hardware.selected_video_encoder < self.hardware.video_encoders.len() {
            self.hardware.video_encoders[self.hardware.selected_video_encoder]
        } else {
            VideoEncoder::Automatic
        }
    }

    /// The encoder whose presets are shown: that of the CPU unless that of NVIDIA is
    /// selected.
    pub open spec fn shown_encoder(self) -> VideoEncoder {
        if self.encoder() == VideoEncoder::NvidiaH264 {
            VideoEncoder::NvidiaH264
        } else {
            VideoEncoder::SoftwareH264
        }
    }

    /// The encoder whose presets are shown.
    pub fn resolved_encoder(&self) -> (encoder: VideoEncoder)
        ensures
            encoder == self.shown_encoder(),
    {
        if self.selected_encoder() == VideoEncoder::NvidiaH264 {
            VideoEncoder::NvidiaH264
        } else {
            VideoEncoder::SoftwareH264
        }
    }

    /// The encoder presets to choose from.
    pub fn preset_options(&self) -> (options: Vec<EncoderPreset>)
        ensures
            options@ == app::settings::presets_of(self.shown_encoder()),
    {
        encoder_preset_options(self.resolved_encoder())
    }

    /// What the quality level is called.
    pub fn quality_mode_label(&self) -> (label: &'static str)
        ensures
            label@ == if self.shown_encoder() == VideoEncoder::NvidiaH264 {
                "CQ"@
            } else {
                "CRF"@
            },
    {
        if self.resolved_encoder() == VideoEncoder::NvidiaH264 {
            "CQ"
        } else {
            "CRF"
        }
    }

    /// The name of the encoder that is selected.
    pub fn selected_encoder_label(&self) -> (label: &'static str)
        ensures
            label@ == app::settings::video_encoder_text(self.encoder()),
    {
        video_encoder_label(self.selected_encoder())
    }

    /// The name of the encoder preset that is selected.
    pub fn selected_preset_label(&self) -> (label: &'static str)
        ensures
            label@ == app::settings::encoder_preset_text(self.encoding.preset),
    {
        encoder_preset_label(self.encoding.preset)
    }

    /// The name of the GPU that is selected.
    pub fn gpu_label(&self) -> (label: String)
        ensures
            label@ == if self.hardware.selected_gpu_index < self.hardware.gpu_names@.len() {
                self.hardware.gpu_names@[self.hardware.selected_gpu_index as int]@
            } else {
                "No Vulkan device"@
            },
    {
        if self.hardware.selected_gpu_index < self.hardware.gpu_names.len() {
            self.hardware.gpu_names[self.hardware.selected_gpu_index].clone()
        } else {
            "No Vulkan device".to_owned()
        }
    }

    /// What is said of the backends.
    pub fn cuda_description(&self) -> (description: String)
        ensures
            description@ == if self.hardware.cuda_inference_available {
                "Vulkan or CUDA/PyTorch + VapourSynth"@
            } else {
                self.hardware.cuda_inference_unavailable_reason@
            },
    {
        if self.hardware.cuda_inference_available {
            "Vulkan or CUDA/PyTorch + VapourSynth".to_owned()
        } else {
            self.hardware.cuda_inference_unavailable_reason.clone()
        }
    }

    /// The name of the backend that is selected.
    pub fn backend_label(&self) -> (label: &'static str)
        ensures
            label@ == if self.hardware.cuda_inference_enabled {
                "CUDA / PyTorch"@
            } else {
                "Vulkan / ncnn"@
            },
    {
        if self.hardware.cuda_inference_enabled {
            "CUDA / PyTorch"
        } else {
            "Vulkan / ncnn"
        }
    }

    /// The name of the CUDA backend in the menu.
    pub fn cuda_option_label(&self) -> (label: &'static str)
        ensures
            label@ == if self.hardware.cuda_inference_available {
                "CUDA / PyTorch"@
            } else {
                "CUDA / PyTorch (unavailable)"@
            },
    {
        if self.hardware.cuda_inference_available {
            "CUDA / PyTorch"
        } else {
            "CUDA / PyTorch (unavailable)"
        }
    }

    /// What is said of decoding on the NVIDIA GPU.
    pub fn nvdec_description(&self) -> (description: &'static str)
        ensures
            description@ == if self.hardware.video_encoders@.contains(VideoEncoder::NvidiaH264) {
                "Optional NVDEC acceleration for video decoding"@
            } else {
                "Unavailable: NVIDIA FFmpeg decode support not detected"@
            },
    {
        if contains_encoder(&self.hardware.video_encoders, VideoEncoder::NvidiaH264) {
            "Optional NVDEC acceleration for video decoding"
        } else {
            "Unavailable: NVIDIA FFmpeg decode support not detected"
        }
    }

    /// What is said of background mode.
    pub fn background_description(&self) -> (description: &'static str)
        ensures
            description@ == if self.background.tray_available {
                "Closing the window minimizes the job to the system tray"@
            } else {
                "System tray unavailable on this desktop"@
            },
    {
        if self.background.tray_available {
            "Closing the window minimizes the job to the system tray"
        } else {
            "System tray unavailable on this desktop"
        }
    }

    /// What background mode needs.
    pub fn background_hint(&self) -> (hint: &'static str)
        ensures
            hint@ == if self.background.tray_available {
                "Background mode is enabled by default when a compatible system tray is available."@
            } else {
                "Background mode requires a freedesktop StatusNotifierItem system tray."@
            },
    {
        if self.background.tray_available {
            "Background mode is enabled by default when a compatible system tray is available."
        } else {
            "Background mode requires a freedesktop StatusNotifierItem system tray."
        }
    }

    /// What is said of scene protection.
    pub fn scene_description(&self) -> (description: &'static str)
        ensures
            description@ == if self.content.preset == ContentPreset::Anime {
                "Required for cadence safety"@
            } else {
                "Duplicate at hard cuts"@
            },
    {
        if self.content.preset == ContentPreset::Anime {
            "Required for cadence safety"
        } else {
            "Duplicate at hard cuts"
        }
    }

    /// What is said of half-scale flow.
    pub fn uhd_description(&self) -> (description: &'static str)
        ensures
            description@ == if self.content.preset == ContentPreset::Anime {
                "Automatic for 4K; click to override"@
            } else {
                "Reduce memory for 4K sources"@
            },
    {
        if self.content.preset == ContentPreset::Anime {
            "Automatic for 4K; click to override"
        } else {
            "Reduce memory for 4K sources"
        }
    }

    /// The target rate, as the estimate of the output shows it.
    pub fn fps_headline(&self) -> (headline: String)
        ensures
            headline@ == if app::state::number_in(
                self.target_fps.input@,
                1,
                TARGET_FPS_MAX as nat,
            ) is Some {
                self.target_fps.input@ + " fps"@
            } else {
                "Invalid fps"@
            },
    {
        if self.target_fps_valid() {
            let mut headline = self.target_fps.input.clone();
            headline.append(" fps");
            headline
        } else {
            "Invalid fps".to_owned()
        }
    }

    /// What the model does with the source.
    pub fn model_description(&self) -> (description: &'static str)
        ensures
            description@ == if self.content.preset == ContentPreset::Anime {
                "RIFE 4.25 · cadence protected"@
            } else {
                "RIFE 4.25 standard"@
            },
    {
        if self.content.preset == ContentPreset::Anime {
            "RIFE 4.25 · cadence protected"
        } else {
            "RIFE 4.25 standard"
        }
    }

    /// The estimate of how many frames the output has.
    pub fn frame_estimate_label(&self, estimate: u64) -> (label: String)
        ensures
            label@ == if estimate > 0 {
                text::decimal(estimate as nat)
            } else {
                "—"@
            },
    {
        if estimate > 0 {
            decimal_text(estimate as u128)
        } else {
            "—".to_owned()
        }
    }

    /// The name of the content preset, in a sentence.
    pub fn preset_summary(&self) -> (summary: String)
        ensures
            summary@ == self.preset_text() + " content preset"@,
    {
        let mut summary = self.preset_label();
        summary.append(" content preset");
        summary
    }

    /// What cadence protection has found so far; only Anime has it.
    pub fn cadence_summary(&self) -> (summary: Option<String>)
        ensures
            summary is Some <==> self.content.preset == ContentPreset::Anime,
            summary matches Some(shown) ==> shown@ == cadence_text(
                self.job.cadence_diagnostics.duplicate_frame_count as nat,
                self.job.cadence_diagnostics.cadence_run_count as nat,
            ),
    {
        if self.content.preset != ContentPreset::Anime {
            return None;
        }
        let mut shown = decimal_text(self.job.cadence_diagnostics.duplicate_frame_count as u128);
        shown.append(" held frames · ");
        push_decimal(&mut shown, self.job.cadence_diagnostics.cadence_run_count as u128);
        shown.append(" smoothed runs");
        Some(shown)
    }

    /// Whether scene cuts are protected, in words.
    pub fn scene_summary(&self) -> (summary: &'static str)
        ensures
            summary@ == if self.content.scene_detection {
                "Scene cuts protected"@
            } else {
                "Scene protection disabled"@
            },
    {
        if self.content.scene_detection {
            "Scene cuts protected"
        } else {
            "Scene protection disabled"
        }
    }

    /// The scale of the flow, in words.
    pub fn flow_summary(&self) -> (summary: &'static str)
        ensures
            summary@ == if self.content.use_uhd_mode {
                "Half-scale optical flow"@
            } else {
                "Full-scale optical flow"@
            },
    {
        if self.content.use_uhd_mode {
            "Half-scale optical flow"
        } else {
            "Full-scale optical flow"
        }
    }

    /// The kinds of streams that can be copied, in the order of the tab.
    pub fn media_rows(&self) -> (rows: Vec<MediaRow>)
        ensures
            rows@.len() == 3,
            rows@[0].label@ == "Audio"@ && rows@[0].id@ == "preserve-audio-main"@,
            rows@[0].enabled == self.streams.audio,
            rows@[0].description@
                == "Copies the primary audio stream into the MKV without re-encoding. Disable it to create a silent video output."@,
            rows@[1].label@ == "Subtitles"@ && rows@[1].id@ == "preserve-subtitles-main"@,
            rows@[1].enabled == self.streams.subtitles,
            rows@[1].description@
                == "Copies subtitle streams into the MKV without re-encoding. It does not burn subtitles into the video image."@,
            rows@[2].label@ == "Metadata"@ && rows@[2].id@ == "preserve-metadata-main"@,
            rows@[2].enabled == self.streams.metadata,
            rows@[2].description@
                == "Copies compatible stream and container metadata such as language and title tags. It does not copy the video or audio data itself."@,
    {
        let mut rows: Vec<MediaRow> = Vec::new();
        rows.push(
            MediaRow {
                label: "Audio",
                id: "preserve-audio-main",
                enabled: self.streams.audio,
                description: "Copies the primary audio stream into the MKV without re-encoding. Disable it to create a silent video output.",
            },
        );
        rows.push(
            MediaRow {
                label: "Subtitles",
                id: "preserve-subtitles-main",
                enabled: self.streams.subtitles,
                description: "Copies subtitle streams into the MKV without re-encoding. It does not burn subtitles into the video image.",
            },
        );
        rows.push(
            MediaRow {
                label: "Metadata",
                id: "preserve-metadata-main",
                enabled: self.streams.metadata,
                description: "Copies compatible stream and container metadata such as language and title tags. It does not copy the video or audio data itself.",
            },
        );
        rows
    }
}

/// The tabs of the main page, in order.
pub fn main_page_tabs() -> (tabs: Vec<MainPageTab>)
    ensures
        tabs@ == seq![
            MainPageTab::Interpolation,
            MainPageTab::Hardware,
            MainPageTab::Encoding,
            MainPageTab::Media,
        ],
{
    let tabs = vec![
        MainPageTab::Interpolation,
        MainPageTab::Hardware,
        MainPageTab::Encoding,
        MainPageTab::Media,
    ];
    proof {
        assert(tabs@ =~= seq![
            MainPageTab::Interpolation,
            MainPageTab::Hardware,
            MainPageTab::Encoding,
            MainPageTab::Media,
        ]);
    }
    tabs
}

/// A job can be started only where the start button is lit.
pub proof fn only_a_lit_button_starts(app: InterpolateApp)
    requires
        app.start_error() is None,
        !app.job.running,
    ensures
        app.source.input_path is Some,
        app.hardware.gpu_names@.len() > 0,
        app.hardware.video_encoders@.len() > 0,
        app::state::number_in(app.target_fps.input@, 1, TARGET_FPS_MAX as nat) is Some,
{
}

/// The time that is left can be told exactly where the job moves and frames are missing.
pub proof fn times_are_told_of_jobs_that_move(app: InterpolateApp)
    ensures
        app.has_remaining_time() <==> app.job.processing_fps.numerator != 0
            && app.job.frame_count_estimate - app.job.frame_count >= 1,
{
}

/// The name of the content preset is shown as it is, with the mark behind it exactly where
/// one of its settings was changed; the names of both presets differ.
pub proof fn changed_presets_are_marked(app: InterpolateApp)
    ensures
        ({
            let name = if app.content.preset == ContentPreset::Anime {
                "Anime"@
            } else {
                "Movie"@
            };
            &&& name.is_prefix_of(app.preset_text())
            &&& app.preset_text() == name <==> !app.content.scene_detection_overridden
                && !app.content.use_uhd_mode_overridden
        }),
{
    reveal_strlit(" · Modified");
    assert(" · Modified"@.len() == 11);
    let name = pipeline::job::preset_name_text(app.content.preset);
    assert(name =~= app.preset_text().take(name.len() as int));
}

/// The encoder that is selected is the one at its place in the list; presets are always
/// shown of one encoder, and of the selected one where it is not the automatic choice.
pub proof fn presets_are_shown_of_the_selected_encoder(app: InterpolateApp)
    ensures
        app.hardware.selected_video_encoder < app.hardware.video_encoders@.len()
            ==> app.hardware.video_encoders@.contains(app.encoder()) && app.encoder()
            == app.hardware.video_encoders@[app.hardware.selected_video_encoder as int],
        app.hardware.selected_video_encoder >= app.hardware.video_encoders@.len() ==> app.encoder()
            == VideoEncoder::Automatic,
        app.encoder() != VideoEncoder::Automatic ==> app.shown_encoder() == app.encoder(),
        app.encoder() == VideoEncoder::Automatic ==> app.shown_encoder()
            == VideoEncoder::SoftwareH264,
{
}

/// The width of a frame is shown before its height, what is done before what is expected,
/// and the held frames before the runs; nothing is shown of a job without an estimate but
/// that it waits.
pub proof fn numbers_are_shown_in_their_order(first: nat, second: nat)
    ensures
        text::decimal(first).is_prefix_of(frame_size_text(first, second)),
        text::decimal(second).is_suffix_of(frame_size_text(first, second)),
        frame_size_text(first, second).len() == text::decimal(first).len() + 1 + text::decimal(
            second,
        ).len(),
        second > 0 ==> text::decimal(first).is_prefix_of(frame_count_text(first, second)),
        second > 0 ==> (text::decimal(second) + " frames"@).is_suffix_of(
            frame_count_text(first, second),
        ),
        second == 0 ==> frame_count_text(first, second) == "Waiting"@,
        (text::decimal(first) + " held frames"@).is_prefix_of(cadence_text(first, second)),
        (text::decimal(second) + " smoothed runs"@).is_suffix_of(cadence_text(first, second)),
{
    reveal_strlit("×");
    reveal_strlit(" held frames");
    reveal_strlit(" held frames · ");
    assert("×"@.len() == 1);
    let one = text::decimal(first);
    let other = text::decimal(second);
    let size = frame_size_text(first, second);
    assert(one =~= size.take(one.len() as int));
    assert(other =~= size.skip(size.len() - other.len()));
    let cadence = cadence_text(first, second);
    let held = one + " held frames"@;
    let runs = other + " smoothed runs"@;
    assert(held =~= cadence.take(held.len() as int));
    assert(runs =~= cadence.skip(cadence.len() - runs.len()));
    if second > 0 {
        let count = frame_count_text(first, second);
        let expected = other + " frames"@;
        assert(one =~= count.take(one.len() as int));
        assert(expected =~= count.skip(count.len() - expected.len()));
    }
}

} // verus!
