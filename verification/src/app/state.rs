//! The parts of the application's state, each with its own rules.

use crate::app::settings::{
    same_text, use_uhd_mode_default, EncoderPreset, H264Profile, MainPageTab, VideoEncoder,
    ENCODER_THREAD_COUNT_MAX, ENCODING_QUALITY_MAX,
};
use crate::backend::{InferenceBackend, GPU_COUNT_MAX};
use crate::cadence::{CadenceDiagnostics, ContentPreset};
use crate::pipeline::{default_output_path, PerformanceDiagnostics, VideoMetadata, TARGET_FPS_MAX};
use crate::ratio::Ratio;
use crate::text::parse_unsigned;
use crate::{app, host, pipeline, text};
use std::path::PathBuf;
use vstd::prelude::*;
use vstd::utf8::*;

verus! {

/// The target rate at the start.
pub const TARGET_FPS_DEFAULT: u32 = 120;

/// What a key did to an input field.
#[derive(Clone, Copy, Debug, PartialEq, Eq, Structural)]
pub enum KeyOutcome {
    /// Nothing: the key goes on to others.
    Ignored,
    /// It changed the field.
    Edited,
    /// It left the field.
    Left,
}

/// A field for a number: the last number in it that was allowed, its text, and whether
/// the next digit replaces the text.
pub struct NumberField {
    pub value: u32,
    pub input: String,
    pub replace_on_type: bool,
}

/// What a key does to a field that holds at most `limit` digits: the new text; none
/// where the key is no digit and does nothing. `replace` is whether a digit replaces
/// the text.
#[verifier::opaque]
pub open spec fn edited_digits(
    input: Seq<char>,
    replace: bool,
    key: Seq<char>,
    key_char: Option<Seq<char>>,
    limit: int,
) -> Option<Seq<char>> {
    if key == "backspace"@ {
        if replace {
            Some(Seq::empty())
        } else if input.len() == 0 {
            Some(input)
        } else {
            Some(input.drop_last())
        }
    } else if key == "enter"@ || key == "escape"@ {
        Some(input)
    } else {
        match key_char {
            Some(typed) => if typed.len() == 1 && text::is_digit(typed[0]) {
                let kept = if replace {
                    Seq::<char>::empty()
                } else {
                    input
                };
                if kept.len() < limit {
                    Some(kept + typed)
                } else {
                    Some(kept)
                }
            } else {
                None
            },
            None => None,
        }
    }
}

/// What a key means to an input field.
pub open spec fn key_outcome(edited: Option<Seq<char>>, key: Seq<char>) -> KeyOutcome {
    if edited is None {
        KeyOutcome::Ignored
    } else if key == "enter"@ || key == "escape"@ {
        KeyOutcome::Left
    } else {
        KeyOutcome::Edited
    }
}

/// The number that a text gives, where it is one in the range.
#[verifier::opaque]
pub open spec fn number_in(input: Seq<char>, min: nat, max: nat) -> Option<nat> {
    match text::parsed_unsigned(input, max) {
        Some(number) => if number >= min {
            Some(number)
        } else {
            None
        },
        None => None,
    }
}

/// The number that a text gives, where it is one in the range.
pub fn read_number(input: &str, min: u32, max: u32) -> (number: Option<u32>)
    ensures
        number matches Some(value) ==> number_in(input@, min as nat, max as nat) == Some(
            value as nat,
        ) && min <= value <= max,
        number is None ==> number_in(input@, min as nat, max as nat) is None,
{
    proof {
        reveal(number_in);
    }
    match parse_unsigned(input, max as u64) {
        Some(value) => if value >= min as u64 {
            Some(value as u32)
        } else {
            None
        },
        None => None,
    }
}

impl NumberField {
    /// Whether a text has digits only, and not too many.
    #[verifier::opaque]
    pub open spec fn holds_digits(input: Seq<char>, limit: int) -> bool {
        text::all_digits(input) && input.len() <= limit
    }

    /// The number is in the range, and the text has digits only, and not too many.
    pub open spec fn well_formed(self, limit: int, min: int, max: int) -> bool {
        min <= self.value <= max && NumberField::holds_digits(self.input@, limit)
    }

    /// What a key does to the text.
    pub open spec fn edited(self, key: Seq<char>, key_char: Option<Seq<char>>, limit: int) -> Option<
        Seq<char>,
    > {
        edited_digits(self.input@, self.replace_on_type, key, key_char, limit)
    }

    /// Whether the field is what a key makes of another: its text is edited, a number
    /// that is allowed is used at once, and otherwise the last one stays.
    pub open spec fn is_edited_from(
        self,
        before: NumberField,
        key: Seq<char>,
        key_char: Option<Seq<char>>,
        limit: int,
        min: nat,
        max: nat,
    ) -> bool {
        match before.edited(key, key_char, limit) {
            None => self == before,
            Some(edited) => {
                &&& self.input@ == edited
                &&& !self.replace_on_type
                &&& self.value == match number_in(edited, min, max) {
                    Some(number) => number,
                    None => before.value as nat,
                }
            },
        }
    }

    /// Lets the next digit replace the text.
    pub fn focus(&mut self)
        ensures
            *final(self) == (NumberField { replace_on_type: true, ..*old(self) }),
    {
        self.replace_on_type = true;
    }

    fn edit_text(&mut self, key: &str, key_char: Option<&str>, limit: usize) -> (outcome: KeyOutcome)
        requires
            text::all_digits(old(self).input@),
            old(self).input@.len() <= limit,
        ensures
            text::all_digits(final(self).input@),
            final(self).input@.len() <= limit,
            final(self).value == old(self).value,
            outcome == key_outcome(
                old(self).edited(key@, pipeline::paths::option_text(key_char), limit as int),
                key@,
            ),
            match old(self).edited(key@, pipeline::paths::option_text(key_char), limit as int) {
                Some(edited) => final(self).input@ == edited && !final(self).replace_on_type,
                None => *final(self) == *old(self),
            },
    {
        proof {
            reveal(edited_digits);
            reveal_strlit("backspace");
            reveal_strlit("enter");
            reveal_strlit("escape");
            assert("backspace"@.len() == 9);
            assert("enter"@.len() == 5);
            assert("escape"@.len() == 6);
        }
        if same_text(key, "backspace") {
            if self.replace_on_type {
                self.input.clear();
                self.replace_on_type = false;
            } else {
                let _ = self.input.pop();
            }
            return KeyOutcome::Edited;
        }
        if same_text(key, "enter") || same_text(key, "escape") {
            self.replace_on_type = false;
            return KeyOutcome::Left;
        }
        match key_char {
            Some(typed) => {
                if typed.unicode_len() != 1 {
                    return KeyOutcome::Ignored;
                }
                let character = typed.get_char(0);
                if !('0' <= character && character <= '9') {
                    return KeyOutcome::Ignored;
                }
                if self.replace_on_type {
                    self.input.clear();
                    self.replace_on_type = false;
                }
                let ghost kept = self.input@;
                if self.input.as_str().unicode_len() < limit {
                    self.input.append(typed);
                    proof {
                        assert forall|i: int| 0 <= i < self.input@.len() implies text::is_digit(
                            #[trigger] self.input@[i],
                        ) by {
                            if i < kept.len() {
                                assert(self.input@[i] == kept[i]);
                            } else {
                                assert(self.input@[i] == typed@[0]);
                            }
                        }
                    }
                }
                KeyOutcome::Edited
            },
            None => KeyOutcome::Ignored,
        }
    }

    /// Takes in a key. Returns what it did, and whether the text then gives a number in
    /// the range.
    pub fn edit(
        &mut self,
        key: &str,
        key_char: Option<&str>,
        limit: usize,
        min: u32,
        max: u32,
    ) -> (result: (KeyOutcome, bool))
        requires
            old(self).well_formed(limit as int, min as int, max as int),
        ensures
            final(self).well_formed(limit as int, min as int, max as int),
            result.0 == key_outcome(
                old(self).edited(key@, pipeline::paths::option_text(key_char), limit as int),
                key@,
            ),
            result.1 == (number_in(final(self).input@, min as nat, max as nat) is Some),
            final(self).is_edited_from(
                *old(self),
                key@,
                pipeline::paths::option_text(key_char),
                limit as int,
                min as nat,
                max as nat,
            ),
    {
        proof {
            reveal(NumberField::holds_digits);
        }
        let outcome = self.edit_text(key, key_char, limit);
        match read_number(self.input.as_str(), min, max) {
            Some(number) => {
                if outcome != KeyOutcome::Ignored {
                    self.value = number;
                }
                (outcome, true)
            },
            None => (outcome, false),
        }
    }
}

/// Backspace takes back the digit that was typed last, unless the field was full or the
/// digit replaced what was there.
pub proof fn backspace_takes_back_a_digit(
    input: Seq<char>,
    key: Seq<char>,
    digit: char,
    limit: int,
    key_char: Option<Seq<char>>,
)
    requires
        text::is_digit(digit),
        input.len() < limit,
        key != "backspace"@,
        key != "enter"@,
        key != "escape"@,
    ensures
        edited_digits(input, false, key, Some(seq![digit]), limit) matches Some(typed)
            && edited_digits(typed, false, "backspace"@, key_char, limit) == Some(input),
{
    reveal(edited_digits);
    assert((input + seq![digit]).drop_last() =~= input);
}

/// Which menus are open.
#[derive(Clone, Copy, Debug, PartialEq, Eq, Structural)]
pub struct OpenMenus {
    pub inference_backend: bool,
    pub gpu: bool,
    pub video_encoder: bool,
    pub preset: bool,
    pub encoder_preset: bool,
    pub h264_profile: bool,
}

impl OpenMenus {
    /// No menu is open.
    pub open spec fn none() -> OpenMenus {
        OpenMenus {
            inference_backend: false,
            gpu: false,
            video_encoder: false,
            preset: false,
            encoder_preset: false,
            h264_profile: false,
        }
    }

    /// No menu but that of backends, which stays as it is.
    pub open spec fn only_backends(self) -> OpenMenus {
        OpenMenus { inference_backend: self.inference_backend, ..OpenMenus::none() }
    }

    /// Menus in the same place exclude each other.
    pub open spec fn well_formed(self) -> bool {
        &&& !(self.gpu && self.video_encoder)
        &&& !(self.gpu && self.preset)
        &&& !(self.video_encoder && self.preset)
        &&& !(self.encoder_preset && self.h264_profile)
    }

    /// Every menu closed.
    pub fn closed() -> (menus: OpenMenus)
        ensures
            menus == OpenMenus::none(),
    {
        OpenMenus {
            inference_backend: false,
            gpu: false,
            video_encoder: false,
            preset: false,
            encoder_preset: false,
            h264_profile: false,
        }
    }

    /// Every menu closed but that of backends, which stays as it is.
    pub fn closed_but_backends(&self) -> (menus: OpenMenus)
        ensures
            menus == self.only_backends(),
    {
        OpenMenus {
            inference_backend: self.inference_backend,
            gpu: false,
            video_encoder: false,
            preset: false,
            encoder_preset: false,
            h264_profile: false,
        }
    }
}

/// What the window shows.
#[derive(Clone, Copy, Debug, PartialEq, Eq, Structural)]
pub struct PageSelection {
    pub settings_page: bool,
    pub main_page_tab: MainPageTab,
}

/// What is copied of the source besides the video.
#[derive(Clone, Copy, Debug, PartialEq, Eq, Structural)]
pub struct PreservedStreams {
    pub audio: bool,
    pub subtitles: bool,
    pub metadata: bool,
}

/// The content preset, its settings, and which of them the user has overridden.
#[derive(Clone, Copy, Debug, PartialEq, Eq, Structural)]
pub struct ContentSettings {
    pub preset: ContentPreset,
    pub scene_detection: bool,
    pub scene_detection_overridden: bool,
    pub use_uhd_mode: bool,
    pub use_uhd_mode_overridden: bool,
}

impl ContentSettings {
    /// Anime keeps scene protection, and a setting that is not overridden is the default.
    pub open spec fn well_formed(self, metadata: Option<VideoMetadata>) -> bool {
        &&& self.preset == ContentPreset::Anime ==> self.scene_detection
        &&& self.scene_detection_overridden == !self.scene_detection
        &&& !self.use_uhd_mode_overridden ==> self.use_uhd_mode == app::settings::uhd_mode_default(
            self.preset,
            metadata,
        )
    }

    /// The defaults of a preset for a source.
    pub open spec fn defaults(
        preset: ContentPreset,
        metadata: Option<VideoMetadata>,
    ) -> ContentSettings {
        ContentSettings {
            preset,
            scene_detection: true,
            scene_detection_overridden: false,
            use_uhd_mode: app::settings::uhd_mode_default(preset, metadata),
            use_uhd_mode_overridden: false,
        }
    }

    /// The defaults of a preset for a source.
    pub fn default_settings(preset: ContentPreset, metadata: &Option<VideoMetadata>) -> (settings:
        ContentSettings)
        ensures
            settings == ContentSettings::defaults(preset, *metadata),
    {
        ContentSettings {
            preset,
            scene_detection: true,
            scene_detection_overridden: false,
            use_uhd_mode: match metadata {
                Some(known) => use_uhd_mode_default(preset, Some(known)),
                None => false,
            },
            use_uhd_mode_overridden: false,
        }
    }

    /// The settings for another source: half-scale flow follows it unless overridden.
    pub open spec fn for_source(self, metadata: Option<VideoMetadata>) -> ContentSettings {
        ContentSettings {
            use_uhd_mode: if self.use_uhd_mode_overridden {
                self.use_uhd_mode
            } else {
                app::settings::uhd_mode_default(self.preset, metadata)
            },
            ..self
        }
    }

    /// Lets half-scale flow follow another source, unless overridden.
    pub fn follow_source(&mut self, metadata: &Option<VideoMetadata>)
        ensures
            *final(self) == old(self).for_source(*metadata),
    {
        if !self.use_uhd_mode_overridden {
            self.use_uhd_mode = match metadata {
                Some(known) => use_uhd_mode_default(self.preset, Some(known)),
                None => false,
            };
        }
    }

    /// The settings with half-scale flow turned on or off, and a note whether that
    /// overrides the preset.
    pub open spec fn with_uhd_mode_toggled(self, metadata: Option<VideoMetadata>) -> ContentSettings {
        ContentSettings {
            use_uhd_mode: !self.use_uhd_mode,
            use_uhd_mode_overridden: !self.use_uhd_mode != app::settings::uhd_mode_default(
                self.preset,
                metadata,
            ),
            ..self
        }
    }

    /// The settings with scene protection turned on or off.
    pub open spec fn with_scene_detection_toggled(self) -> ContentSettings {
        ContentSettings {
            scene_detection: !self.scene_detection,
            scene_detection_overridden: self.scene_detection,
            ..self
        }
    }

    /// Turns half-scale flow on or off, and notes whether that overrides the preset.
    pub fn toggle_uhd_mode(&mut self, metadata: &Option<VideoMetadata>)
        ensures
            *final(self) == old(self).with_uhd_mode_toggled(*metadata),
    {
        self.use_uhd_mode = !self.use_uhd_mode;
        let default_mode = match metadata {
            Some(known) => use_uhd_mode_default(self.preset, Some(known)),
            None => false,
        };
        self.use_uhd_mode_overridden = self.use_uhd_mode != default_mode;
    }

    /// Turns scene protection on or off.
    pub fn toggle_scene_detection(&mut self)
        ensures
            *final(self) == old(self).with_scene_detection_toggled(),
    {
        self.scene_detection = !self.scene_detection;
        self.scene_detection_overridden = !self.scene_detection;
    }

    /// Whether a setting differs from what the preset gives it.
    pub open spec fn is_modified(self) -> bool {
        self.scene_detection_overridden || self.use_uhd_mode_overridden
    }
}

/// A preset that is not modified has its defaults.
pub proof fn unmodified_presets_have_their_defaults(
    content: ContentSettings,
    metadata: Option<VideoMetadata>,
)
    requires
        content.well_formed(metadata),
        !content.is_modified(),
    ensures
        content == ContentSettings::defaults(content.preset, metadata),
{
}

/// The defaults of a preset are a state that it can be in, they keep scene protection,
/// and nothing in them is overridden.
pub proof fn preset_defaults_are_unmodified(preset: ContentPreset, metadata: Option<VideoMetadata>)
    ensures
        ContentSettings::defaults(preset, metadata).well_formed(metadata),
        ContentSettings::defaults(preset, metadata).scene_detection,
        !ContentSettings::defaults(preset, metadata).is_modified(),
{
}

/// Whether a list of encoders holds one.
pub fn contains_encoder(encoders: &Vec<VideoEncoder>, encoder: VideoEncoder) -> (contained: bool)
    ensures
        contained == encoders@.contains(encoder),
{
    let mut index: usize = 0;
    while index < encoders.len()
        invariant
            index <= encoders@.len(),
            forall|i: int| 0 <= i < index ==> encoders@[i] != encoder,
        decreases encoders@.len() - index,
    {
        if encoders[index] == encoder {
            proof {
                assert(encoders@[index as int] == encoder);
            }
            return true;
        }
        index = index + 1;
    }
    false
}

/// The preset that an encoder is used with at first, given the encoders that there
/// are.
pub open spec fn first_preset(encoders: Seq<VideoEncoder>, encoder: VideoEncoder) -> EncoderPreset {
    if encoder == VideoEncoder::NvidiaH264 || (encoder == VideoEncoder::Automatic
        && encoders.contains(VideoEncoder::NvidiaH264)) {
        EncoderPreset::NvidiaP5
    } else {
        EncoderPreset::X264Medium
    }
}

/// What the machine offers, and what is selected of it.
pub struct HardwareSettings {
    pub gpu_names: Vec<String>,
    pub selected_gpu_index: usize,
    pub video_encoders: Vec<VideoEncoder>,
    pub selected_video_encoder: usize,
    pub use_nvdec: bool,
    pub cuda_inference_available: bool,
    pub cuda_inference_unavailable_reason: String,
    pub cuda_inference_enabled: bool,
}

impl HardwareSettings {
    /// The lists are within their limits, and only what is available is selected.
    pub open spec fn well_formed(self) -> bool {
        &&& self.gpu_names@.len() <= GPU_COUNT_MAX
        &&& self.selected_gpu_index <= self.gpu_names@.len()
        &&& self.video_encoders@.len() <= 3
        &&& self.selected_video_encoder <= self.video_encoders@.len()
        &&& self.use_nvdec ==> self.video_encoders@.contains(VideoEncoder::NvidiaH264)
        &&& self.cuda_inference_enabled ==> self.cuda_inference_available
        &&& 0 < encode_utf8(self.cuda_inference_unavailable_reason@).len() < 256
    }

    /// The preset that an encoder is used with at first.
    pub fn default_encoder_preset(&self, encoder: VideoEncoder) -> (preset: EncoderPreset)
        requires
            self.well_formed(),
            encoder == VideoEncoder::Automatic || self.video_encoders@.contains(encoder),
        ensures
            preset == first_preset(self.video_encoders@, encoder),
    {
        if encoder == VideoEncoder::NvidiaH264 || (encoder == VideoEncoder::Automatic
            && contains_encoder(&self.video_encoders, VideoEncoder::NvidiaH264)) {
            EncoderPreset::NvidiaP5
        } else {
            EncoderPreset::X264Medium
        }
    }

    /// The backend that is selected.
    pub open spec fn backend(self) -> InferenceBackend {
        if self.cuda_inference_enabled {
            InferenceBackend::CudaPytorchVapourSynth
        } else {
            InferenceBackend::VulkanNcnn
        }
    }

    /// The backend that is selected.
    pub fn inference_backend(&self) -> (backend: InferenceBackend)
        ensures
            backend == self.backend(),
    {
        if self.cuda_inference_enabled {
            InferenceBackend::CudaPytorchVapourSynth
        } else {
            InferenceBackend::VulkanNcnn
        }
    }
}

/// How the output is encoded.
pub struct EncodingSettings {
    pub quality: NumberField,
    pub preset: EncoderPreset,
    pub h264_profile: H264Profile,
    pub thread_count: NumberField,
}

impl EncodingSettings {
    /// The quality and the threads are within their limits.
    pub open spec fn well_formed(self) -> bool {
        &&& self.quality.well_formed(2, 0, ENCODING_QUALITY_MAX as int)
        &&& self.thread_count.well_formed(2, 0, ENCODER_THREAD_COUNT_MAX as int)
    }

    /// Takes in a key in the field of the quality. Returns what it did, and whether the
    /// text then gives a level that is allowed.
    pub fn edit_quality(&mut self, key: &str, key_char: Option<&str>) -> (result: (KeyOutcome, bool))
        requires
            old(self).well_formed(),
        ensures
            final(self).well_formed(),
            *final(self) == (EncodingSettings { quality: final(self).quality, ..*old(self) }),
            result.0 == KeyOutcome::Ignored ==> *final(self) == *old(self),
            result.0 == key_outcome(
                old(self).quality.edited(key@, pipeline::paths::option_text(key_char), 2),
                key@,
            ),
            result.1 == (number_in(final(self).quality.input@, 0, ENCODING_QUALITY_MAX as nat) is Some),
            final(self).quality.is_edited_from(
                old(self).quality,
                key@,
                pipeline::paths::option_text(key_char),
                2,
                0,
                ENCODING_QUALITY_MAX as nat,
            ),
    {
        self.quality.edit(key, key_char, 2, 0, ENCODING_QUALITY_MAX as u32)
    }

    /// Takes in a key in the field of the encoder threads. Returns what it did, and whether the
    /// text then gives a count that is allowed.
    pub fn edit_thread_count(&mut self, key: &str, key_char: Option<&str>) -> (result: (KeyOutcome, bool))
        requires
            old(self).well_formed(),
        ensures
            final(self).well_formed(),
            *final(self) == (EncodingSettings { thread_count: final(self).thread_count, ..*old(self) }),
            result.0 == KeyOutcome::Ignored ==> *final(self) == *old(self),
            result.0 == key_outcome(
                old(self).thread_count.edited(key@, pipeline::paths::option_text(key_char), 2),
                key@,
            ),
            result.1 == (number_in(final(self).thread_count.input@, 0, ENCODER_THREAD_COUNT_MAX as nat) is Some),
            final(self).thread_count.is_edited_from(
                old(self).thread_count,
                key@,
                pipeline::paths::option_text(key_char),
                2,
                0,
                ENCODER_THREAD_COUNT_MAX as nat,
            ),
    {
        self.thread_count.edit(key, key_char, 2, 0, ENCODER_THREAD_COUNT_MAX as u32)
    }
}

/// Whether a path is the default output of another.
pub open spec fn is_default_output(
    output: PathBuf,
    input: PathBuf,
    target_fps_num: u32,
    scene_detection: bool,
) -> bool {
    let bytes = host::path_buf_bytes(input);
    let name = pipeline::paths::output_name(
        host::path_stem_text(bytes),
        target_fps_num as int,
        scene_detection,
    );
    &&& host::path_buf_bytes(output) == host::path_joined(
        pipeline::paths::output_directory(bytes),
        name,
    )
    &&& host::path_file_name(host::path_buf_bytes(output)) == Some(encode_utf8(name))
}

/// The source, what is known of it, and where the output goes.
pub struct SourceSelection {
    pub input_path: Option<PathBuf>,
    pub output_path: Option<PathBuf>,
    pub metadata: Option<VideoMetadata>,
}

impl SourceSelection {
    /// Whether the default output can be set again: not for an output without an
    /// input.
    pub open spec fn may_refresh(self) -> bool {
        self.input_path is Some || self.output_path is None
    }

    /// Whether there is no output, or one whose path is not empty.
    pub open spec fn output_is_not_empty(self) -> bool {
        self.output_path matches Some(path) ==> host::path_buf_bytes(path).len() > 0
    }

    /// Whether the selection is another one with the default output set again.
    pub open spec fn is_refreshed_from(
        self,
        before: SourceSelection,
        target_fps_num: u32,
        scene_detection: bool,
    ) -> bool {
        &&& self == (SourceSelection { output_path: self.output_path, ..before })
        &&& match before.input_path {
            Some(input) => self.output_path matches Some(output) && is_default_output(
                output,
                input,
                target_fps_num,
                scene_detection,
            ),
            None => self.output_path == before.output_path,
        }
    }

    /// Sets the output to the default of the input, where there is one.
    pub fn refresh_default_output(&mut self, target_fps_num: u32, scene_detection: bool)
        requires
            0 < target_fps_num <= TARGET_FPS_MAX,
            old(self).may_refresh(),
        ensures
            final(self).is_refreshed_from(*old(self), target_fps_num, scene_detection),
    {
        let output = match &self.input_path {
            Some(input_path) => Some(
                default_output_path(input_path.as_path(), target_fps_num, scene_detection),
            ),
            None => None,
        };
        if output.is_some() {
            self.output_path = output;
        }
    }
}

/// How the job is going, or how the last one went.
#[derive(Clone, Copy, Debug, PartialEq, Eq, Structural)]
pub struct JobState {
    pub running: bool,
    pub progress: Ratio,
    pub frame_count: u64,
    pub frame_count_estimate: u64,
    pub processing_fps: Ratio,
    pub performance: PerformanceDiagnostics,
    pub cadence_diagnostics: CadenceDiagnostics,
    /// Whether the running job is asked to stop; none while no job is running.
    pub cancellation: Option<bool>,
    pub quit_after_job: bool,
}

impl JobState {
    /// A job can be cancelled exactly while it runs, its progress lies between zero and
    /// one, and the application is left after it only where it is asked to stop.
    pub open spec fn well_formed(self) -> bool {
        &&& self.progress.normalized()
        &&& self.running == (self.cancellation is Some)
        &&& self.quit_after_job ==> self.cancellation == Some(true)
    }

    /// Nothing has been done yet.
    pub open spec fn before_frames(running: bool) -> JobState {
        JobState {
            running,
            progress: Ratio { numerator: 0, denominator: 1 },
            frame_count: 0,
            frame_count_estimate: 0,
            processing_fps: Ratio { numerator: 0, denominator: 1 },
            performance: PerformanceDiagnostics::none(),
            cadence_diagnostics: CadenceDiagnostics::none(),
            cancellation: if running {
                Some(false)
            } else {
                None
            },
            quit_after_job: false,
        }
    }

    /// Nothing has been done yet, by a job that has started or without any job.
    pub fn fresh(running: bool) -> (job: JobState)
        ensures
            job == JobState::before_frames(running),
            job.well_formed(),
    {
        JobState {
            running,
            progress: Ratio::zero(),
            frame_count: 0,
            frame_count_estimate: 0,
            processing_fps: Ratio::zero(),
            performance: PerformanceDiagnostics::default(),
            cadence_diagnostics: CadenceDiagnostics::default(),
            cancellation: if running {
                Some(false)
            } else {
                None
            },
            quit_after_job: false,
        }
    }

    /// The job is over.
    pub open spec fn stopped(self) -> JobState {
        JobState { running: false, cancellation: None, ..self }
    }
}

/// Whether closing the window leaves a job running, and what that needs.
pub struct BackgroundMode {
    pub tray_available: bool,
    pub tray_unavailable_reason: Option<String>,
    pub keep_running: bool,
}

impl BackgroundMode {
    /// Only a tray lets a job run in the background.
    pub open spec fn well_formed(self) -> bool {
        self.keep_running ==> self.tray_available
    }
}

/// A switch that is turned twice is where it was, and turned once it is not; nothing else
/// of the settings changes with it. Whether it is marked as overridden says whether it
/// differs from what the preset gives.
pub proof fn switches_turn_back(content: ContentSettings, metadata: Option<VideoMetadata>)
    requires
        content.well_formed(metadata),
        content.use_uhd_mode_overridden == (content.use_uhd_mode
            != ContentSettings::defaults(content.preset, metadata).use_uhd_mode),
    ensures
        content.with_uhd_mode_toggled(metadata).with_uhd_mode_toggled(metadata) == content,
        content.with_scene_detection_toggled().with_scene_detection_toggled() == content,
        content.with_uhd_mode_toggled(metadata).use_uhd_mode != content.use_uhd_mode,
        content.with_scene_detection_toggled().scene_detection != content.scene_detection,
        content.with_uhd_mode_toggled(metadata).preset == content.preset,
        content.with_uhd_mode_toggled(metadata).scene_detection == content.scene_detection,
        content.with_scene_detection_toggled().preset == content.preset,
        content.with_scene_detection_toggled().use_uhd_mode == content.use_uhd_mode,
        content.with_uhd_mode_toggled(metadata).is_modified() || content.is_modified(),
        content.with_scene_detection_toggled().is_modified() || content.is_modified(),
        content.preset == ContentPreset::Movie
            ==> content.with_scene_detection_toggled().well_formed(metadata),
        content.with_uhd_mode_toggled(metadata).well_formed(metadata),
{
}

/// A preset brings scene protection, half-scale flow for Anime sources that are UHD
/// alone, and itself; another source changes half-scale flow alone, and only where that
/// was not overridden.
pub proof fn presets_bring_their_defaults(
    preset: ContentPreset,
    content: ContentSettings,
    metadata: Option<VideoMetadata>,
)
    ensures
        ContentSettings::defaults(preset, metadata).preset == preset,
        ContentSettings::defaults(ContentPreset::Movie, metadata).use_uhd_mode == false,
        ContentSettings::defaults(preset, None).use_uhd_mode == false,
        metadata matches Some(known) ==> (ContentSettings::defaults(
            ContentPreset::Anime,
            metadata,
        ).use_uhd_mode <==> (known.width >= 3840 && known.height >= 2160) || (known.width >= 2160
            && known.height >= 3840)),
        content.use_uhd_mode_overridden ==> content.for_source(metadata) == content,
        !content.use_uhd_mode_overridden ==> content.for_source(metadata).use_uhd_mode
            == ContentSettings::defaults(content.preset, metadata).use_uhd_mode,
        content.for_source(metadata).preset == content.preset,
        content.for_source(metadata).scene_detection == content.scene_detection,
        content.for_source(metadata).is_modified() == content.is_modified(),
{
}

/// A digit is added at the end of a field that has room, replaces what is in one that was
/// just entered, and is dropped by a full one; a key that leaves the field keeps what is in
/// it; any other key does nothing.
pub proof fn digits_go_to_the_end_of_a_field(
    input: Seq<char>,
    replace: bool,
    key: Seq<char>,
    typed: char,
    limit: int,
)
    requires
        key != "backspace"@,
        limit > 0,
    ensures
        key != "enter"@ && key != "escape"@ && text::is_digit(typed) ==> {
            let edited = edited_digits(input, replace, key, Some(seq![typed]), limit);
            &&& edited is Some
            &&& replace ==> edited->0.len() == 1 && edited->0[0] == typed
            &&& !replace && input.len() < limit ==> edited->0.len() == input.len() + 1
                && edited->0.last() == typed && edited->0.drop_last() == input
            &&& !replace && input.len() >= limit ==> edited->0 == input
        },
        key != "enter"@ && key != "escape"@ && !text::is_digit(typed) ==> edited_digits(
            input,
            replace,
            key,
            Some(seq![typed]),
            limit,
        ) is None,
        key != "enter"@ && key != "escape"@ ==> edited_digits(input, replace, key, None, limit) is None,
        key == "enter"@ || key == "escape"@ ==> edited_digits(
            input,
            replace,
            key,
            Some(seq![typed]),
            limit,
        ) == Some(input),
{
    reveal(edited_digits);
    assert((input + seq![typed]).drop_last() =~= input);
    assert(Seq::<char>::empty() + seq![typed] =~= seq![typed]);
}

/// A field that holds the notation of a number gives that number exactly where it is in
/// the range.
pub proof fn fields_give_the_number_that_they_hold(number: nat, min: nat, max: nat)
    ensures
        min <= number <= max ==> number_in(text::decimal(number), min, max) == Some(number),
        number < min || number > max ==> number_in(text::decimal(number), min, max) is None,
        number_in(Seq::empty(), min, max) is None,
{
    reveal(number_in);
    text::decimal_is_made_of_digits(number);
    if number <= max {
        text::decimal_reads_back(number, max);
    }
}

/// After a key the number of a field is the one that its text gives where that is
/// allowed, and the last that was allowed otherwise.
pub proof fn fields_keep_the_last_number_that_was_allowed(
    after: NumberField,
    before: NumberField,
    key: Seq<char>,
    key_char: Option<Seq<char>>,
    limit: int,
    min: nat,
    max: nat,
)
    requires
        after.is_edited_from(before, key, key_char, limit, min, max),
        before.edited(key, key_char, limit) is Some,
    ensures
        Some(after.input@) == before.edited(key, key_char, limit),
        !after.replace_on_type,
        number_in(after.input@, min, max) matches Some(number) ==> after.value == number && min
            <= number <= max,
        number_in(after.input@, min, max) is None ==> after.value == before.value,
{
    reveal(number_in);
}

/// The preset that an encoder is used with at first is one of its own, that of the CPU
/// the fourth and that of the graphics card the fifth; the automatic choice takes one of
/// the graphics card's encoder exactly where there is one.
pub proof fn first_presets_belong_to_their_encoder(
    encoders: Seq<VideoEncoder>,
    encoder: VideoEncoder,
)
    ensures
        encoder != VideoEncoder::Automatic ==> app::settings::presets_of(encoder).contains(
            first_preset(encoders, encoder),
        ),
        encoder == VideoEncoder::Automatic ==> app::settings::presets_of(
            if encoders.contains(VideoEncoder::NvidiaH264) {
                VideoEncoder::NvidiaH264
            } else {
                VideoEncoder::SoftwareH264
            },
        ).contains(first_preset(encoders, encoder)),
        first_preset(encoders, VideoEncoder::NvidiaH264) == app::settings::presets_of(
            VideoEncoder::NvidiaH264,
        )[4],
        first_preset(encoders, VideoEncoder::SoftwareH264) == app::settings::presets_of(
            VideoEncoder::SoftwareH264,
        )[3],
        first_preset(encoders, VideoEncoder::Automatic) == first_preset(
            encoders,
            if encoders.contains(VideoEncoder::NvidiaH264) {
                VideoEncoder::NvidiaH264
            } else {
                VideoEncoder::SoftwareH264
            },
        ),
{
    assert(app::settings::presets_of(VideoEncoder::NvidiaH264)[4] == EncoderPreset::NvidiaP5);
    assert(app::settings::presets_of(VideoEncoder::SoftwareH264)[3] == EncoderPreset::X264Medium);
}

/// The backend that is used is CUDA exactly where that is enabled.
pub proof fn backends_are_used_as_they_are_enabled(hardware: HardwareSettings)
    ensures
        hardware.backend() == InferenceBackend::CudaPytorchVapourSynth
            <==> hardware.cuda_inference_enabled,
        hardware.backend() == InferenceBackend::VulkanNcnn <==> !hardware.cuda_inference_enabled,
        hardware.well_formed() && !hardware.cuda_inference_available ==> hardware.backend()
            == InferenceBackend::VulkanNcnn,
{
}

/// A job that starts has done nothing and is not asked to stop; one that is over keeps
/// what it has done, and can be asked no more.
pub proof fn jobs_start_with_nothing_done(job: JobState)
    ensures
        JobState::before_frames(true).running,
        JobState::before_frames(true).cancellation == Some(false),
        !JobState::before_frames(false).running,
        JobState::before_frames(false).cancellation is None,
        JobState::before_frames(job.running).progress.numerator == 0,
        JobState::before_frames(job.running).frame_count == 0,
        JobState::before_frames(job.running).frame_count_estimate == 0,
        JobState::before_frames(job.running).processing_fps.numerator == 0,
        JobState::before_frames(job.running).cadence_diagnostics.duplicate_frame_count == 0,
        JobState::before_frames(job.running).cadence_diagnostics.cadence_run_count == 0,
        JobState::before_frames(job.running).cadence_diagnostics.long_hold_count == 0,
        JobState::before_frames(job.running).cadence_diagnostics.scene_cut_count == 0,
        JobState::before_frames(job.running).cadence_diagnostics.inference_bypass_count == 0,
        JobState::before_frames(job.running).performance.inference_fps.numerator == 0,
        JobState::before_frames(job.running).performance.decode_fps.numerator == 0,
        JobState::before_frames(job.running).performance.encode_fps.numerator == 0,
        !JobState::before_frames(job.running).quit_after_job,
        JobState::before_frames(job.running).well_formed(),
        !job.stopped().running,
        job.stopped().cancellation is None,
        job.stopped().frame_count == job.frame_count,
        job.stopped().progress == job.progress,
        job.stopped().cadence_diagnostics == job.cadence_diagnostics,
        job.stopped().performance == job.performance,
        job.stopped().quit_after_job == job.quit_after_job,
{
}

/// The default output of a source that is selected again stands beside the input and
/// follows the rate and the scene protection, and nothing else of the selection changes;
/// without an input the output stays.
pub proof fn default_outputs_follow_the_settings(
    after: SourceSelection,
    before: SourceSelection,
    target_fps_num: u32,
    scene_detection: bool,
)
    requires
        after.is_refreshed_from(before, target_fps_num, scene_detection),
    ensures
        after.input_path == before.input_path,
        after.metadata == before.metadata,
        before.input_path is None ==> after.output_path == before.output_path,
        before.input_path matches Some(input) ==> after.output_path is Some
            && host::path_file_name(host::path_buf_bytes(after.output_path->0)) == Some(
            encode_utf8(
                pipeline::paths::output_name(
                    host::path_stem_text(host::path_buf_bytes(input)),
                    target_fps_num as int,
                    scene_detection,
                ),
            ),
        ),
        before.input_path matches Some(input) ==> {
            let bytes = host::path_buf_bytes(input);
            host::path_parent(bytes) matches Some(directory) ==> host::path_buf_bytes(
                after.output_path->0,
            ) == host::path_joined(
                directory,
                pipeline::paths::output_name(
                    host::path_stem_text(bytes),
                    target_fps_num as int,
                    scene_detection,
                ),
            )
        },
{
}

/// A key that a field takes in leaves it exactly where it is the enter or the escape key,
/// and edits it otherwise; one that it does not take in is ignored.
pub proof fn enter_and_escape_leave_a_field(edited: Option<Seq<char>>, key: Seq<char>)
    ensures
        key_outcome(edited, key) == KeyOutcome::Ignored <==> edited is None,
        key_outcome(edited, key) == KeyOutcome::Left <==> edited is Some && (key == "enter"@ || key
            == "escape"@),
{
}

/// Where only the menu of the backends stays, it is as it was and every other is closed.
pub proof fn only_the_backends_stay_open(menus: OpenMenus)
    ensures
        menus.only_backends().inference_backend == menus.inference_backend,
        !menus.only_backends().gpu,
        !menus.only_backends().video_encoder,
        !menus.only_backends().preset,
        !menus.only_backends().encoder_preset,
        !menus.only_backends().h264_profile,
        !OpenMenus::none().inference_backend,
{
}

/// Backspace clears a field that was just entered, takes the last digit of another, and
/// leaves an empty one empty, whatever else the key says.
pub proof fn backspace_shortens_a_field(
    input: Seq<char>,
    key_char: Option<Seq<char>>,
    limit: int,
)
    ensures
        edited_digits(input, true, "backspace"@, key_char, limit) matches Some(edited)
            && edited.len() == 0,
        edited_digits(input, false, "backspace"@, key_char, limit) matches Some(edited)
            && edited.is_prefix_of(input) && edited.len() == if input.len() == 0 {
            0int
        } else {
            input.len() - 1
        },
{
    reveal(edited_digits);
    if input.len() > 0 {
        assert(input.drop_last() =~= input.take(input.len() - 1));
    }
    assert(input =~= input.take(input.len() as int));
}

/// The quality of the encoding lies from 0 to 51 and its threads from 0 to 16, and every
/// number in these ranges can be typed.
pub proof fn encoding_fields_have_their_ranges(encoding: EncodingSettings, number: nat)
    requires
        encoding.well_formed(),
    ensures
        encoding.quality.value <= 51,
        encoding.thread_count.value <= 16,
        encoding.quality.input@.len() <= 2,
        encoding.thread_count.input@.len() <= 2,
        number_in(text::decimal(number), 0, ENCODING_QUALITY_MAX as nat) is Some <==> number <= 51,
        number_in(text::decimal(number), 0, ENCODER_THREAD_COUNT_MAX as nat) is Some <==> number
            <= 16,
{
    reveal(NumberField::holds_digits);
    fields_give_the_number_that_they_hold(number, 0, 51);
    fields_give_the_number_that_they_hold(number, 0, 16);
}

} // verus!
