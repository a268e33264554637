//! The settings that the user can make, their names and their defaults.

use crate::cadence::ContentPreset;
use crate::pipeline::VideoMetadata;
use crate::text;
use crate::text::{push_decimal, push_two_digits};
use vstd::prelude::*;
use vstd::utf8::*;

verus! {

pub const SECONDS_PER_MINUTE: u64 = 60;

pub const SECONDS_PER_HOUR: u64 = 3600;

/// The highest quality level; lower levels mean better quality.
pub const ENCODING_QUALITY_MAX: u8 = 51;

pub const ENCODER_THREAD_COUNT_MAX: u8 = 16;

/// A source is UHD from this width and height on, or turned by a quarter.
pub const UHD_WIDTH_MIN: u32 = 3840;

pub const UHD_HEIGHT_MIN: u32 = 2160;

/// What encodes the output.
#[derive(Clone, Copy, Debug, PartialEq, Eq, Structural)]
pub enum VideoEncoder {
    Automatic,
    SoftwareH264,
    NvidiaH264,
}

/// How much time the encoder takes.
#[derive(Clone, Copy, Debug, PartialEq, Eq, Structural)]
pub enum EncoderPreset {
    X264VeryFast,
    X264Faster,
    X264Fast,
    X264Medium,
    X264Slow,
    X264Slower,
    X264VerySlow,
    X264Placebo,
    NvidiaP1,
    NvidiaP2,
    NvidiaP3,
    NvidiaP4,
    NvidiaP5,
    NvidiaP6,
    NvidiaP7,
}

/// Which features of H.264 the output may use.
#[derive(Clone, Copy, Debug, PartialEq, Eq, Structural)]
pub enum H264Profile {
    Auto,
    Main,
    High,
}

/// The tabs of the main page.
#[derive(Clone, Copy, Debug, PartialEq, Eq, Structural)]
pub enum MainPageTab {
    Interpolation,
    Hardware,
    Encoding,
    Media,
}

/// The encoders to choose from, given which of them FFmpeg can use.
pub open spec fn encoder_choices(software: bool, nvidia: bool) -> Seq<VideoEncoder> {
    if software && nvidia {
        seq![VideoEncoder::Automatic, VideoEncoder::SoftwareH264, VideoEncoder::NvidiaH264]
    } else if software {
        seq![VideoEncoder::Automatic, VideoEncoder::SoftwareH264]
    } else if nvidia {
        seq![VideoEncoder::Automatic, VideoEncoder::NvidiaH264]
    } else {
        Seq::empty()
    }
}

/// The encoders to choose from, given which of them FFmpeg can use: the automatic choice
/// first, and nothing where there is none.
pub fn available_video_encoders(software: bool, nvidia: bool) -> (encoders: Vec<VideoEncoder>)
    ensures
        encoders@ == encoder_choices(software, nvidia),
{
    let mut encoders: Vec<VideoEncoder> = Vec::new();
    if software || nvidia {
        encoders.push(VideoEncoder::Automatic);
    }
    if software {
        encoders.push(VideoEncoder::SoftwareH264);
    }
    if nvidia {
        encoders.push(VideoEncoder::NvidiaH264);
    }
    encoders
}

/// Whether a frame of this size is UHD, upright or turned.
pub open spec fn is_uhd(width: int, height: int) -> bool {
    ||| width >= UHD_WIDTH_MIN && height >= UHD_HEIGHT_MIN
    ||| width >= UHD_HEIGHT_MIN && height >= UHD_WIDTH_MIN
}

/// Whether half-scale flow is on by default: for Anime sources that are UHD.
pub open spec fn uhd_mode_default(preset: ContentPreset, metadata: Option<VideoMetadata>) -> bool {
    &&& preset == ContentPreset::Anime
    &&& metadata matches Some(metadata)
    &&& is_uhd(metadata.width as int, metadata.height as int)
}

/// Whether half-scale flow is on by default: for Anime sources that are UHD.
pub fn use_uhd_mode_default(content_preset: ContentPreset, metadata: Option<&VideoMetadata>) -> (use_uhd_mode:
    bool)
    ensures
        use_uhd_mode == (content_preset == ContentPreset::Anime && (metadata matches Some(known)
            && is_uhd(known.width as int, known.height as int))),
{
    if content_preset != ContentPreset::Anime {
        return false;
    }
    match metadata {
        Some(metadata) => {
            let landscape_uhd = metadata.width >= UHD_WIDTH_MIN && metadata.height
                >= UHD_HEIGHT_MIN;
            let portrait_uhd = metadata.width >= UHD_HEIGHT_MIN && metadata.height
                >= UHD_WIDTH_MIN;
            landscape_uhd || portrait_uhd
        },
        None => false,
    }
}

/// The name of a video encoder.
pub open spec fn video_encoder_text(encoder: VideoEncoder) -> Seq<char> {
    match encoder {
        VideoEncoder::Automatic => "Auto · Best available H.264"@,
        VideoEncoder::SoftwareH264 => "H.264 · CPU (x264)"@,
        VideoEncoder::NvidiaH264 => "H.264 · NVIDIA NVENC"@,
    }
}

/// The name of a video encoder.
pub fn video_encoder_label(encoder: VideoEncoder) -> (label: &'static str)
    ensures
        label@ == video_encoder_text(encoder),
{
    match encoder {
        VideoEncoder::Automatic => "Auto · Best available H.264",
        VideoEncoder::SoftwareH264 => "H.264 · CPU (x264)",
        VideoEncoder::NvidiaH264 => "H.264 · NVIDIA NVENC",
    }
}

/// The name of an encoder preset.
pub open spec fn encoder_preset_text(preset: EncoderPreset) -> Seq<char> {
    match preset {
        EncoderPreset::X264VeryFast => "x264 · Very Fast"@,
        EncoderPreset::X264Faster => "x264 · Faster"@,
        EncoderPreset::X264Fast => "x264 · Fast"@,
        EncoderPreset::X264Medium => "x264 · Medium"@,
        EncoderPreset::X264Slow => "x264 · Slow"@,
        EncoderPreset::X264Slower => "x264 · Slower"@,
        EncoderPreset::X264VerySlow => "x264 · Very Slow"@,
        EncoderPreset::X264Placebo => "x264 · Placebo"@,
        EncoderPreset::NvidiaP1 => "NVENC · P1"@,
        EncoderPreset::NvidiaP2 => "NVENC · P2"@,
        EncoderPreset::NvidiaP3 => "NVENC · P3"@,
        EncoderPreset::NvidiaP4 => "NVENC · P4"@,
        EncoderPreset::NvidiaP5 => "NVENC · P5"@,
        EncoderPreset::NvidiaP6 => "NVENC · P6"@,
        EncoderPreset::NvidiaP7 => "NVENC · P7"@,
    }
}

/// The name of an encoder preset.
pub fn encoder_preset_label(preset: EncoderPreset) -> (label: &'static str)
    ensures
        label@ == encoder_preset_text(preset),
{
    match preset {
        EncoderPreset::X264VeryFast => "x264 · Very Fast",
        EncoderPreset::X264Faster => "x264 · Faster",
        EncoderPreset::X264Fast => "x264 · Fast",
        EncoderPreset::X264Medium => "x264 · Medium",
        EncoderPreset::X264Slow => "x264 · Slow",
        EncoderPreset::X264Slower => "x264 · Slower",
        EncoderPreset::X264VerySlow => "x264 · Very Slow",
        EncoderPreset::X264Placebo => "x264 · Placebo",
        EncoderPreset::NvidiaP1 => "NVENC · P1",
        EncoderPreset::NvidiaP2 => "NVENC · P2",
        EncoderPreset::NvidiaP3 => "NVENC · P3",
        EncoderPreset::NvidiaP4 => "NVENC · P4",
        EncoderPreset::NvidiaP5 => "NVENC · P5",
        EncoderPreset::NvidiaP6 => "NVENC · P6",
        EncoderPreset::NvidiaP7 => "NVENC · P7",
    }
}

/// The presets of an encoder, from the fastest to the slowest.
pub open spec fn presets_of(encoder: VideoEncoder) -> Seq<EncoderPreset> {
    match encoder {
        VideoEncoder::NvidiaH264 => seq![
            EncoderPreset::NvidiaP1,
            EncoderPreset::NvidiaP2,
            EncoderPreset::NvidiaP3,
            EncoderPreset::NvidiaP4,
            EncoderPreset::NvidiaP5,
            EncoderPreset::NvidiaP6,
            EncoderPreset::NvidiaP7,
        ],
        _ => seq![
            EncoderPreset::X264VeryFast,
            EncoderPreset::X264Faster,
            EncoderPreset::X264Fast,
            EncoderPreset::X264Medium,
            EncoderPreset::X264Slow,
            EncoderPreset::X264Slower,
            EncoderPreset::X264VerySlow,
            EncoderPreset::X264Placebo,
        ],
    }
}

/// The presets of an encoder, from the fastest to the slowest. The automatic choice
/// has none: it is resolved first.
pub fn encoder_preset_options(encoder: VideoEncoder) -> (options: Vec<EncoderPreset>)
    requires
        encoder != VideoEncoder::Automatic,
    ensures
        options@ == presets_of(encoder),
{
    let options = match encoder {
        VideoEncoder::NvidiaH264 => vec![
            EncoderPreset::NvidiaP1,
            EncoderPreset::NvidiaP2,
            EncoderPreset::NvidiaP3,
            EncoderPreset::NvidiaP4,
            EncoderPreset::NvidiaP5,
            EncoderPreset::NvidiaP6,
            EncoderPreset::NvidiaP7,
        ],
        _ => vec![
            EncoderPreset::X264VeryFast,
            EncoderPreset::X264Faster,
            EncoderPreset::X264Fast,
            EncoderPreset::X264Medium,
            EncoderPreset::X264Slow,
            EncoderPreset::X264Slower,
            EncoderPreset::X264VerySlow,
            EncoderPreset::X264Placebo,
        ],
    };
    proof {
        assert(options@ =~= presets_of(encoder));
    }
    options
}

/// The H.264 profiles, in the order of the menu.
pub fn h264_profiles() -> (profiles: Vec<H264Profile>)
    ensures
        profiles@ == seq![H264Profile::Auto, H264Profile::Main, H264Profile::High],
{
    let profiles = vec![H264Profile::Auto, H264Profile::Main, H264Profile::High];
    proof {
        assert(profiles@ =~= seq![H264Profile::Auto, H264Profile::Main, H264Profile::High]);
    }
    profiles
}

/// The name of an H.264 profile.
pub fn h264_profile_label(profile: H264Profile) -> (label: &'static str)
    ensures
        label@ == match profile {
            H264Profile::Auto => "Auto"@,
            H264Profile::Main => "Main"@,
            H264Profile::High => "High"@,
        },
{
    match profile {
        H264Profile::Auto => "Auto",
        H264Profile::Main => "Main",
        H264Profile::High => "High",
    }
}

/// The name of a tab.
pub fn main_page_tab_label(tab: MainPageTab) -> (label: &'static str)
    ensures
        label@ == match tab {
            MainPageTab::Interpolation => "Interpolation"@,
            MainPageTab::Hardware => "Hardware"@,
            MainPageTab::Encoding => "Encoding"@,
            MainPageTab::Media => "Media"@,
        },
{
    match tab {
        MainPageTab::Interpolation => "Interpolation",
        MainPageTab::Hardware => "Hardware",
        MainPageTab::Encoding => "Encoding",
        MainPageTab::Media => "Media",
    }
}

/// What is shown of the time that is left: hours only where there are any.
pub open spec fn remaining_time_text(remaining_seconds: int) -> Seq<char> {
    let hours = remaining_seconds / 3600;
    let minutes = (remaining_seconds % 3600) / 60;
    let seconds = remaining_seconds % 60;
    if hours > 0 {
        text::decimal(hours as nat) + ":"@ + text::two_digits(minutes as nat) + ":"@
            + text::two_digits(seconds as nat) + " remaining"@
    } else {
        text::decimal(minutes as nat) + ":"@ + text::two_digits(seconds as nat) + " remaining"@
    }
}

/// What is shown of the time that is left.
pub fn format_remaining_time(remaining_seconds: u64) -> (formatted: String)
    ensures
        formatted@ == remaining_time_text(remaining_seconds as int),
{
    let hours: u64 = remaining_seconds / SECONDS_PER_HOUR;
    let minutes: u64 = (remaining_seconds % SECONDS_PER_HOUR) / SECONDS_PER_MINUTE;
    let seconds: u64 = remaining_seconds % SECONDS_PER_MINUTE;
    let mut formatted = String::new();
    if hours > 0 {
        push_decimal(&mut formatted, hours as u128);
        formatted.append(":");
        push_two_digits(&mut formatted, minutes);
    } else {
        push_decimal(&mut formatted, minutes as u128);
    }
    formatted.append(":");
    push_two_digits(&mut formatted, seconds);
    formatted.append(" remaining");
    proof {
        assert(formatted@ =~= remaining_time_text(remaining_seconds as int));
    }
    formatted
}

/// The icons that come with the application.
#[derive(Clone, Copy, Debug, PartialEq, Eq, Structural)]
pub enum BundledIcon {
    Pause,
    Settings,
}

/// The bundled icon at a path, if there is one.
pub open spec fn bundled_icon_at(path: Seq<char>) -> Option<BundledIcon> {
    if path == "icons/pause.svg"@ {
        Some(BundledIcon::Pause)
    } else if path == "icons/settings.svg"@ {
        Some(BundledIcon::Settings)
    } else {
        None
    }
}

/// Whether two texts are the same.
pub fn same_text(left: &str, right: &str) -> (same: bool)
    ensures
        same == (left@ == right@),
{
    let left_length: usize = left.unicode_len();
    let right_length: usize = right.unicode_len();
    if left_length != right_length {
        return false;
    }
    let mut index: usize = 0;
    while index < left_length
        invariant
            index <= left_length,
            left_length == left@.len(),
            left_length == right@.len(),
            forall|i: int| 0 <= i < index ==> left@[i] == right@[i],
        decreases left_length - index,
    {
        if left.get_char(index) != right.get_char(index) {
            return false;
        }
        index = index + 1;
    }
    proof {
        assert(left@ =~= right@);
    }
    true
}

/// The bundled icon at a path, if there is one.
pub fn bundled_icon(path: &str) -> (icon: Option<BundledIcon>)
    requires
        0 < encode_utf8(path@).len() < 128,
    ensures
        icon == bundled_icon_at(path@),
{
    if same_text(path, "icons/pause.svg") {
        Some(BundledIcon::Pause)
    } else if same_text(path, "icons/settings.svg") {
        Some(BundledIcon::Settings)
    } else {
        None
    }
}

/// The paths of the bundled icons in a directory.
pub open spec fn bundled_icon_paths(directory: Seq<char>) -> Seq<Seq<char>> {
    if directory.len() == 0 || directory == "icons"@ || directory == "icons/"@ {
        seq!["icons/pause.svg"@, "icons/settings.svg"@]
    } else {
        Seq::empty()
    }
}

/// The paths of the bundled icons in a directory.
pub fn bundled_icons(directory: &str) -> (paths: Vec<String>)
    requires
        encode_utf8(directory@).len() < 128,
    ensures
        text::texts(paths@) == bundled_icon_paths(directory@),
{
    let mut paths: Vec<String> = Vec::new();
    if directory.is_empty() || same_text(directory, "icons") || same_text(directory, "icons/") {
        paths.push("icons/pause.svg".to_owned());
        paths.push("icons/settings.svg".to_owned());
    }
    proof {
        assert(text::texts(paths@) =~= bundled_icon_paths(directory@));
    }
    paths
}

/// Every bundled icon that is listed is there.
pub proof fn listed_icons_exist(directory: Seq<char>, index: int)
    requires
        0 <= index < bundled_icon_paths(directory).len(),
    ensures
        bundled_icon_at(bundled_icon_paths(directory)[index]) is Some,
{
}

/// An encoder can be chosen exactly where FFmpeg can use it, once each, and the automatic
/// choice comes first where there is any.
pub proof fn encoders_that_work_can_be_chosen(software: bool, nvidia: bool)
    ensures
        encoder_choices(software, nvidia).contains(VideoEncoder::SoftwareH264) <==> software,
        encoder_choices(software, nvidia).contains(VideoEncoder::NvidiaH264) <==> nvidia,
        encoder_choices(software, nvidia).contains(VideoEncoder::Automatic) <==> software
            || nvidia,
        encoder_choices(software, nvidia).len() > 0 ==> encoder_choices(software, nvidia)[0]
            == VideoEncoder::Automatic,
        encoder_choices(software, nvidia).no_duplicates(),
        encoder_choices(software, nvidia).len() <= 3,
{
    let choices = encoder_choices(software, nvidia);
    if software || nvidia {
        assert(choices[0] == VideoEncoder::Automatic);
    }
    if software {
        assert(choices[1] == VideoEncoder::SoftwareH264);
    }
    if nvidia {
        assert(choices[choices.len() - 1] == VideoEncoder::NvidiaH264);
    }
}

/// Whether a source is UHD does not depend on how it is turned; it has one side of 3840
/// pixels at least and no side below 2160, and a larger one is UHD too.
pub proof fn uhd_sources_may_be_turned(width: int, height: int, wider: int, higher: int)
    ensures
        is_uhd(width, height) <==> is_uhd(height, width),
        is_uhd(width, height) ==> width >= 2160 && height >= 2160 && (width >= 3840 || height
            >= 3840),
        width >= 3840 && height >= 2160 ==> is_uhd(width, height),
        is_uhd(width, height) && wider >= width && higher >= height ==> is_uhd(wider, higher),
{
}

/// Half-scale flow is the default of no movie, of no source that is not known, and of the
/// Anime sources that are UHD.
pub proof fn half_scale_is_for_large_anime(metadata: VideoMetadata)
    ensures
        !uhd_mode_default(ContentPreset::Movie, Some(metadata)),
        !uhd_mode_default(ContentPreset::Anime, None),
        !uhd_mode_default(ContentPreset::Movie, None),
        uhd_mode_default(ContentPreset::Anime, Some(metadata)) <==> (metadata.width >= 3840
            && metadata.height >= 2160) || (metadata.width >= 2160 && metadata.height >= 3840),
{
}

/// The time that is left is shown in hours, minutes and seconds that make it up, each
/// below sixty but the hours, and the hours only where there are any.
pub proof fn remaining_times_add_up(hours: nat, minutes: nat, seconds: nat)
    requires
        minutes < 60,
        seconds < 60,
    ensures
        hours == 0 ==> remaining_time_text((3600 * hours + 60 * minutes + seconds) as int)
            == text::decimal(minutes) + ":"@ + text::two_digits(seconds) + " remaining"@,
        hours > 0 ==> remaining_time_text((3600 * hours + 60 * minutes + seconds) as int)
            == text::decimal(hours) + ":"@ + text::two_digits(minutes) + ":"@ + text::two_digits(
            seconds,
        ) + " remaining"@,
{
    let total = (3600 * hours + 60 * minutes + seconds) as int;
    assert(total / 3600 == hours);
    assert(total % 3600 == 60 * minutes + seconds);
    assert((60 * minutes + seconds) / 60 == minutes as int);
    assert(total % 60 == seconds);
}

/// Every preset is one of exactly one encoder, and is listed once.
pub proof fn presets_have_one_encoder(preset: EncoderPreset)
    ensures
        presets_of(VideoEncoder::SoftwareH264).contains(preset) != presets_of(
            VideoEncoder::NvidiaH264,
        ).contains(preset),
        presets_of(VideoEncoder::SoftwareH264).no_duplicates(),
        presets_of(VideoEncoder::NvidiaH264).no_duplicates(),
        presets_of(VideoEncoder::SoftwareH264).len() == 8,
        presets_of(VideoEncoder::NvidiaH264).len() == 7,
{
    let software = presets_of(VideoEncoder::SoftwareH264);
    let nvidia = presets_of(VideoEncoder::NvidiaH264);
    assert(software[0] == EncoderPreset::X264VeryFast && software[1] == EncoderPreset::X264Faster
        && software[2] == EncoderPreset::X264Fast && software[3] == EncoderPreset::X264Medium
        && software[4] == EncoderPreset::X264Slow && software[5] == EncoderPreset::X264Slower
        && software[6] == EncoderPreset::X264VerySlow && software[7]
        == EncoderPreset::X264Placebo);
    assert(nvidia[0] == EncoderPreset::NvidiaP1 && nvidia[1] == EncoderPreset::NvidiaP2
        && nvidia[2] == EncoderPreset::NvidiaP3 && nvidia[3] == EncoderPreset::NvidiaP4
        && nvidia[4] == EncoderPreset::NvidiaP5 && nvidia[5] == EncoderPreset::NvidiaP6
        && nvidia[6] == EncoderPreset::NvidiaP7);
}

/// The presets of both encoders are listed from the fastest to the slowest, and shown
/// under the encoder that they are for: those of the graphics card by their number, those
/// of the CPU by their name.
pub proof fn presets_are_shown_by_their_names(position: int)
    ensures
        0 <= position < 7 ==> encoder_preset_text(presets_of(VideoEncoder::NvidiaH264)[position])
            == "NVENC · P"@ + text::decimal((position + 1) as nat),
        0 <= position < 8 ==> encoder_preset_text(presets_of(VideoEncoder::SoftwareH264)[position])
            == "x264 · "@ + seq![
            "Very Fast"@,
            "Faster"@,
            "Fast"@,
            "Medium"@,
            "Slow"@,
            "Slower"@,
            "Very Slow"@,
            "Placebo"@,
        ][position],
        presets_of(VideoEncoder::NvidiaH264).len() == 7,
        presets_of(VideoEncoder::SoftwareH264).len() == 8,
{
    reveal_strlit("NVENC · P");
    reveal_strlit("NVENC · P1");
    reveal_strlit("NVENC · P2");
    reveal_strlit("NVENC · P3");
    reveal_strlit("NVENC · P4");
    reveal_strlit("NVENC · P5");
    reveal_strlit("NVENC · P6");
    reveal_strlit("NVENC · P7");
    reveal_strlit("x264 · ");
    reveal_strlit("x264 · Very Fast");
    reveal_strlit("x264 · Faster");
    reveal_strlit("x264 · Fast");
    reveal_strlit("x264 · Medium");
    reveal_strlit("x264 · Slow");
    reveal_strlit("x264 · Slower");
    reveal_strlit("x264 · Very Slow");
    reveal_strlit("x264 · Placebo");
    reveal_strlit("Very Fast");
    reveal_strlit("Faster");
    reveal_strlit("Fast");
    reveal_strlit("Medium");
    reveal_strlit("Slow");
    reveal_strlit("Slower");
    reveal_strlit("Very Slow");
    reveal_strlit("Placebo");
    assert("NVENC · P1"@ =~= "NVENC · P"@ + text::decimal(1));
    assert("NVENC · P2"@ =~= "NVENC · P"@ + text::decimal(2));
    assert("NVENC · P3"@ =~= "NVENC · P"@ + text::decimal(3));
    assert("NVENC · P4"@ =~= "NVENC · P"@ + text::decimal(4));
    assert("NVENC · P5"@ =~= "NVENC · P"@ + text::decimal(5));
    assert("NVENC · P6"@ =~= "NVENC · P"@ + text::decimal(6));
    assert("NVENC · P7"@ =~= "NVENC · P"@ + text::decimal(7));
    assert("x264 · Very Fast"@ =~= "x264 · "@ + "Very Fast"@);
    assert("x264 · Faster"@ =~= "x264 · "@ + "Faster"@);
    assert("x264 · Fast"@ =~= "x264 · "@ + "Fast"@);
    assert("x264 · Medium"@ =~= "x264 · "@ + "Medium"@);
    assert("x264 · Slow"@ =~= "x264 · "@ + "Slow"@);
    assert("x264 · Slower"@ =~= "x264 · "@ + "Slower"@);
    assert("x264 · Very Slow"@ =~= "x264 · "@ + "Very Slow"@);
    assert("x264 · Placebo"@ =~= "x264 · "@ + "Placebo"@);
}

/// Every encoder is shown as one of H.264, under a name of its own that says what it runs
/// on.
pub proof fn encoders_are_shown_by_what_they_run_on(encoder: VideoEncoder)
    ensures
        text::holds_text(video_encoder_text(encoder), "H.264"@),
        encoder == VideoEncoder::NvidiaH264 <==> text::holds_text(
            video_encoder_text(encoder),
            "NVIDIA NVENC"@,
        ),
        encoder == VideoEncoder::SoftwareH264 ==> text::holds_text(
            video_encoder_text(encoder),
            "CPU (x264)"@,
        ),
        encoder == VideoEncoder::Automatic ==> text::holds_text(
            video_encoder_text(encoder),
            "Auto"@,
        ),
{
    reveal_strlit("Auto · Best available H.264");
    reveal_strlit("H.264 · CPU (x264)");
    reveal_strlit("H.264 · NVIDIA NVENC");
    reveal_strlit("H.264");
    reveal_strlit("NVIDIA NVENC");
    reveal_strlit("CPU (x264)");
    reveal_strlit("Auto");
    reveal_strlit(" · ");
    reveal_strlit("Auto · Best available ");
    reveal_strlit(" · Best available H.264");
    reveal_strlit("H.264 · ");
    let nothing = Seq::<char>::empty();
    assert("Auto · Best available H.264"@ =~= "Auto · Best available "@ + "H.264"@ + nothing);
    assert("Auto · Best available H.264"@ =~= nothing + "Auto"@ + " · Best available H.264"@);
    assert("H.264 · CPU (x264)"@ =~= nothing + "H.264"@ + (" · "@ + "CPU (x264)"@));
    assert("H.264 · CPU (x264)"@ =~= "H.264 · "@ + "CPU (x264)"@ + nothing);
    assert("H.264 · NVIDIA NVENC"@ =~= nothing + "H.264"@ + (" · "@ + "NVIDIA NVENC"@));
    assert("H.264 · NVIDIA NVENC"@ =~= "H.264 · "@ + "NVIDIA NVENC"@ + nothing);
    if encoder != VideoEncoder::NvidiaH264 && text::holds_text(
        video_encoder_text(encoder),
        "NVIDIA NVENC"@,
    ) {
        let whole = video_encoder_text(encoder);
        let (front, back) = choose|front: Seq<char>, back: Seq<char>|
            whole == #[trigger] (front + "NVIDIA NVENC"@ + back);
        assert(whole[front.len() as int] == "NVIDIA NVENC"@[0]);
        assert("NVIDIA NVENC"@[0] == 'N');
        let position = front.len() as int;
        assert(0 <= position < whole.len());
        assert(whole[position] != 'N');
    }
}

/// Each bundled icon is found under its own path, and under no other; both are listed for
/// their directory, with a slash behind it or without, and for no directory at all.
pub proof fn icons_are_found_by_their_paths(path: Seq<char>, directory: Seq<char>)
    ensures
        bundled_icon_at(path) == Some(BundledIcon::Pause) <==> path == "icons/pause.svg"@,
        bundled_icon_at(path) == Some(BundledIcon::Settings) <==> path == "icons/settings.svg"@,
        bundled_icon_paths(directory).contains("icons/pause.svg"@) <==> directory.len() == 0
            || directory == "icons"@ || directory == "icons/"@,
        bundled_icon_paths(directory).contains("icons/settings.svg"@)
            <==> bundled_icon_paths(directory).len() == 2,
{
    reveal_strlit("icons/pause.svg");
    reveal_strlit("icons/settings.svg");
    assert("icons/pause.svg"@.len() == 15 && "icons/settings.svg"@.len() == 18);
    if bundled_icon_paths(directory).len() > 0 {
        assert(bundled_icon_paths(directory)[0] == "icons/pause.svg"@);
        assert(bundled_icon_paths(directory)[1] == "icons/settings.svg"@);
    }
}

} // verus!
