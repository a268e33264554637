//! The media pipeline: what a job is made of, how its inputs are checked, and
//! which steps it takes.

pub mod frames;
pub mod job;
pub mod media;
pub mod paths;
pub mod probe;
pub mod process;
pub mod scheduler;

pub use crate::cadence::{CadenceDiagnostics, ContentPreset};
use crate::host::{path_is_empty, same_path};
pub use crate::pipeline::paths::{default_output_path, partial_output_path, TARGET_FPS_MAX};
use crate::ratio::Ratio;
use crate::text::parse_unsigned;
use crate::{host, text};
use std::path::PathBuf;
use vstd::prelude::*;

verus! {

pub const RGB_CHANNEL_COUNT: usize = 3;

/// No frame is larger than 128 MiB.
pub const FRAME_SIZE_BYTES_MAX: usize = 134_217_728;

/// No frame is wider or higher than this.
pub const FRAME_DIMENSION_MAX: u32 = 16_384;

/// No job writes or reads this many frames or more.
pub const OUTPUT_FRAME_COUNT_MAX: u64 = 100_000_000;

/// How often the front end hears of progress.
pub const PROGRESS_INTERVAL_NANOS: u64 = 250_000_000;

/// What to make of which video.
#[derive(Clone)]
pub struct JobConfiguration {
    pub input_path: PathBuf,
    pub output_path: PathBuf,
    pub target_fps_num: u32,
    pub target_fps_den: u32,
    pub gpu_index: i32,
    pub content_preset: ContentPreset,
    pub scene_detection: bool,
    pub use_uhd_mode: bool,
}

/// What is known of a video. The duration is the bits of its number of seconds in
/// double precision.
#[derive(Clone, Debug)]
pub struct VideoMetadata {
    pub width: u32,
    pub height: u32,
    pub source_fps_num: u64,
    pub source_fps_den: u64,
    pub duration_seconds_bits: u64,
    pub pixel_format: String,
}

/// Frames per second of one stage, as an exact fraction.
#[derive(Clone, Copy, Debug, PartialEq, Eq, Structural)]
pub struct StageRate {
    pub numerator: u128,
    pub denominator: u128,
}

/// How fast each stage of the pipeline has been so far.
#[derive(Clone, Copy, Debug, PartialEq, Eq, Structural)]
pub struct PerformanceDiagnostics {
    pub inference_fps: StageRate,
    pub decode_fps: StageRate,
    pub encode_fps: StageRate,
}

impl PerformanceDiagnostics {
    /// No stage has run.
    pub open spec fn none() -> PerformanceDiagnostics {
        PerformanceDiagnostics {
            inference_fps: StageRate { numerator: 0, denominator: 1 },
            decode_fps: StageRate { numerator: 0, denominator: 1 },
            encode_fps: StageRate { numerator: 0, denominator: 1 },
        }
    }
}

impl Default for PerformanceDiagnostics {
    fn default() -> (performance: PerformanceDiagnostics)
        ensures
            performance == PerformanceDiagnostics::none(),
    {
        PerformanceDiagnostics {
            inference_fps: StageRate { numerator: 0, denominator: 1 },
            decode_fps: StageRate { numerator: 0, denominator: 1 },
            encode_fps: StageRate { numerator: 0, denominator: 1 },
        }
    }
}

/// What a job tells the front end.
#[derive(Clone, Debug)]
pub enum JobUpdate {
    Phase(&'static str),
    Progress {
        frame_count: u64,
        frame_count_estimate: u64,
        processing_fps: Ratio,
        progress: Ratio,
        cadence_diagnostics: CadenceDiagnostics,
        performance: PerformanceDiagnostics,
    },
    Completed { path: PathBuf, cadence_diagnostics: CadenceDiagnostics },
    Cancelled,
    Failed(String),
}

/// Whether a rate lies between one frame per second and the highest target rate.
pub open spec fn is_target_rate(numerator: int, denominator: int) -> bool {
    0 < denominator <= numerator <= TARGET_FPS_MAX * denominator
}

/// Why a job cannot start, if it cannot.
pub open spec fn configuration_check(
    configuration: JobConfiguration,
    input_is_file: bool,
    output_exists: bool,
) -> Result<(), Seq<char>> {
    let input = host::path_buf_bytes(configuration.input_path);
    let output = host::path_buf_bytes(configuration.output_path);
    if !input_is_file {
        Err("select an existing input video"@)
    } else if output.len() == 0 {
        Err("select an output filename"@)
    } else if host::path_equal(input, output) {
        Err("output path must differ from input path"@)
    } else if output_exists {
        Err("output already exists; choose another filename"@)
    } else if !is_target_rate(
        configuration.target_fps_num as int,
        configuration.target_fps_den as int,
    ) {
        Err("target FPS must be between 1 and 480"@)
    } else {
        Ok(())
    }
}

/// Checks a configuration against what is on disk: whether its input is a file and
/// whether its output is there already. The target rate has to be one that is offered.
pub fn validate_configuration(
    configuration: &JobConfiguration,
    input_is_file: bool,
    output_exists: bool,
) -> (result: Result<(), String>)
    ensures
        text::result_text(result) == configuration_check(
            *configuration,
            input_is_file,
            output_exists,
        ),
{
    if !input_is_file {
        return Err("select an existing input video".to_owned());
    }
    if path_is_empty(configuration.output_path.as_path()) {
        return Err("select an output filename".to_owned());
    }
    if same_path(configuration.input_path.as_path(), configuration.output_path.as_path()) {
        return Err("output path must differ from input path".to_owned());
    }
    if output_exists {
        return Err("output already exists; choose another filename".to_owned());
    }
    let numerator: u64 = configuration.target_fps_num as u64;
    let denominator: u64 = configuration.target_fps_den as u64;
    proof {
        assert(TARGET_FPS_MAX == 480);
        assert(480 * denominator <= 480 * 0xffff_ffff);
    }
    if denominator == 0 || numerator < denominator || numerator > (TARGET_FPS_MAX as u64)
        * denominator {
        return Err("target FPS must be between 1 and 480".to_owned());
    }
    Ok(())
}

/// Why a target rate cannot be had from a source, if it cannot: it has to be above the
/// rate of the source.
pub open spec fn target_check(configuration: JobConfiguration, metadata: VideoMetadata) -> Result<
    (),
    Seq<char>,
> {
    if configuration.target_fps_num * metadata.source_fps_den <= metadata.source_fps_num
        * configuration.target_fps_den {
        Err("target FPS must be higher than source FPS"@)
    } else {
        Ok(())
    }
}

/// Checks that the target rate is above the rate of the source.
pub fn validate_target_fps(configuration: &JobConfiguration, metadata: &VideoMetadata) -> (result:
    Result<(), String>)
    requires
        metadata.source_fps_num > 0,
        metadata.source_fps_den > 0,
        configuration.target_fps_den > 0 || configuration.target_fps_num == 0,
    ensures
        text::result_text(result) == target_check(*configuration, *metadata),
{
    proof {
        lemma_scaled_rate(configuration.target_fps_num, metadata.source_fps_den);
        lemma_scaled_rate(configuration.target_fps_den, metadata.source_fps_num);
    }
    let target_scaled: u128 = (configuration.target_fps_num as u128) * (
    metadata.source_fps_den as u128);
    let source_scaled: u128 = (metadata.source_fps_num as u128) * (
    configuration.target_fps_den as u128);
    if target_scaled <= source_scaled {
        return Err("target FPS must be higher than source FPS".to_owned());
    }
    Ok(())
}

proof fn lemma_scaled_rate(left: u32, right: u64)
    ensures
        0 <= left * right <= u128::MAX,
        left * right == right * left,
{
    assert(0 <= left * right <= 0x1_0000_0000 * 0x1_0000_0000_0000_0000) by (nonlinear_arith)
        requires
            0 <= left <= 0x1_0000_0000,
            0 <= right <= 0x1_0000_0000_0000_0000,
    ;
    assert(left * right == right * left) by (nonlinear_arith);
}

/// Whether one number divides another without remainder.
pub open spec fn divides(divisor: int, number: int) -> bool {
    number % divisor == 0
}

/// Whether a positive number divides two others.
pub open spec fn is_common_divisor(divisor: int, left: int, right: int) -> bool {
    divisor > 0 && divides(divisor, left) && divides(divisor, right)
}

/// Whether a number divides two others, and no larger number does.
pub open spec fn is_greatest_common_divisor(divisor: int, left: int, right: int) -> bool {
    &&& is_common_divisor(divisor, left, right)
    &&& forall|other: int| #[trigger] is_common_divisor(other, left, right) ==> other <= divisor
}

/// The numbers that divide two numbers also divide the second and the remainder of
/// the first by it, and the other way round.
proof fn lemma_division_step(divisor: int, left: int, right: int)
    requires
        divisor > 0,
        left >= 0,
        right > 0,
    ensures
        divides(divisor, left) && divides(divisor, right) <==> divides(divisor, right) && divides(
            divisor,
            left % right,
        ),
{
    let quotient = left / right;
    let remainder = left % right;
    vstd::arithmetic::div_mod::lemma_fundamental_div_mod(left, right);
    if divides(divisor, right) {
        let b = right / divisor;
        vstd::arithmetic::div_mod::lemma_fundamental_div_mod(right, divisor);
        if divides(divisor, left) {
            let a = left / divisor;
            vstd::arithmetic::div_mod::lemma_fundamental_div_mod(left, divisor);
            assert(remainder == divisor * (a - b * quotient)) by (nonlinear_arith)
                requires
                    left == right * quotient + remainder,
                    left == divisor * a,
                    right == divisor * b,
            ;
            vstd::arithmetic::div_mod::lemma_mod_multiples_basic(a - b * quotient, divisor);
            assert((a - b * quotient) * divisor == divisor * (a - b * quotient))
                by (nonlinear_arith);
        }
        if divides(divisor, remainder) {
            let c = remainder / divisor;
            vstd::arithmetic::div_mod::lemma_fundamental_div_mod(remainder, divisor);
            assert(left == (b * quotient + c) * divisor) by (nonlinear_arith)
                requires
                    left == right * quotient + remainder,
                    remainder == divisor * c,
                    right == divisor * b,
            ;
            vstd::arithmetic::div_mod::lemma_mod_multiples_basic(b * quotient + c, divisor);
        }
    }
}

/// The greatest number that divides both.
pub fn greatest_common_divisor(left: u64, right: u64) -> (divisor: u64)
    requires
        left > 0,
        right > 0,
    ensures
        is_greatest_common_divisor(divisor as int, left as int, right as int),
{
    let mut first: u64 = left;
    let mut second: u64 = right;
    while second != 0
        invariant
            first > 0,
            forall|other: int|
                #[trigger] is_common_divisor(other, first as int, second as int)
                    == is_common_divisor(other, left as int, right as int),
        decreases second,
    {
        let remainder: u64 = first % second;
        proof {
            assert forall|other: int| #[trigger]
                is_common_divisor(other, second as int, remainder as int) == is_common_divisor(
                    other,
                    left as int,
                    right as int,
                ) by {
                assert(is_common_divisor(other, first as int, second as int) == is_common_divisor(
                    other,
                    left as int,
                    right as int,
                ));
                if other > 0 {
                    lemma_division_step(other, first as int, second as int);
                }
            }
        }
        first = second;
        second = remainder;
    }
    proof {
        vstd::arithmetic::div_mod::lemma_mod_self_0(first as int);
        assert(is_common_divisor(first as int, first as int, 0));
        assert forall|other: int| #[trigger]
            is_common_divisor(other, left as int, right as int) implies other <= first by {
            assert(is_common_divisor(other, first as int, 0));
            if other > first {
                vstd::arithmetic::div_mod::lemma_small_mod(first as nat, other as nat);
            }
        }
    }
    first
}

/// The position of the first slash, or the length where there is none.
pub open spec fn first_slash(text: Seq<char>) -> int
    decreases text.len(),
{
    if text.len() == 0 {
        0
    } else if text[0] == '/' {
        0
    } else {
        1 + first_slash(text.drop_first())
    }
}

/// What a rate reads as before it is reduced: two positive numbers with a slash
/// between them.
pub open spec fn rational_parts(text: Seq<char>) -> Result<(nat, nat), Seq<char>> {
    let slash = first_slash(text);
    if slash == text.len() {
        Err("frame rate is not rational"@)
    } else {
        match text::parsed_unsigned(text.take(slash), u64::MAX as nat) {
            None => Err("frame-rate numerator is invalid"@),
            Some(numerator) => match text::parsed_unsigned(
                text.skip(slash + 1),
                u64::MAX as nat,
            ) {
                None => Err("frame-rate denominator is invalid"@),
                Some(denominator) => if numerator == 0 || denominator == 0 {
                    Err("frame rate must be positive"@)
                } else {
                    Ok((numerator, denominator))
                },
            },
        }
    }
}

/// Whether a fraction is another one in lowest terms.
pub open spec fn is_reduced(reduced: (u64, u64), numerator: nat, denominator: nat) -> bool {
    exists|divisor: int| #[trigger]
        is_greatest_common_divisor(divisor, numerator as int, denominator as int)
            && reduced.0 * divisor == numerator && reduced.1 * divisor == denominator
}

/// Whether a parsed rate is what the text says.
pub open spec fn is_rational(result: Result<(u64, u64), String>, text: Seq<char>) -> bool {
    match rational_parts(text) {
        Err(message) => result matches Err(actual) && actual@ == message,
        Ok((numerator, denominator)) => result matches Ok(reduced) && is_reduced(
            reduced,
            numerator,
            denominator,
        ),
    }
}

proof fn lemma_first_slash(text: Seq<char>, position: int)
    requires
        0 <= position <= text.len(),
        forall|i: int| 0 <= i < position ==> text[i] != '/',
        position < text.len() ==> text[position] == '/',
    ensures
        first_slash(text) == position,
    decreases text.len(),
{
    if position > 0 {
        assert(text[0] != '/');
        let rest = text.drop_first();
        assert forall|i: int| 0 <= i < position - 1 implies rest[i] != '/' by {
            assert(rest[i] == text[i + 1]);
        }
        lemma_first_slash(rest, position - 1);
    }
}

/// Reads a frame rate such as `30000/1001`, in lowest terms.
pub fn parse_rational(text: &str) -> (result: Result<(u64, u64), String>)
    requires
        text@.len() > 0,
        vstd::utf8::encode_utf8(text@).len() <= 64,
    ensures
        is_rational(result, text@),
        result matches Ok(reduced) ==> reduced.0 > 0 && reduced.1 > 0,
{
    let length: usize = text.unicode_len();
    let mut slash: usize = 0;
    while slash < length && text.get_char(slash) != '/'
        invariant
            slash <= length,
            length == text@.len(),
            forall|i: int| 0 <= i < slash ==> text@[i] != '/',
        decreases length - slash,
    {
        slash = slash + 1;
    }
    proof {
        lemma_first_slash(text@, slash as int);
    }
    if slash == length {
        return Err("frame rate is not rational".to_owned());
    }
    let numerator_text = text.substring_char(0, slash);
    let denominator_text = text.substring_char(slash + 1, length);
    proof {
        assert(numerator_text@ =~= text@.take(slash as int));
        assert(denominator_text@ =~= text@.skip(slash + 1));
    }
    let numerator: u64 = match parse_unsigned(numerator_text, u64::MAX) {
        Some(numerator) => numerator,
        None => return Err("frame-rate numerator is invalid".to_owned()),
    };
    let denominator: u64 = match parse_unsigned(denominator_text, u64::MAX) {
        Some(denominator) => denominator,
        None => return Err("frame-rate denominator is invalid".to_owned()),
    };
    if numerator == 0 || denominator == 0 {
        return Err("frame rate must be positive".to_owned());
    }
    let divisor: u64 = greatest_common_divisor(numerator, denominator);
    let reduced: (u64, u64) = (numerator / divisor, denominator / divisor);
    proof {
        lemma_exact_quotient(numerator as int, divisor as int);
        lemma_exact_quotient(denominator as int, divisor as int);
        assert(is_reduced(reduced, numerator as nat, denominator as nat));
    }
    Ok(reduced)
}

proof fn lemma_exact_quotient(number: int, divisor: int)
    requires
        number > 0,
        divisor > 0,
        divides(divisor, number),
    ensures
        (number / divisor) * divisor == number,
        number / divisor > 0,
{
    vstd::arithmetic::div_mod::lemma_fundamental_div_mod(number, divisor);
    assert((number / divisor) * divisor == divisor * (number / divisor)) by (nonlinear_arith);
    assert(number / divisor > 0) by (nonlinear_arith)
        requires
            (number / divisor) * divisor == number,
            number > 0,
            divisor > 0,
    ;
}

/// The bytes of an RGB24 frame, or why it is too large.
pub open spec fn frame_size_of(width: int, height: int) -> Result<usize, Seq<char>> {
    if width * height * 3 > usize::MAX {
        Err("frame size exceeds addressable memory"@)
    } else if width * height * 3 > FRAME_SIZE_BYTES_MAX {
        Err("decoded frame exceeds the 128 MiB safety limit"@)
    } else {
        Ok((width * height * 3) as usize)
    }
}

/// The size of an RGB24 frame in bytes, where it is within the limit.
pub fn checked_frame_size(width: u32, height: u32) -> (result: Result<usize, String>)
    requires
        width > 0,
        height > 0,
    ensures
        text::result_text(result) == frame_size_of(width as int, height as int),
        result matches Ok(size) ==> 0 < size <= FRAME_SIZE_BYTES_MAX,
{
    proof {
        assert(0 < width * height <= 0xffff_ffff * 0xffff_ffff) by (nonlinear_arith)
            requires
                0 < width <= 0xffff_ffff,
                0 < height <= 0xffff_ffff,
        ;
    }
    let pixels: u64 = (width as u64) * (height as u64);
    let frame_size: u128 = (pixels as u128) * 3;
    if frame_size > usize::MAX as u128 {
        return Err("frame size exceeds addressable memory".to_owned());
    }
    if frame_size > FRAME_SIZE_BYTES_MAX as u128 {
        return Err("decoded frame exceeds the 128 MiB safety limit".to_owned());
    }
    Ok(frame_size as usize)
}

/// A reduced rate has no common divisor left but one.
pub proof fn reduced_rates_are_in_lowest_terms(reduced: (u64, u64), numerator: nat, denominator: nat)
    requires
        numerator > 0,
        denominator > 0,
        is_reduced(reduced, numerator, denominator),
    ensures
        is_greatest_common_divisor(1, reduced.0 as int, reduced.1 as int),
        reduced.0 * denominator == reduced.1 * numerator,
{
    let divisor = choose|divisor: int| #[trigger]
        is_greatest_common_divisor(divisor, numerator as int, denominator as int)
            && reduced.0 * divisor == numerator && reduced.1 * divisor == denominator;
    let a = reduced.0 as int;
    let b = reduced.1 as int;
    assert(a * denominator == b * numerator) by (nonlinear_arith)
        requires
            a * divisor == numerator,
            b * divisor == denominator,
    ;
    assert forall|other: int| #[trigger] is_common_divisor(other, a, b) implies other <= 1 by {
        let p = a / other;
        let q = b / other;
        vstd::arithmetic::div_mod::lemma_fundamental_div_mod(a, other);
        vstd::arithmetic::div_mod::lemma_fundamental_div_mod(b, other);
        assert(numerator == p * (other * divisor)) by (nonlinear_arith)
            requires
                a * divisor == numerator,
                a == other * p,
        ;
        assert(denominator == q * (other * divisor)) by (nonlinear_arith)
            requires
                b * divisor == denominator,
                b == other * q,
        ;
        assert(other * divisor > 0) by (nonlinear_arith)
            requires
                other > 0,
                divisor > 0,
        ;
        vstd::arithmetic::div_mod::lemma_mod_multiples_basic(p, other * divisor);
        vstd::arithmetic::div_mod::lemma_mod_multiples_basic(q, other * divisor);
        assert(is_common_divisor(other * divisor, numerator as int, denominator as int));
        assert(other * divisor <= divisor);
        assert(other <= 1) by (nonlinear_arith)
            requires
                other * divisor <= divisor,
                divisor > 0,
        ;
    }
}

/// The greatest common divisor, by the remainders of Euclid's algorithm.
pub open spec fn euclid(left: nat, right: nat) -> nat
    decreases right,
{
    if right == 0 {
        left
    } else {
        euclid(right, left % right)
    }
}

proof fn lemma_euclid_is_greatest(left: nat, right: nat)
    requires
        left > 0,
    ensures
        is_greatest_common_divisor(euclid(left, right) as int, left as int, right as int),
    decreases right,
{
    if right == 0 {
        vstd::arithmetic::div_mod::lemma_mod_self_0(left as int);
        assert(is_common_divisor(left as int, left as int, 0));
        assert forall|other: int| #[trigger]
            is_common_divisor(other, left as int, right as int) implies other <= left by {
            if other > left {
                vstd::arithmetic::div_mod::lemma_small_mod(left, other as nat);
            }
        }
    } else {
        let remainder = left % right;
        lemma_euclid_is_greatest(right, remainder);
        let divisor = euclid(left, right) as int;
        assert(is_common_divisor(divisor, right as int, remainder as int));
        lemma_division_step(divisor, left as int, right as int);
        assert forall|other: int| #[trigger]
            is_common_divisor(other, left as int, right as int) implies other <= divisor by {
            lemma_division_step(other, left as int, right as int);
            assert(is_common_divisor(other, right as int, remainder as int));
        }
    }
}

proof fn lemma_euclid_scales(factor: nat, left: nat, right: nat)
    requires
        factor > 0,
    ensures
        euclid(factor * left, factor * right) == factor * euclid(left, right),
    decreases right,
{
    if right == 0 {
        assert(factor * right == 0) by (nonlinear_arith)
            requires
                right == 0,
        ;
    } else {
        assert(factor * right > 0) by (nonlinear_arith)
            requires
                factor > 0,
                right > 0,
        ;
        vstd::arithmetic::div_mod::lemma_truncate_middle(left as int, factor as int, right as int);
        assert((factor * left) % (factor * right) == factor * (left % right));
        lemma_euclid_scales(factor, right, left % right);
    }
}

/// How a rate is written.
pub open spec fn rational_text(numerator: nat, denominator: nat) -> Seq<char> {
    text::decimal(numerator) + "/"@ + text::decimal(denominator)
}

/// A rate that is written out is read as it was written.
pub proof fn written_rates_are_read(numerator: nat, denominator: nat)
    requires
        0 < numerator <= u64::MAX,
        0 < denominator <= u64::MAX,
    ensures
        rational_parts(rational_text(numerator, denominator)) == Ok::<(nat, nat), Seq<char>>(
            (numerator, denominator),
        ),
{
    let written = rational_text(numerator, denominator);
    let front = text::decimal(numerator);
    let back = text::decimal(denominator);
    reveal_strlit("/");
    text::decimal_is_made_of_digits(numerator);
    assert forall|i: int| 0 <= i < front.len() implies written[i] != '/' by {
        assert(text::is_digit(front[i]));
        assert(written[i] == front[i]);
    }
    assert(written[front.len() as int] == '/');
    lemma_first_slash(written, front.len() as int);
    assert(written.take(front.len() as int) =~= front);
    assert(written.skip(front.len() as int + 1) =~= back);
    text::decimal_reads_back(numerator, u64::MAX as nat);
    text::decimal_reads_back(denominator, u64::MAX as nat);
}

/// A reduced rate, or both its parts times the same number, written out and read
/// again, gives the reduced rate back and no other.
pub proof fn rates_read_back(rate: (u64, u64), factor: nat)
    requires
        is_greatest_common_divisor(1, rate.0 as int, rate.1 as int),
        rate.0 > 0,
        rate.1 > 0,
        factor > 0,
        factor * rate.0 <= u64::MAX,
        factor * rate.1 <= u64::MAX,
    ensures
        rational_parts(rational_text(factor * rate.0 as nat, factor * rate.1 as nat)) == Ok::<
            (nat, nat),
            Seq<char>,
        >((factor * rate.0 as nat, factor * rate.1 as nat)),
        forall|reduced: (u64, u64)| #[trigger]
            is_reduced(reduced, factor * rate.0 as nat, factor * rate.1 as nat) <==> reduced
                == rate,
{
    let numerator = factor * rate.0 as nat;
    let denominator = factor * rate.1 as nat;
    assert(numerator > 0 && denominator > 0) by (nonlinear_arith)
        requires
            numerator == factor * rate.0 as nat,
            denominator == factor * rate.1 as nat,
            factor > 0,
            rate.0 > 0,
            rate.1 > 0,
    ;
    written_rates_are_read(numerator, denominator);
    lemma_euclid_is_greatest(rate.0 as nat, rate.1 as nat);
    assert(is_common_divisor(euclid(rate.0 as nat, rate.1 as nat) as int, rate.0 as int, rate.1 as int));
    assert(euclid(rate.0 as nat, rate.1 as nat) == 1);
    lemma_euclid_scales(factor, rate.0 as nat, rate.1 as nat);
    lemma_euclid_is_greatest(numerator, denominator);
    assert(is_greatest_common_divisor(factor as int, numerator as int, denominator as int));
    assert forall|reduced: (u64, u64)| #[trigger]
        is_reduced(reduced, numerator, denominator) <==> reduced == rate by {
        if is_reduced(reduced, numerator, denominator) {
            let divisor = choose|divisor: int| #[trigger]
                is_greatest_common_divisor(divisor, numerator as int, denominator as int)
                    && reduced.0 * divisor == numerator && reduced.1 * divisor == denominator;
            assert(is_common_divisor(divisor, numerator as int, denominator as int));
            assert(is_common_divisor(factor as int, numerator as int, denominator as int));
            assert(divisor == factor);
            assert(reduced.0 == rate.0 && reduced.1 == rate.1) by (nonlinear_arith)
                requires
                    reduced.0 * factor == factor * rate.0,
                    reduced.1 * factor == factor * rate.1,
                    factor > 0,
            ;
        }
        if reduced == rate {
            assert(rate.0 * factor == factor * rate.0 && rate.1 * factor == factor * rate.1)
                by (nonlinear_arith);
        }
    }
}

/// A text reads as a rate only where it has a slash, and positive numbers on both sides of
/// the first one.
pub proof fn rates_are_two_positive_numbers(text: Seq<char>)
    ensures
        !text.contains('/') ==> rational_parts(text) is Err,
        rational_parts(text) matches Ok((numerator, denominator)) ==> {
            let slash = first_slash(text);
            &&& 0 <= slash < text.len()
            &&& text[slash] == '/'
            &&& forall|i: int| 0 <= i < slash ==> text[i] != '/'
            &&& text::parsed_unsigned(text.take(slash), u64::MAX as nat) == Some(numerator)
            &&& text::parsed_unsigned(text.skip(slash + 1), u64::MAX as nat) == Some(denominator)
            &&& 0 < numerator <= u64::MAX
            &&& 0 < denominator <= u64::MAX
        },
{
    lemma_slash_is_first(text);
}

proof fn lemma_slash_is_first(text: Seq<char>)
    ensures
        0 <= first_slash(text) <= text.len(),
        first_slash(text) < text.len() ==> text[first_slash(text)] == '/',
        forall|i: int| 0 <= i < first_slash(text) ==> text[i] != '/',
        !text.contains('/') ==> first_slash(text) == text.len(),
    decreases text.len(),
{
    if text.len() > 0 && text[0] != '/' {
        let rest = text.drop_first();
        lemma_slash_is_first(rest);
        assert forall|i: int| 0 <= i < first_slash(text) implies text[i] != '/' by {
            if i > 0 {
                assert(rest[i - 1] == text[i]);
            }
        }
        if !text.contains('/') {
            assert forall|i: int| 0 <= i < rest.len() implies rest[i] != '/' by {
                assert(rest[i] == text[i + 1]);
            }
        }
    }
}

/// A job can start exactly where its input is a file, its output is named, new and
/// another one, and its rate, whole or not, lies from one to four hundred and eighty.
pub proof fn jobs_start_where_nothing_stands_against_it(
    configuration: JobConfiguration,
    input_is_file: bool,
    output_exists: bool,
)
    ensures
        configuration_check(configuration, input_is_file, output_exists) is Ok <==> {
            &&& input_is_file
            &&& !output_exists
            &&& host::path_buf_bytes(configuration.output_path).len() > 0
            &&& !host::path_equal(
                host::path_buf_bytes(configuration.input_path),
                host::path_buf_bytes(configuration.output_path),
            )
            &&& configuration.target_fps_den > 0
            &&& configuration.target_fps_num >= configuration.target_fps_den
            &&& configuration.target_fps_num <= 480 * configuration.target_fps_den
        },
{
}

/// Whether a rate is offered does not depend on how it is written, and the whole rates
/// that are offered are those from one to four hundred and eighty.
pub proof fn rates_are_offered_by_their_value(numerator: int, denominator: int, factor: int)
    requires
        factor > 0,
    ensures
        is_target_rate(factor * numerator, factor * denominator) <==> is_target_rate(
            numerator,
            denominator,
        ),
        is_target_rate(numerator, 1) <==> 1 <= numerator <= 480,
{
    assert(0 < factor * denominator <==> 0 < denominator) by (nonlinear_arith)
        requires
            factor > 0,
    ;
    assert(factor * denominator <= factor * numerator <==> denominator <= numerator)
        by (nonlinear_arith)
        requires
            factor > 0,
    ;
    assert(factor * numerator <= 480 * (factor * denominator) <==> numerator <= 480 * denominator)
        by (nonlinear_arith)
        requires
            factor > 0,
    ;
}

/// A target rate can be had exactly where it is above the rate of the source: a source
/// frame lasts longer than an output frame does, whichever way the rates are written.
pub proof fn targets_are_above_their_sources(
    configuration: JobConfiguration,
    metadata: VideoMetadata,
    target: int,
    source: int,
)
    requires
        target > 0,
        source > 0,
        configuration.target_fps_num == target * configuration.target_fps_den,
        metadata.source_fps_num == source * metadata.source_fps_den,
        configuration.target_fps_den > 0,
        metadata.source_fps_den > 0,
    ensures
        target_check(configuration, metadata) is Ok <==> target > source,
{
    let a = configuration.target_fps_den as int;
    let b = metadata.source_fps_den as int;
    assert((target * a) * b > (source * b) * a <==> target > source) by (nonlinear_arith)
        requires
            a > 0,
            b > 0,
    ;
}

/// A rate that can be had from a source can be had from every slower one, and every
/// higher rate can be had too.
pub proof fn higher_targets_can_be_had(
    configuration: JobConfiguration,
    higher: JobConfiguration,
    metadata: VideoMetadata,
)
    requires
        metadata.source_fps_den > 0,
        higher.target_fps_den == configuration.target_fps_den,
        higher.target_fps_num >= configuration.target_fps_num,
        target_check(configuration, metadata) is Ok,
    ensures
        target_check(higher, metadata) is Ok,
        configuration.target_fps_num > 0,
{
    let a = configuration.target_fps_num as int;
    let b = higher.target_fps_num as int;
    let d = metadata.source_fps_den as int;
    assert(a * d <= b * d) by (nonlinear_arith)
        requires
            a <= b,
            d > 0,
    ;
    assert(metadata.source_fps_num * configuration.target_fps_den >= 0) by (nonlinear_arith);
    assert(a > 0) by (nonlinear_arith)
        requires
            a * d > 0,
            a >= 0,
            d > 0,
    ;
}

/// A frame has three bytes for each pixel, upright or turned, and is accepted up to 128
/// MiB.
pub proof fn frames_have_three_bytes_for_each_pixel(width: int, height: int)
    requires
        width > 0,
        height > 0,
    ensures
        frame_size_of(width, height) is Ok <==> 3 * (width * height) <= 134_217_728,
        frame_size_of(width, height) matches Ok(size) ==> size == 3 * (width * height),
        frame_size_of(width, height) == frame_size_of(height, width),
{
    assert(width * height == height * width) by (nonlinear_arith);
    assert(width * height > 0) by (nonlinear_arith)
        requires
            width > 0,
            height > 0,
    ;
}

/// Why a job cannot start is told in order: the input, then the output, then the rate.
/// Where all that comes before is in order, each obstacle is the one that is told.
pub proof fn obstacles_are_told_in_order(
    configuration: JobConfiguration,
    input_is_file: bool,
    output_exists: bool,
)
    ensures
        ({
            let told = configuration_check(configuration, input_is_file, output_exists);
            let output = host::path_buf_bytes(configuration.output_path);
            let same = host::path_equal(host::path_buf_bytes(configuration.input_path), output);
            &&& !input_is_file ==> told == Err::<(), Seq<char>>("select an existing input video"@)
            &&& input_is_file && output.len() == 0 ==> told == Err::<(), Seq<char>>(
                "select an output filename"@,
            )
            &&& input_is_file && output.len() > 0 && same ==> told == Err::<(), Seq<char>>(
                "output path must differ from input path"@,
            )
            &&& input_is_file && output.len() > 0 && !same && output_exists ==> told == Err::<
                (),
                Seq<char>,
            >("output already exists; choose another filename"@)
            &&& input_is_file && output.len() > 0 && !same && !output_exists ==> (told is Err
                <==> configuration.target_fps_den == 0 || configuration.target_fps_num
                < configuration.target_fps_den || configuration.target_fps_num > 480
                * configuration.target_fps_den)
        }),
{
}

} // verus!
