//! Capturing what a probe of a video prints, and reading it.

use crate::host::text_from_bytes;
use crate::pipeline::{
    checked_frame_size, parse_rational, VideoMetadata, FRAME_DIMENSION_MAX,
};
use crate::text::split_lines;
use crate::{host, pipeline, text};
use vstd::prelude::*;
use vstd::utf8::*;

verus! {

/// At most this much of a probe's diagnostics is kept: 64 KiB.
pub const PROBE_DIAGNOSTIC_SIZE_BYTES_MAX: usize = 65_536;

pub const PROBE_DIAGNOSTIC_LINE_COUNT_MAX: usize = 200;

/// At most this much of a probe's output is kept: 1 MiB.
pub const PROBE_OUTPUT_SIZE_BYTES_MAX: usize = 1_048_576;

pub const PROCESS_OUTPUT_READ_SIZE_BYTES: usize = 4096;

pub const PROCESS_OUTPUT_READ_COUNT_MAX: usize = 1_048_576;

/// The arguments that a probe is started with, before the path of the video.
pub open spec fn probe_arguments_text() -> Seq<Seq<char>> {
    seq![
        "-v"@,
        "error"@,
        "-select_streams"@,
        "v:0"@,
        "-show_entries"@,
        "stream=width,height,avg_frame_rate,pix_fmt,duration:format=duration"@,
        "-of"@,
        "json"@,
    ]
}

/// The arguments that a probe is started with, before the path of the video.
pub fn probe_arguments() -> (arguments: Vec<String>)
    ensures
        text::texts(arguments@) == probe_arguments_text(),
{
    let mut arguments: Vec<String> = Vec::new();
    arguments.push("-v".to_owned());
    arguments.push("error".to_owned());
    arguments.push("-select_streams".to_owned());
    arguments.push("v:0".to_owned());
    arguments.push("-show_entries".to_owned());
    arguments.push(
        "stream=width,height,avg_frame_rate,pix_fmt,duration:format=duration".to_owned(),
    );
    arguments.push("-of".to_owned());
    arguments.push("json".to_owned());
    proof {
        assert(text::texts(arguments@) =~= probe_arguments_text());
    }
    arguments
}

/// The first part of what a process prints, and whether it printed more.
pub struct OutputCapture {
    pub size_bytes_max: usize,
    pub output: Vec<u8>,
    pub exceeded: bool,
    pub read_count: usize,
}

impl OutputCapture {
    /// The captured output is within its limit, and fills it where more was printed.
    pub open spec fn well_formed(self) -> bool {
        &&& self.output@.len() <= self.size_bytes_max
        &&& self.exceeded ==> self.output@.len() == self.size_bytes_max
        &&& self.read_count <= PROCESS_OUTPUT_READ_COUNT_MAX
    }

    /// Whether the capture is what it has to be once `printed` was printed.
    pub open spec fn holds(self, printed: Seq<u8>) -> bool {
        &&& self.output@ == text::at_most(printed, self.size_bytes_max as int)
        &&& self.exceeded == (printed.len() > self.size_bytes_max)
    }

    /// Nothing captured yet.
    pub fn new(size_bytes_max: usize) -> (capture: OutputCapture)
        requires
            size_bytes_max > 0,
        ensures
            capture.well_formed(),
            capture.size_bytes_max == size_bytes_max,
            capture.read_count == 0,
            capture.holds(Seq::empty()),
    {
        let capture = OutputCapture {
            size_bytes_max,
            output: Vec::new(),
            exceeded: false,
            read_count: 0,
        };
        proof {
            assert(capture.output@ =~= Seq::<u8>::empty());
        }
        capture
    }

    /// Takes in what one read returned. An empty read ends the output; otherwise the
    /// part that still fits is kept. Fails once too many reads were needed.
    pub fn absorb(&mut self, chunk: &[u8]) -> (finished: Result<bool, String>)
        requires
            old(self).well_formed(),
            old(self).read_count < PROCESS_OUTPUT_READ_COUNT_MAX,
        ensures
            final(self).well_formed(),
            final(self).size_bytes_max == old(self).size_bytes_max,
            chunk@.len() == 0 ==> *final(self) == *old(self),
            chunk@.len() > 0 ==> final(self).read_count == old(self).read_count + 1,
            final(self).output@ == text::at_most(
                old(self).output@ + chunk@,
                old(self).size_bytes_max as int,
            ),
            final(self).exceeded == (old(self).exceeded || old(self).output@.len() + chunk@.len()
                > old(self).size_bytes_max),
            text::result_text(finished) == if chunk@.len() == 0 {
                Ok(true)
            } else if old(self).read_count + 1 >= PROCESS_OUTPUT_READ_COUNT_MAX {
                Err("process output exceeded the read-count safety limit"@)
            } else {
                Ok(false)
            },
    {
        let ghost before = self.output@;
        if chunk.len() == 0 {
            proof {
                assert(before + chunk@ =~= before);
            }
            return Ok(true);
        }
        let remaining_size: usize = self.size_bytes_max - self.output.len();
        let copy_size: usize = if chunk.len() < remaining_size {
            chunk.len()
        } else {
            remaining_size
        };
        let mut index: usize = 0;
        while index < copy_size
            invariant
                index <= copy_size <= chunk@.len(),
                self.output@ == before + chunk@.take(index as int),
                self.size_bytes_max == old(self).size_bytes_max,
                self.exceeded == old(self).exceeded,
                self.read_count == old(self).read_count,
            decreases copy_size - index,
        {
            self.output.push(chunk[index]);
            proof {
                assert(self.output@ =~= before + chunk@.take(index + 1));
            }
            index = index + 1;
        }
        self.exceeded = self.exceeded || copy_size < chunk.len();
        self.read_count = self.read_count + 1;
        proof {
            assert(self.output@ =~= text::at_most(
                before + chunk@,
                self.size_bytes_max as int,
            ));
        }
        if self.read_count >= PROCESS_OUTPUT_READ_COUNT_MAX {
            return Err("process output exceeded the read-count safety limit".to_owned());
        }
        Ok(false)
    }

    /// What was captured, and whether more was printed.
    pub fn into_parts(self) -> (parts: (Vec<u8>, bool))
        ensures
            parts.0 == self.output,
            parts.1 == self.exceeded,
    {
        (self.output, self.exceeded)
    }
}

/// However a process's output is split into reads, the same part of it is kept:
/// taking in one more read leaves the capture of everything printed so far.
pub proof fn capture_does_not_depend_on_reads(
    size_bytes_max: int,
    printed: Seq<u8>,
    chunk: Seq<u8>,
)
    requires
        size_bytes_max >= 0,
    ensures
        text::at_most(text::at_most(printed, size_bytes_max) + chunk, size_bytes_max)
            == text::at_most(printed + chunk, size_bytes_max),
        (printed.len() > size_bytes_max || text::at_most(printed, size_bytes_max).len()
            + chunk.len() > size_bytes_max) <==> (printed + chunk).len() > size_bytes_max,
{
    assert(text::at_most(text::at_most(printed, size_bytes_max) + chunk, size_bytes_max)
        =~= text::at_most(printed + chunk, size_bytes_max));
}

/// What reads returned, up to the first that was empty, one after the other.
pub open spec fn printed_bytes(reads: Seq<Seq<u8>>) -> Seq<u8>
    decreases reads.len(),
{
    if reads.len() == 0 || reads[0].len() == 0 {
        Seq::empty()
    } else {
        reads[0] + printed_bytes(reads.drop_first())
    }
}

/// How many reads returned something before the first that was empty.
pub open spec fn full_read_count(reads: Seq<Seq<u8>>) -> int
    decreases reads.len(),
{
    if reads.len() == 0 || reads[0].len() == 0 {
        0
    } else {
        1 + full_read_count(reads.drop_first())
    }
}

/// What several reads returned.
pub open spec fn reads_view(reads: Seq<Vec<u8>>) -> Seq<Seq<u8>> {
    reads.map_values(|read: Vec<u8>| read@)
}

/// Captures what a process prints, given what each read of it returns; an empty read
/// is the end, and so is the last one. The output is drained to its end even where it
/// exceeds the limit, unless it takes too many reads.
pub fn drain_output_bounded(reads: &Vec<Vec<u8>>, size_bytes_max: usize) -> (result: Result<
    (Vec<u8>, bool),
    String,
>)
    requires
        size_bytes_max > 0,
    ensures
        if full_read_count(reads_view(reads@)) >= PROCESS_OUTPUT_READ_COUNT_MAX {
            result matches Err(message) && message@
                == "process output exceeded the read-count safety limit"@
        } else {
            let printed = printed_bytes(reads_view(reads@));
            &&& result matches Ok((output, exceeded))
            &&& output@ == text::at_most(printed, size_bytes_max as int)
            &&& exceeded == (printed.len() > size_bytes_max)
        },
{
    let ghost all = reads_view(reads@);
    let mut capture = OutputCapture::new(size_bytes_max);
    let ghost mut printed = Seq::<u8>::empty();
    let mut index: usize = 0;
    proof {
        assert(all.skip(0) =~= all);
        assert(printed + printed_bytes(all) =~= printed_bytes(all));
    }
    while index < reads.len()
        invariant
            index <= reads@.len(),
            all == reads_view(reads@),
            capture.well_formed(),
            capture.size_bytes_max == size_bytes_max,
            capture.read_count == index,
            index < PROCESS_OUTPUT_READ_COUNT_MAX,
            capture.holds(printed),
            printed + printed_bytes(all.skip(index as int)) == printed_bytes(all),
            index + full_read_count(all.skip(index as int)) == full_read_count(all),
        decreases reads@.len() - index,
    {
        let ghost rest = all.skip(index as int);
        let ghost before = printed;
        let ghost chunk = reads@[index as int]@;
        proof {
            assert(rest[0] == chunk);
            assert(rest.drop_first() =~= all.skip(index + 1));
            capture_does_not_depend_on_reads(size_bytes_max as int, before, chunk);
        }
        match capture.absorb(reads[index].as_slice()) {
            Ok(true) => {
                proof {
                    assert(before + Seq::<u8>::empty() =~= before);
                }
                return Ok(capture.into_parts());
            },
            Ok(false) => {},
            Err(message) => {
                proof {
                    lemma_full_read_count(all.skip(index + 1));
                }
                return Err(message);
            },
        }
        proof {
            printed = before + chunk;
            assert(printed + printed_bytes(all.skip(index + 1)) =~= before + printed_bytes(rest));
        }
        index = index + 1;
    }
    proof {
        assert(all.skip(index as int) =~= Seq::<Seq<u8>>::empty());
        assert(printed + Seq::<u8>::empty() =~= printed);
    }
    Ok(capture.into_parts())
}

proof fn lemma_full_read_count(reads: Seq<Seq<u8>>)
    ensures
        full_read_count(reads) >= 0,
    decreases reads.len(),
{
    if reads.len() > 0 && reads[0].len() > 0 {
        lemma_full_read_count(reads.drop_first());
    }
}

/// What a probe printed, and how it ended.
pub struct ProbeProcessOutput {
    pub success: bool,
    pub stdout: Vec<u8>,
    pub stdout_exceeded: bool,
    pub stderr: Vec<u8>,
    pub stderr_exceeded: bool,
}

/// What the thread that reads a probe's diagnostics came to.
pub enum DiagnosticsReader {
    Panicked,
    Returned(Result<(Vec<u8>, bool), String>),
}

/// Why the output of a probe could not be had, if it could not: a reader that panicked
/// comes first, then the metadata, the diagnostics, and the end of the process. `wait`
/// is whether the probe ended well, or why that is not known.
pub open spec fn probe_process_error(
    stdout: Result<(Vec<u8>, bool), String>,
    stderr: DiagnosticsReader,
    wait: Result<bool, String>,
) -> Option<Seq<char>> {
    match stderr {
        DiagnosticsReader::Panicked => Some("ffprobe diagnostics reader panicked"@),
        DiagnosticsReader::Returned(diagnostics) => match (stdout, diagnostics, wait) {
            (Err(message), _, _) => Some(message@),
            (Ok(_), Err(message), _) => Some(message@),
            (Ok(_), Ok(_), Err(error)) => Some("failed to wait for ffprobe: "@ + error@),
            (Ok(_), Ok(_), Ok(_)) => None,
        },
    }
}

/// The output of a probe, or the first reason why it could not be had.
pub fn finish_probe(
    stdout: Result<(Vec<u8>, bool), String>,
    stderr: DiagnosticsReader,
    wait: Result<bool, String>,
) -> (result: Result<ProbeProcessOutput, String>)
    ensures
        match probe_process_error(stdout, stderr, wait) {
            Some(message) => result matches Err(actual) && actual@ == message,
            None => result == Ok::<ProbeProcessOutput, String>(
                ProbeProcessOutput {
                    success: wait->Ok_0,
                    stdout: stdout->Ok_0.0,
                    stdout_exceeded: stdout->Ok_0.1,
                    stderr: stderr->Returned_0->Ok_0.0,
                    stderr_exceeded: stderr->Returned_0->Ok_0.1,
                },
            ),
        },
{
    let diagnostics = match stderr {
        DiagnosticsReader::Panicked => {
            return Err("ffprobe diagnostics reader panicked".to_owned());
        },
        DiagnosticsReader::Returned(diagnostics) => diagnostics,
    };
    let (stdout, stdout_exceeded) = match stdout {
        Ok(captured) => captured,
        Err(message) => return Err(message),
    };
    let (stderr, stderr_exceeded) = match diagnostics {
        Ok(captured) => captured,
        Err(message) => return Err(message),
    };
    let success = match wait {
        Ok(success) => success,
        Err(error) => {
            let mut message = "failed to wait for ffprobe: ".to_owned();
            message.append(error.as_str());
            return Err(message);
        },
    };
    Ok(ProbeProcessOutput { success, stdout, stdout_exceeded, stderr, stderr_exceeded })
}

/// Checks that the input of a probe is a file.
pub fn check_probe_input(is_file: bool) -> (result: Result<(), String>)
    ensures
        text::result_text(result) == if is_file {
            Ok(())
        } else {
            Err("input video does not exist or is not a regular file"@)
        },
{
    if !is_file {
        return Err("input video does not exist or is not a regular file".to_owned());
    }
    Ok(())
}

/// Whether a probe succeeded: it has to end well, and to print no more than is kept.
pub fn check_probe_process(success: bool, stdout_exceeded: bool, stderr_exceeded: bool) -> (result:
    Result<(), String>)
    ensures
        text::result_text(result) == if !success && stderr_exceeded {
            Err(
                "ffprobe could not inspect the selected video; diagnostics exceeded the capture limit"@,
            )
        } else if !success {
            Err("ffprobe could not inspect the selected video"@)
        } else if stdout_exceeded {
            Err("ffprobe returned unexpectedly large metadata"@)
        } else {
            Ok(())
        },
{
    if !success {
        return Err(
            if stderr_exceeded {
                "ffprobe could not inspect the selected video; diagnostics exceeded the capture limit".to_owned()
            } else {
                "ffprobe could not inspect the selected video".to_owned()
            },
        );
    }
    if stdout_exceeded {
        return Err("ffprobe returned unexpectedly large metadata".to_owned());
    }
    Ok(())
}

/// The lines of a probe's diagnostics that go into the log.
pub fn probe_diagnostic_lines(stderr: &[u8]) -> (lines: Vec<String>)
    ensures
        text::texts(lines@) == text::at_most(
            text::lines_of(
                host::lossy_text(
                    text::at_most(stderr@, PROBE_DIAGNOSTIC_SIZE_BYTES_MAX as int),
                ),
            ),
            PROBE_DIAGNOSTIC_LINE_COUNT_MAX as int,
        ),
        lines@.len() <= 200,
        stderr@.len() <= 65_536 && text::lines_of(host::lossy_text(stderr@)).len() <= 200
            ==> text::texts(lines@) == text::lines_of(host::lossy_text(stderr@)),
{
    let kept: &[u8] = if stderr.len() > PROBE_DIAGNOSTIC_SIZE_BYTES_MAX {
        let (front, _) = stderr.split_at(PROBE_DIAGNOSTIC_SIZE_BYTES_MAX);
        front
    } else {
        stderr
    };
    proof {
        assert(kept@ =~= text::at_most(stderr@, PROBE_DIAGNOSTIC_SIZE_BYTES_MAX as int));
    }
    let diagnostic = text_from_bytes(kept);
    let lines = split_lines(diagnostic.as_str(), PROBE_DIAGNOSTIC_LINE_COUNT_MAX);
    proof {
        assert(text::texts(lines@).len() == lines@.len());
    }
    lines
}

/// What a probe prints of a video stream.
pub struct ProbeStream {
    pub width: Option<u32>,
    pub height: Option<u32>,
    pub avg_frame_rate: Option<String>,
    pub pix_fmt: Option<String>,
    pub duration: Option<String>,
}

/// What a probe prints of the container.
pub struct ProbeFormat {
    pub duration: Option<String>,
}

/// What a probe prints.
pub struct ProbeOutput {
    pub streams: Vec<ProbeStream>,
    pub format: Option<ProbeFormat>,
}

/// The duration that a probe gives: that of the first stream, or else that of the
/// container.
pub open spec fn probed_duration(probe: ProbeOutput) -> Option<String> {
    if probe.streams@.len() > 0 && probe.streams@[0].duration is Some {
        probe.streams@[0].duration
    } else {
        match probe.format {
            Some(format) => format.duration,
            None => None,
        }
    }
}

/// The text of the duration that a probe gives, if it gives one.
pub fn duration_text(probe: &ProbeOutput) -> (duration: Option<String>)
    ensures
        duration == probed_duration(*probe),
{
    if probe.streams.len() > 0 {
        if let Some(duration) = &probe.streams[0].duration {
            return Some(duration.clone());
        }
    }
    match &probe.format {
        Some(format) => match &format.duration {
            Some(duration) => Some(duration.clone()),
            None => None,
        },
        None => None,
    }
}

/// Whether the bits of a double-precision number are those of a positive finite one.
pub open spec fn is_positive_finite(bits: u64) -> bool {
    0 < bits < 0x7ff0_0000_0000_0000
}

/// What is wrong with the frame size that a probe gives, if anything is.
pub open spec fn probed_size_error(probe: ProbeOutput) -> Option<Seq<char>> {
    if probe.streams@.len() == 0 {
        Some("input does not contain a video stream"@)
    } else if probe.streams@[0].width is None {
        Some("video width is unavailable"@)
    } else if probe.streams@[0].height is None {
        Some("video height is unavailable"@)
    } else {
        let width = probe.streams@[0].width->0;
        let height = probe.streams@[0].height->0;
        if width == 0 || height == 0 || width > FRAME_DIMENSION_MAX || height
            > FRAME_DIMENSION_MAX {
            Some("video dimensions must be between 1 and 16384"@)
        } else {
            match pipeline::frame_size_of(width as int, height as int) {
                Err(message) => Some(message),
                Ok(_) => None,
            }
        }
    }
}

/// What is wrong with a probed video, if anything is. `parsed_duration` is what the
/// duration text reads as: the bits of a double-precision number, if it is one.
pub open spec fn probed_error(probe: ProbeOutput, parsed_duration: Option<u64>) -> Option<
    Seq<char>,
> {
    match probed_size_error(probe) {
        Some(message) => Some(message),
        None => match probe.streams@[0].avg_frame_rate {
            None => Some("video frame rate is unavailable"@),
            Some(rate) => match pipeline::rational_parts(rate@) {
                Err(message) => Some(message),
                Ok(_) => if probed_duration(probe) is None {
                    Some("video duration is unavailable"@)
                } else {
                    match parsed_duration {
                        None => Some("video duration is invalid"@),
                        Some(bits) => if !is_positive_finite(bits) {
                            Some("video duration must be finite and positive"@)
                        } else {
                            None
                        },
                    }
                },
            },
        },
    }
}

/// Whether metadata say what a probe gave.
pub open spec fn is_probed_metadata(
    metadata: VideoMetadata,
    probe: ProbeOutput,
    parsed_duration: Option<u64>,
) -> bool {
    let stream = probe.streams@[0];
    let parts = pipeline::rational_parts(stream.avg_frame_rate->0@)->Ok_0;
    &&& stream.width == Some(metadata.width)
    &&& stream.height == Some(metadata.height)
    &&& pipeline::is_reduced(
        (metadata.source_fps_num, metadata.source_fps_den),
        parts.0,
        parts.1,
    )
    &&& parsed_duration == Some(metadata.duration_seconds_bits)
    &&& metadata.pixel_format@ == match stream.pix_fmt {
        Some(format) => format@,
        None => "unknown"@,
    }
}

/// Whether reading a probe gets as far as its frame rate, and that is empty or
/// longer than a rate can be.
pub open spec fn has_unreadable_rate(probe: ProbeOutput) -> bool {
    &&& probed_size_error(probe) is None
    &&& probe.streams@[0].avg_frame_rate matches Some(rate)
    &&& rate@.len() == 0 || encode_utf8(rate@).len() > 64
}

/// Whether reading a probe would meet a frame rate that no rate text can be.
pub fn rate_is_unreadable(probe: &ProbeOutput) -> (unreadable: bool)
    ensures
        unreadable == has_unreadable_rate(*probe),
{
    if size_of_probe(probe).is_err() {
        return false;
    }
    match &probe.streams[0].avg_frame_rate {
        Some(rate) => rate.as_str().is_empty() || rate.as_str().as_bytes().len() > 64,
        None => false,
    }
}

fn size_of_probe(probe: &ProbeOutput) -> (result: Result<(u32, u32), String>)
    ensures
        match probed_size_error(*probe) {
            Some(message) => result matches Err(actual) && actual@ == message,
            None => result matches Ok(size) && probe.streams@[0].width == Some(size.0)
                && probe.streams@[0].height == Some(size.1) && size.0 > 0 && size.1 > 0,
        },
{
    if probe.streams.len() == 0 {
        return Err("input does not contain a video stream".to_owned());
    }
    let stream = &probe.streams[0];
    let width: u32 = match stream.width {
        Some(width) => width,
        None => return Err("video width is unavailable".to_owned()),
    };
    let height: u32 = match stream.height {
        Some(height) => height,
        None => return Err("video height is unavailable".to_owned()),
    };
    if width == 0 || height == 0 || width > FRAME_DIMENSION_MAX || height > FRAME_DIMENSION_MAX {
        return Err("video dimensions must be between 1 and 16384".to_owned());
    }
    match checked_frame_size(width, height) {
        Ok(_) => Ok((width, height)),
        Err(message) => Err(message),
    }
}

/// Reads what a probe gave, with the duration text already read as a number.
pub fn read_metadata(probe: &ProbeOutput, parsed_duration: Option<u64>) -> (result: Result<
    VideoMetadata,
    String,
>)
    requires
        !has_unreadable_rate(*probe),
    ensures
        match probed_error(*probe, parsed_duration) {
            Some(message) => result matches Err(actual) && actual@ == message,
            None => result matches Ok(metadata) && is_probed_metadata(
                metadata,
                *probe,
                parsed_duration,
            ),
        },
        result matches Ok(metadata) ==> metadata.width > 0 && metadata.height > 0
            && metadata.source_fps_num > 0 && metadata.source_fps_den > 0,
        result matches Ok(metadata) ==> probe.streams@.len() > 0 && probe.streams@[0].width == Some(
            metadata.width,
        ) && probe.streams@[0].height == Some(metadata.height),
        result matches Ok(metadata) ==> parsed_duration == Some(metadata.duration_seconds_bits),
{
    let (width, height): (u32, u32) = match size_of_probe(probe) {
        Ok(size) => size,
        Err(message) => return Err(message),
    };
    let stream = &probe.streams[0];
    let rate: (u64, u64) = match &stream.avg_frame_rate {
        None => return Err("video frame rate is unavailable".to_owned()),
        Some(rate) => match parse_rational(rate.as_str()) {
            Ok(rate) => rate,
            Err(message) => return Err(message),
        },
    };
    if duration_text(probe).is_none() {
        return Err("video duration is unavailable".to_owned());
    }
    let duration_seconds_bits: u64 = match parsed_duration {
        Some(bits) => bits,
        None => return Err("video duration is invalid".to_owned()),
    };
    if !(0 < duration_seconds_bits && duration_seconds_bits < 0x7ff0_0000_0000_0000) {
        return Err("video duration must be finite and positive".to_owned());
    }
    let pixel_format = match &stream.pix_fmt {
        Some(format) => format.clone(),
        None => "unknown".to_owned(),
    };
    Ok(
        VideoMetadata {
            width,
            height,
            source_fps_num: rate.0,
            source_fps_den: rate.1,
            duration_seconds_bits,
            pixel_format,
        },
    )
}

/// The metadata of a video are those of its first stream: its width is the width and its
/// height the height, upright or not, the rate is the one that the text gives, in lowest
/// terms, and the duration and the pixel format are the ones that were read.
pub proof fn metadata_are_those_of_the_first_stream(
    metadata: VideoMetadata,
    probe: ProbeOutput,
    parsed_duration: Option<u64>,
    numerator: nat,
    denominator: nat,
)
    requires
        probed_error(probe, parsed_duration) is None,
        is_probed_metadata(metadata, probe, parsed_duration),
        0 < numerator <= u64::MAX,
        0 < denominator <= u64::MAX,
        probe.streams@[0].avg_frame_rate->0@ == pipeline::rational_text(numerator, denominator),
    ensures
        probe.streams@.len() > 0,
        probe.streams@[0].width == Some(metadata.width),
        probe.streams@[0].height == Some(metadata.height),
        1 <= metadata.width <= 16_384,
        1 <= metadata.height <= 16_384,
        metadata.width * metadata.height * 3 <= 134_217_728,
        metadata.source_fps_num * denominator == metadata.source_fps_den * numerator,
        pipeline::is_greatest_common_divisor(
            1,
            metadata.source_fps_num as int,
            metadata.source_fps_den as int,
        ),
        parsed_duration == Some(metadata.duration_seconds_bits),
        0 < metadata.duration_seconds_bits < 0x7ff0_0000_0000_0000,
        probe.streams@[0].pix_fmt matches Some(format) ==> metadata.pixel_format@ == format@,
        probe.streams@[0].pix_fmt is None ==> metadata.pixel_format@ == "unknown"@,
{
    pipeline::written_rates_are_read(numerator, denominator);
    pipeline::reduced_rates_are_in_lowest_terms(
        (metadata.source_fps_num, metadata.source_fps_den),
        numerator,
        denominator,
    );
}

/// A probe is read exactly where it gives everything: a first stream with a size within
/// the limits, a rate of two positive numbers, and a duration that is positive and
/// finite.
pub proof fn complete_probes_are_read(probe: ProbeOutput, parsed_duration: Option<u64>)
    ensures
        probed_error(probe, parsed_duration) is None <==> {
            &&& probe.streams@.len() > 0
            &&& probe.streams@[0].width matches Some(width)
            &&& probe.streams@[0].height matches Some(height)
            &&& 1 <= width <= 16_384
            &&& 1 <= height <= 16_384
            &&& width * height * 3 <= 134_217_728
            &&& probe.streams@[0].avg_frame_rate matches Some(rate)
            &&& pipeline::rational_parts(rate@) is Ok
            &&& probe.streams@[0].duration is Some || (probe.format matches Some(format)
                && format.duration is Some)
            &&& parsed_duration matches Some(bits)
            &&& 0 < bits < 0x7ff0_0000_0000_0000
        },
{
}

/// The duration is that of the first stream, and that of the container only where the
/// stream gives none.
pub proof fn streams_give_the_duration_first(probe: ProbeOutput)
    ensures
        probe.streams@.len() > 0 && probe.streams@[0].duration is Some ==> probed_duration(probe)
            == probe.streams@[0].duration,
        probe.streams@.len() > 0 && probe.streams@[0].duration is None ==> (probe.format matches Some(
            format,
        ) ==> probed_duration(probe) == format.duration),
        (probe.streams@.len() == 0 || probe.streams@[0].duration is None) && probe.format is None
            ==> probed_duration(probe) is None,
{
}

/// What was captured of a process is the start of what it printed, all of it unless more
/// was printed than is kept.
pub proof fn captures_are_the_start_of_the_output(capture: OutputCapture, printed: Seq<u8>)
    requires
        capture.holds(printed),
    ensures
        capture.exceeded <==> printed.len() > capture.size_bytes_max,
        !capture.exceeded ==> capture.output@ == printed,
        capture.exceeded ==> capture.output@.len() == capture.size_bytes_max,
        forall|i: int| 0 <= i < capture.output@.len() ==> #[trigger] capture.output@[i] == printed[i],
{
}

/// What was printed is everything that was read before the first empty read, in order.
pub proof fn reads_make_up_the_output(reads: Seq<Seq<u8>>, read: Seq<u8>)
    ensures
        printed_bytes(Seq::<Seq<u8>>::empty()) == Seq::<u8>::empty(),
        read.len() > 0 ==> printed_bytes(seq![read] + reads) == read + printed_bytes(reads),
        read.len() == 0 ==> printed_bytes(seq![read] + reads) == Seq::<u8>::empty(),
        read.len() > 0 ==> full_read_count(seq![read] + reads) == 1 + full_read_count(reads),
        read.len() == 0 ==> full_read_count(seq![read] + reads) == 0,
{
    assert((seq![read] + reads).drop_first() =~= reads);
    assert((seq![read] + reads)[0] == read);
}

/// The output of a probe is had exactly where its reader did not panic, both its texts
/// were read and its end is known, and it is then passed on as it is.
pub proof fn probes_end_where_everything_was_read(
    stdout: Result<(Vec<u8>, bool), String>,
    stderr: DiagnosticsReader,
    wait: Result<bool, String>,
)
    ensures
        probe_process_error(stdout, stderr, wait) is None <==> stdout is Ok && wait is Ok && (
        stderr matches DiagnosticsReader::Returned(diagnostics) && diagnostics is Ok),
{
}

/// A duration is one exactly where the bits of its number have no sign, are not those of
/// zero, and have not the exponent of what is no finite number.
pub proof fn durations_are_positive_and_finite(bits: u64)
    ensures
        is_positive_finite(bits) <==> bits / 0x8000_0000_0000_0000 == 0 && bits != 0 && (bits
            / 0x10_0000_0000_0000) % 2048 != 2047,
{
}

/// A probe asks for the first video stream alone, for every part that is read of it, and
/// for the answer as JSON.
pub proof fn probes_ask_for_what_is_read()
    ensures
        pipeline::media::has_option(probe_arguments_text(), "-select_streams"@, "v:0"@),
        pipeline::media::has_option(probe_arguments_text(), "-of"@, "json"@),
        pipeline::media::has_option(
            probe_arguments_text(),
            "-show_entries"@,
            "stream="@ + "width,height,avg_frame_rate,pix_fmt,duration"@ + ":format=duration"@,
        ),
        pipeline::media::has_option(probe_arguments_text(), "-v"@, "error"@),
        probe_arguments_text().len() == 8,
{
    reveal_strlit("stream=width,height,avg_frame_rate,pix_fmt,duration:format=duration");
    reveal_strlit("stream=");
    reveal_strlit("width,height,avg_frame_rate,pix_fmt,duration");
    reveal_strlit(":format=duration");
    let asked = "stream="@ + "width,height,avg_frame_rate,pix_fmt,duration"@ + ":format=duration"@;
    assert("stream=width,height,avg_frame_rate,pix_fmt,duration:format=duration"@ =~= asked);
    let arguments = probe_arguments_text();
    assert(pipeline::media::option_at(arguments, 0, "-v"@, "error"@));
    assert(pipeline::media::option_at(arguments, 2, "-select_streams"@, "v:0"@));
    assert(pipeline::media::option_at(arguments, 4, "-show_entries"@, asked));
    assert(pipeline::media::option_at(arguments, 6, "-of"@, "json"@));
}

/// The frame size that a probe gives is wrong exactly where a side is missing, is not
/// between 1 and 16384, or the frame is too large; a missing stream counts before a missing
/// side, and that before a wrong one.
pub proof fn sizes_are_checked_in_order(probe: ProbeOutput)
    ensures
        probe.streams@.len() == 0 ==> probed_size_error(probe) == Some(
            "input does not contain a video stream"@,
        ),
        probe.streams@.len() > 0 ==> {
            let width = probe.streams@[0].width;
            let height = probe.streams@[0].height;
            &&& width is None ==> probed_size_error(probe) == Some("video width is unavailable"@)
            &&& width is Some && height is None ==> probed_size_error(probe) == Some(
                "video height is unavailable"@,
            )
            &&& width is Some && height is Some ==> (probed_size_error(probe) is None <==> 1
                <= width->0 <= 16_384 && 1 <= height->0 <= 16_384 && 3 * (width->0 * height->0)
                <= 128 * 1024 * 1024)
            &&& width is Some && height is Some && !(1 <= width->0 <= 16_384 && 1 <= height->0
                <= 16_384) ==> probed_size_error(probe) == Some(
                "video dimensions must be between 1 and 16384"@,
            )
        },
{
    if probe.streams@.len() > 0 && probe.streams@[0].width is Some && probe.streams@[0].height is Some {
        let width = probe.streams@[0].width->0 as int;
        let height = probe.streams@[0].height->0 as int;
        assert(width * height * 3 == 3 * (width * height)) by (nonlinear_arith);
        assert(3 * width * height == 3 * (width * height)) by (nonlinear_arith);
    }
}

/// A rate that is empty or longer than 64 bytes cannot be read, and no other.
pub proof fn rates_have_at_most_64_bytes(probe: ProbeOutput)
    requires
        probed_size_error(probe) is None,
    ensures
        probe.streams@[0].avg_frame_rate matches Some(rate) ==> (!has_unreadable_rate(probe)
            <==> rate@.len() > 0 && encode_utf8(rate@).len() <= 64),
        probe.streams@[0].avg_frame_rate is None ==> !has_unreadable_rate(probe),
{
}

} // verus!
