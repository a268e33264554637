//! The log of a job: a bounded file, the last lines in memory, and how the
//! diagnostics of other processes get into it.

use crate::host::{join_path, text_from_bytes};
use crate::text::{characters, push_decimal, split_terminated, string_between};
use crate::{host, text};
use std::collections::VecDeque;
use std::path::{Path, PathBuf};
use vstd::prelude::*;
use vstd::utf8::*;

verus! {

/// How many log files are kept, the current one among them.
pub const LOG_FILE_COUNT_MAX: usize = 5;

/// No log file is larger than 1 MiB.
pub const LOG_FILE_SIZE_BYTES_MAX: usize = 1_048_576;

/// How many lines are kept in memory.
pub const LOG_LINE_COUNT_MAX: usize = 200;

pub const LOG_READ_SIZE_BYTES: usize = 4096;

pub const LOG_READ_COUNT_MAX: usize = 1_048_576;

pub const LOG_SOURCE_SIZE_MAX: usize = 32;

/// How many lines a summary holds.
pub const SUMMARY_LINE_COUNT_MAX: usize = 8;

/// A text without the line ends at its end.
pub open spec fn without_line_ends(message: Seq<char>) -> Seq<char>
    decreases message.len(),
{
    if message.len() > 0 && text::is_line_end(message.last()) {
        without_line_ends(message.drop_last())
    } else {
        message
    }
}

/// A text without the white space at its end.
pub open spec fn without_trailing_space(line: Seq<char>) -> Seq<char>
    decreases line.len(),
{
    if line.len() > 0 && host::is_whitespace(line.last()) {
        without_trailing_space(line.drop_last())
    } else {
        line
    }
}

/// A line of the log: when, who, and what, without line ends at its end.
pub open spec fn log_line(timestamp_milliseconds: nat, source: Seq<char>, message: Seq<char>) -> Seq<
    char,
> {
    text::decimal(timestamp_milliseconds) + " ["@ + source + "] "@ + without_line_ends(message)
        + "\n"@
}

/// The last `count` items of a list, or all of them.
pub open spec fn last_items<T>(items: Seq<T>, count: int) -> Seq<T> {
    if items.len() <= count {
        items
    } else {
        items.skip(items.len() - count)
    }
}

/// The part of a line that is appended to a file of the given size: what the file still
/// has room for.
pub open spec fn appended_part(line: Seq<u8>, file_size_bytes: int) -> Seq<u8> {
    text::at_most(line, LOG_FILE_SIZE_BYTES_MAX - file_size_bytes)
}

/// The lines in memory after one more: without the white space at its end, and the
/// oldest goes where there are too many.
pub open spec fn with_recent_line(recent: Seq<Seq<char>>, line: Seq<char>) -> Seq<Seq<char>> {
    last_items(recent.push(without_trailing_space(line)), LOG_LINE_COUNT_MAX as int)
}

/// Texts with a separator between them.
pub open spec fn joined(parts: Seq<Seq<char>>, separator: Seq<char>) -> Seq<char>
    decreases parts.len(),
{
    if parts.len() == 0 {
        Seq::empty()
    } else if parts.len() == 1 {
        parts[0]
    } else {
        joined(parts.drop_last(), separator) + separator + parts.last()
    }
}

/// What a log comes to: its last lines, one below the other.
pub open spec fn summary_of(lines: Seq<Seq<char>>) -> Seq<char> {
    joined(last_items(lines, SUMMARY_LINE_COUNT_MAX as int), "\n"@)
}

/// The number of characters of a text without the line ends at its end.
fn length_without_line_ends(all: &Vec<char>) -> (length: usize)
    ensures
        length <= all@.len(),
        without_line_ends(all@) == all@.take(length as int),
{
    let mut length: usize = all.len();
    proof {
        assert(all@.take(length as int) =~= all@);
    }
    while length > 0 && (all[length - 1] == '\r' || all[length - 1] == '\n')
        invariant
            length <= all@.len(),
            without_line_ends(all@) == without_line_ends(all@.take(length as int)),
        ensures
            length <= all@.len(),
            without_line_ends(all@) == without_line_ends(all@.take(length as int)),
            length == 0 || !text::is_line_end(all@[length - 1]),
        decreases length,
    {
        proof {
            assert(all@.take(length as int).drop_last() =~= all@.take(length - 1));
        }
        length = length - 1;
    }
    length
}

/// The number of characters of a line without the white space at its end.
fn length_without_trailing_space(all: &Vec<char>) -> (length: usize)
    ensures
        length <= all@.len(),
        without_trailing_space(all@) == all@.take(length as int),
{
    let mut length: usize = all.len();
    proof {
        assert(all@.take(length as int) =~= all@);
    }
    while length > 0
        invariant
            length <= all@.len(),
            without_trailing_space(all@) == without_trailing_space(all@.take(length as int)),
        decreases length,
    {
        let last = all[length - 1];
        proof {
            assert(all@.take(length as int).last() == last);
            assert(all@.take(length as int).drop_last() =~= all@.take(length - 1));
        }
        if !last.is_whitespace() {
            return length;
        }
        length = length - 1;
    }
    length
}

/// The log of a job, apart from the file itself: its path, how much the file holds,
/// and the last lines.
pub struct JobLog {
    pub path: PathBuf,
    pub file_size_bytes: usize,
    pub recent_lines: VecDeque<String>,
}

impl JobLog {
    /// The file and the lines in memory are within their limits.
    pub open spec fn well_formed(self) -> bool {
        &&& self.file_size_bytes <= LOG_FILE_SIZE_BYTES_MAX
        &&& self.recent_lines@.len() <= LOG_LINE_COUNT_MAX
    }

    /// An empty log in a directory.
    pub fn create(directory: &Path) -> (log: JobLog)
        ensures
            log.well_formed(),
            host::path_buf_bytes(log.path) == host::path_joined(
                host::path_bytes(directory),
                "interpolate.log"@,
            ),
            log.file_size_bytes == 0,
            log.recent_lines@.len() == 0,
    {
        JobLog {
            path: join_path(directory, "interpolate.log"),
            file_size_bytes: 0,
            recent_lines: VecDeque::with_capacity(LOG_LINE_COUNT_MAX),
        }
    }

    /// Where the log is.
    pub fn path(&self) -> (path: &Path)
        ensures
            host::path_bytes(path) == host::path_buf_bytes(self.path),
    {
        self.path.as_path()
    }

    /// Adds a line to those in memory, and returns the bytes that are to be appended
    /// to the file: those of the line that the file still has room for.
    pub fn write(&mut self, timestamp_milliseconds: u128, source: &str, message: &str) -> (appended:
        Vec<u8>)
        requires
            old(self).well_formed(),
            0 < encode_utf8(source@).len() <= LOG_SOURCE_SIZE_MAX,
        ensures
            final(self).well_formed(),
            final(self).path == old(self).path,
            final(self).file_size_bytes == old(self).file_size_bytes,
            text::texts(final(self).recent_lines@) == with_recent_line(
                text::texts(old(self).recent_lines@),
                log_line(timestamp_milliseconds as nat, source@, message@),
            ),
            appended@ == appended_part(
                encode_utf8(log_line(timestamp_milliseconds as nat, source@, message@)),
                old(self).file_size_bytes as int,
            ),
    {
        let all = characters(message);
        let length: usize = length_without_line_ends(&all);
        let trimmed = string_between(&all, 0, length);
        let mut line = String::new();
        push_decimal(&mut line, timestamp_milliseconds);
        line.append(" [");
        line.append(source);
        line.append("] ");
        line.append(trimmed.as_str());
        line.append("\n");
        proof {
            assert(trimmed@ =~= without_line_ends(message@));
            assert(line@ =~= log_line(timestamp_milliseconds as nat, source@, message@));
        }
        let ghost before = self.recent_lines@;
        let line_characters = characters(line.as_str());
        let line_length: usize = length_without_trailing_space(&line_characters);
        let recent = string_between(&line_characters, 0, line_length);
        proof {
            assert(recent@ =~= without_trailing_space(line@));
        }
        if self.recent_lines.len() == LOG_LINE_COUNT_MAX {
            self.recent_lines.pop_front();
        }
        self.recent_lines.push_back(recent);
        proof {
            assert(text::texts(self.recent_lines@) =~= last_items(
                text::texts(before).push(recent@),
                LOG_LINE_COUNT_MAX as int,
            ));
        }
        let remaining_size: usize = LOG_FILE_SIZE_BYTES_MAX - self.file_size_bytes;
        let bytes = line.as_str().as_bytes();
        let byte_count: usize = bytes.len();
        let write_size: usize = if byte_count < remaining_size {
            byte_count
        } else {
            remaining_size
        };
        let mut appended: Vec<u8> = Vec::new();
        let mut index: usize = 0;
        while index < write_size
            invariant
                index <= write_size <= byte_count,
                byte_count == bytes@.len(),
                appended@ == bytes@.take(index as int),
            decreases write_size - index,
        {
            appended.push(bytes[index]);
            proof {
                assert(appended@ =~= bytes@.take(index + 1));
            }
            index = index + 1;
        }
        proof {
            assert(appended@ =~= text::at_most(bytes@, remaining_size as int));
        }
        appended
    }

    /// Takes in that bytes were appended to the file.
    pub fn appended(&mut self, count: usize)
        requires
            old(self).well_formed(),
            count <= LOG_FILE_SIZE_BYTES_MAX - old(self).file_size_bytes,
        ensures
            final(self).well_formed(),
            final(self).path == old(self).path,
            final(self).recent_lines == old(self).recent_lines,
            final(self).file_size_bytes == old(self).file_size_bytes + count,
    {
        self.file_size_bytes = self.file_size_bytes + count;
    }

    /// The last lines, one below the other.
    pub fn recent_summary(&self) -> (summary: String)
        ensures
            summary@ == summary_of(text::texts(self.recent_lines@)),
    {
        let count: usize = self.recent_lines.len();
        let start: usize = if count > SUMMARY_LINE_COUNT_MAX {
            count - SUMMARY_LINE_COUNT_MAX
        } else {
            0
        };
        let ghost parts = last_items(
            text::texts(self.recent_lines@),
            SUMMARY_LINE_COUNT_MAX as int,
        );
        let mut summary = String::new();
        let mut index: usize = start;
        while index < count
            invariant
                start <= index <= count,
                count == self.recent_lines@.len(),
                parts.len() == count - start,
                forall|i: int|
                    0 <= i < parts.len() ==> parts[i] == self.recent_lines@[start + i]@,
                summary@ == joined(parts.take(index - start), "\n"@),
            decreases count - index,
        {
            let ghost position = index - start;
            if index > start {
                summary.append("\n");
            }
            summary.append(self.recent_lines[index].as_str());
            proof {
                let longer = parts.take(position + 1);
                assert(longer.drop_last() =~= parts.take(position));
                assert(longer.last() == self.recent_lines@[index as int]@);
                if position == 0 {
                    assert(summary@ =~= longer[0]);
                }
            }
            index = index + 1;
        }
        proof {
            assert(parts.take(index - start) =~= parts);
        }
        summary
    }
}

/// The texts that are not empty.
pub open spec fn nonempty_texts(parts: Seq<Seq<char>>) -> Seq<Seq<char>>
    decreases parts.len(),
{
    if parts.len() == 0 {
        Seq::empty()
    } else if parts.last().len() == 0 {
        nonempty_texts(parts.drop_last())
    } else {
        nonempty_texts(parts.drop_last()).push(parts.last())
    }
}

/// The failure that is kept, after one more line was logged: the first of all.
pub open spec fn first_failure(kept: Option<String>, result: Result<(), String>) -> Option<
    String,
> {
    match (kept, result) {
        (Some(first), _) => Some(first),
        (None, Err(error)) => Some(error),
        (None, Ok(_)) => None,
    }
}

/// Reads the diagnostics of another process into a log, piece by piece.
pub struct LogReader {
    pub read_count: usize,
    pub logging_error: Option<String>,
}

impl LogReader {
    /// No more reads than allowed.
    pub open spec fn well_formed(self) -> bool {
        self.read_count <= LOG_READ_COUNT_MAX
    }

    /// Nothing has been read yet.
    pub fn new() -> (reader: LogReader)
        ensures
            reader.well_formed(),
            reader.read_count == 0,
            reader.logging_error is None,
    {
        LogReader { read_count: 0, logging_error: None }
    }

    /// Whether another read is allowed.
    pub fn may_read(&self) -> (allowed: bool)
        ensures
            allowed == (self.read_count < LOG_READ_COUNT_MAX),
            allowed <==> self.read_count < 1_048_576,
    {
        self.read_count < LOG_READ_COUNT_MAX
    }

    /// The lines to log of what one read returned: its pieces that are not empty.
    pub fn absorb(&mut self, chunk: &[u8]) -> (lines: Vec<String>)
        requires
            old(self).read_count < LOG_READ_COUNT_MAX,
        ensures
            final(self).well_formed(),
            final(self).read_count == old(self).read_count + 1,
            final(self).logging_error == old(self).logging_error,
            text::texts(lines@) == nonempty_texts(
                text::at_most(
                    text::terminated_pieces(host::lossy_text(chunk@)),
                    LOG_READ_SIZE_BYTES as int,
                ),
            ),
            text::terminated_pieces(host::lossy_text(chunk@)).len() <= 4096 ==> text::texts(lines@)
                == nonempty_texts(text::terminated_pieces(host::lossy_text(chunk@))),
    {
        self.read_count = self.read_count + 1;
        let diagnostics = text_from_bytes(chunk);
        let pieces = split_terminated(diagnostics.as_str(), LOG_READ_SIZE_BYTES);
        let ghost parts = text::texts(pieces@);
        let mut lines: Vec<String> = Vec::new();
        let mut index: usize = 0;
        proof {
            assert(parts.take(0) =~= Seq::<Seq<char>>::empty());
            assert(text::texts(lines@) =~= nonempty_texts(parts.take(0)));
        }
        while index < pieces.len()
            invariant
                index <= pieces@.len(),
                parts == text::texts(pieces@),
                text::texts(lines@) == nonempty_texts(parts.take(index as int)),
            decreases pieces@.len() - index,
        {
            let ghost before = lines@;
            proof {
                let longer = parts.take(index + 1);
                assert(longer.drop_last() =~= parts.take(index as int));
                assert(longer.last() == pieces@[index as int]@);
            }
            if !pieces[index].as_str().is_empty() {
                let line = pieces[index].clone();
                lines.push(line);
                proof {
                    assert(text::texts(lines@) =~= text::texts(before).push(line@));
                }
            }
            index = index + 1;
        }
        proof {
            assert(parts.take(index as int) =~= parts);
        }
        lines
    }

    /// Takes in how logging a line went: the first failure is kept.
    pub fn logged(&mut self, result: Result<(), String>)
        requires
            old(self).well_formed(),
        ensures
            final(self).well_formed(),
            final(self).read_count == old(self).read_count,
            final(self).logging_error == first_failure(old(self).logging_error, result),
    {
        if self.logging_error.is_none() {
            if let Err(error) = result {
                self.logging_error = Some(error);
            }
        }
    }

    /// What reading comes to, once the diagnostics have ended.
    pub fn finish(self) -> (result: Result<(), String>)
        ensures
            result == match self.logging_error {
                Some(error) => Err(error),
                None => Ok(()),
            },
    {
        match self.logging_error {
            Some(error) => Err(error),
            None => Ok(()),
        }
    }

    /// What reading comes to, where it took too many reads.
    pub fn exceeded(source: &str) -> (message: String)
        ensures
            message@ == source@ + " diagnostics exceeded the read safety limit"@,
    {
        let mut message = source.to_owned();
        message.append(" diagnostics exceeded the read safety limit");
        message
    }
}

/// Whether a path is absolute.
pub open spec fn is_absolute(path: Seq<u8>) -> bool {
    path.len() > 0 && path[0] == 47
}

/// An optional path as bytes, where it is absolute.
pub open spec fn absolute_path(path: Option<&Path>) -> Option<Seq<u8>> {
    match path {
        Some(path) => if is_absolute(host::path_bytes(path)) {
            Some(host::path_bytes(path))
        } else {
            None
        },
        None => None,
    }
}

/// Where the logs are: in the state directory where that is known, or else in the home
/// directory where that is, or else in the temporary directory.
pub open spec fn log_place(
    state_home: Option<Seq<u8>>,
    home: Option<Seq<u8>>,
    temporary: Seq<u8>,
    process_id: nat,
) -> Seq<u8> {
    match (state_home, home) {
        (Some(path), _) => host::path_joined(path, "interpolate"@),
        (None, Some(path)) => host::path_joined(path, ".local/state/interpolate"@),
        (None, None) => host::path_joined(
            temporary,
            "interpolate-"@ + text::decimal(process_id),
        ),
    }
}

/// The directory of the logs: in the state directory where that is set and absolute,
/// or else in the home directory where that is, or else in the temporary directory.
pub fn log_directory(
    state_home: Option<&Path>,
    home: Option<&Path>,
    temporary: &Path,
    process_id: u32,
) -> (directory: PathBuf)
    ensures
        host::path_buf_bytes(directory) == log_place(
            absolute_path(state_home),
            absolute_path(home),
            host::path_bytes(temporary),
            process_id as nat,
        ),
{
    if let Some(path) = state_home {
        if path.is_absolute() {
            return join_path(path, "interpolate");
        }
    }
    if let Some(path) = home {
        if path.is_absolute() {
            return join_path(path, ".local/state/interpolate");
        }
    }
    let mut name = "interpolate-".to_owned();
    push_decimal(&mut name, process_id as u128);
    join_path(temporary, name.as_str())
}

/// The name of a log file: the current one, or the one of so many jobs ago.
pub open spec fn log_file_name_text(age: nat) -> Seq<char> {
    if age == 0 {
        "interpolate.log"@
    } else {
        "interpolate.log"@ + "."@ + text::decimal(age)
    }
}

/// The name of a log file: the current one, or the one of so many jobs ago.
pub fn log_file_name(age: usize) -> (name: String)
    ensures
        name@ == log_file_name_text(age as nat),
{
    let mut name = "interpolate.log".to_owned();
    if age > 0 {
        name.append(".");
        push_decimal(&mut name, age as u128);
    }
    name
}

/// One step of a rotation: whatever is at the target goes, and the file at the source,
/// if there is one, takes its place.
#[derive(Clone, Copy, Debug, PartialEq, Eq, Structural)]
pub struct LogMove {
    pub source_age: usize,
    pub target_age: usize,
}

/// The steps of a rotation that makes `oldest` the highest age, from the oldest file to
/// the current one.
pub open spec fn rotation_steps(oldest: nat) -> Seq<LogMove>
    decreases oldest,
{
    if oldest == 0 {
        Seq::empty()
    } else {
        seq![LogMove { source_age: (oldest - 1) as usize, target_age: oldest as usize }]
            + rotation_steps((oldest - 1) as nat)
    }
}

/// The steps that make room for a new log: each file becomes one job older, and the
/// oldest goes.
pub fn rotate_logs() -> (moves: Vec<LogMove>)
    ensures
        moves@ == rotation_steps((LOG_FILE_COUNT_MAX - 1) as nat),
{
    let mut moves: Vec<LogMove> = Vec::new();
    let mut target_age: usize = LOG_FILE_COUNT_MAX - 1;
    proof {
        assert(moves@ + rotation_steps(target_age as nat) =~= rotation_steps(target_age as nat));
    }
    while target_age > 0
        invariant
            target_age < LOG_FILE_COUNT_MAX,
            moves@ + rotation_steps(target_age as nat) == rotation_steps(
                (LOG_FILE_COUNT_MAX - 1) as nat,
            ),
        decreases target_age,
    {
        let ghost before = moves@;
        moves.push(LogMove { source_age: target_age - 1, target_age });
        proof {
            assert(moves@ + rotation_steps((target_age - 1) as nat) =~= before + rotation_steps(
                target_age as nat,
            ));
        }
        target_age = target_age - 1;
    }
    proof {
        assert(moves@ + rotation_steps(0) =~= moves@);
    }
    moves
}

/// The files of some ages, after one step of a rotation.
pub open spec fn after_move<T>(files: Map<int, T>, step: LogMove) -> Map<int, T> {
    let emptied = files.remove(step.target_age as int);
    if emptied.contains_key(step.source_age as int) {
        emptied.remove(step.source_age as int).insert(
            step.target_age as int,
            emptied[step.source_age as int],
        )
    } else {
        emptied
    }
}

/// The files of some ages, after all steps of a rotation.
pub open spec fn after_moves<T>(files: Map<int, T>, steps: Seq<LogMove>) -> Map<int, T>
    decreases steps.len(),
{
    if steps.len() == 0 {
        files
    } else {
        after_moves(after_move(files, steps[0]), steps.drop_first())
    }
}

/// A rotation leaves no current log, makes every other file one job older, and touches
/// no file that is older than the oldest.
pub proof fn rotation_makes_room<T>(files: Map<int, T>, oldest: nat)
    requires
        oldest <= usize::MAX,
    ensures
        oldest > 0 ==> !after_moves(files, rotation_steps(oldest)).contains_key(0),
        forall|age: int|
            1 <= age <= oldest ==> (#[trigger] after_moves(
                files,
                rotation_steps(oldest),
            ).contains_key(age) <==> files.contains_key(age - 1)),
        forall|age: int|
            1 <= age <= oldest && files.contains_key(age - 1) ==> #[trigger] after_moves(
                files,
                rotation_steps(oldest),
            )[age] == files[age - 1],
        forall|age: int|
            age > oldest ==> (#[trigger] after_moves(
                files,
                rotation_steps(oldest),
            ).contains_key(age) <==> files.contains_key(age)),
        forall|age: int|
            age > oldest && files.contains_key(age) ==> #[trigger] after_moves(
                files,
                rotation_steps(oldest),
            )[age] == files[age],
    decreases oldest,
{
    if oldest > 0 {
        let steps = rotation_steps(oldest);
        let younger = (oldest - 1) as nat;
        let moved = after_move(files, steps[0]);
        assert(steps.drop_first() =~= rotation_steps(younger));
        rotation_makes_room(moved, younger);
        let result = after_moves(files, steps);
        assert(result == after_moves(moved, rotation_steps(younger)));
        if younger == 0 {
            assert(rotation_steps(0) =~= Seq::<LogMove>::empty());
            assert(result == moved);
        }
        assert forall|age: int| 1 <= age <= oldest implies (#[trigger] result.contains_key(age)
            <==> files.contains_key(age - 1)) by {
            if age < oldest {
                assert(result.contains_key(age) <==> moved.contains_key(age - 1));
            } else {
                assert(result.contains_key(age) <==> moved.contains_key(age));
            }
        }
        assert forall|age: int| 1 <= age <= oldest && files.contains_key(age - 1) implies
            #[trigger] result[age] == files[age - 1] by {
            if age < oldest {
                assert(moved.contains_key(age - 1));
                assert(result[age] == moved[age - 1]);
            } else {
                assert(moved.contains_key(age));
                assert(result[age] == moved[age]);
            }
        }
    }
}

/// The log in memory never grows past its limit, and always holds the newest lines.
pub proof fn recent_lines_are_the_newest(lines: Seq<Seq<char>>, line: Seq<char>, limit: int)
    requires
        limit > 0,
    ensures
        last_items(last_items(lines, limit).push(line), limit) == last_items(
            lines.push(line),
            limit,
        ),
        last_items(lines.push(line), limit).len() <= limit,
        last_items(lines.push(line), limit).last() == line,
{
    assert(last_items(last_items(lines, limit).push(line), limit) =~= last_items(
        lines.push(line),
        limit,
    ));
}

/// Something that is logged: when, by whom, and what.
pub struct LogEntry {
    pub timestamp_milliseconds: u128,
    pub source: Seq<char>,
    pub message: Seq<char>,
}

impl LogEntry {
    /// The line of the log.
    pub open spec fn line(self) -> Seq<char> {
        log_line(self.timestamp_milliseconds as nat, self.source, self.message)
    }
}

/// The bytes of the lines of all entries, one after the other.
pub open spec fn log_bytes(entries: Seq<LogEntry>) -> Seq<u8>
    decreases entries.len(),
{
    if entries.len() == 0 {
        Seq::empty()
    } else {
        log_bytes(entries.drop_last()) + encode_utf8(entries.last().line())
    }
}

/// The lines of all entries, without the white space at their ends.
pub open spec fn trimmed_lines(entries: Seq<LogEntry>) -> Seq<Seq<char>> {
    entries.map_values(|entry: LogEntry| without_trailing_space(entry.line()))
}

/// What a file holds after entries were logged one by one, each appended as far as the
/// file has room for it.
pub open spec fn file_after(file: Seq<u8>, entries: Seq<LogEntry>) -> Seq<u8>
    decreases entries.len(),
{
    if entries.len() == 0 {
        file
    } else {
        let earlier = file_after(file, entries.drop_last());
        earlier + appended_part(encode_utf8(entries.last().line()), earlier.len() as int)
    }
}

/// The lines in memory after entries were logged one by one.
pub open spec fn recent_after(recent: Seq<Seq<char>>, entries: Seq<LogEntry>) -> Seq<Seq<char>>
    decreases entries.len(),
{
    if entries.len() == 0 {
        recent
    } else {
        with_recent_line(recent_after(recent, entries.drop_last()), entries.last().line())
    }
}

/// Over any entries the file is the start of the whole log: its lines one after the
/// other, cut at the size limit and nowhere before.
pub proof fn file_is_the_start_of_the_log(file: Seq<u8>, entries: Seq<LogEntry>)
    requires
        file.len() <= LOG_FILE_SIZE_BYTES_MAX,
    ensures
        file_after(file, entries) == text::at_most(
            file + log_bytes(entries),
            LOG_FILE_SIZE_BYTES_MAX as int,
        ),
        file.len() == 0 ==> file_after(file, entries) == text::at_most(
            log_bytes(entries),
            LOG_FILE_SIZE_BYTES_MAX as int,
        ),
        file_after(file, entries).len() <= LOG_FILE_SIZE_BYTES_MAX,
    decreases entries.len(),
{
    if entries.len() > 0 {
        file_is_the_start_of_the_log(file, entries.drop_last());
    }
    assert(file_after(file, entries) =~= text::at_most(
        file + log_bytes(entries),
        LOG_FILE_SIZE_BYTES_MAX as int,
    ));
    if file.len() == 0 {
        assert(file + log_bytes(entries) =~= log_bytes(entries));
    }
}

/// Over any entries the lines in memory are the newest of all.
pub proof fn memory_is_the_end_of_the_log(recent: Seq<Seq<char>>, entries: Seq<LogEntry>)
    requires
        recent.len() <= LOG_LINE_COUNT_MAX,
    ensures
        recent_after(recent, entries) == last_items(
            recent + trimmed_lines(entries),
            LOG_LINE_COUNT_MAX as int,
        ),
        recent_after(recent, entries).len() <= LOG_LINE_COUNT_MAX,
    decreases entries.len(),
{
    if entries.len() == 0 {
        assert(recent + trimmed_lines(entries) =~= recent);
    } else {
        let shorter = entries.drop_last();
        let line = without_trailing_space(entries.last().line());
        memory_is_the_end_of_the_log(recent, shorter);
        recent_lines_are_the_newest(
            recent + trimmed_lines(shorter),
            line,
            LOG_LINE_COUNT_MAX as int,
        );
        assert(recent + trimmed_lines(entries) =~= (recent + trimmed_lines(shorter)).push(line));
    }
}

/// Cutting the line ends at its end leaves the start of a text, cuts nothing else, and
/// leaves none there.
pub proof fn only_line_ends_are_cut(message: Seq<char>)
    ensures
        without_line_ends(message).is_prefix_of(message),
        forall|i: int|
            without_line_ends(message).len() <= i < message.len() ==> #[trigger] message[i]
                == '\n' || message[i] == '\r',
        without_line_ends(message).len() > 0 ==> without_line_ends(message).last() != '\n'
            && without_line_ends(message).last() != '\r',
    decreases message.len(),
{
    let cut = without_line_ends(message);
    if message.len() > 0 && text::is_line_end(message.last()) {
        let shorter = message.drop_last();
        only_line_ends_are_cut(shorter);
        assert forall|i: int| cut.len() <= i < message.len() implies #[trigger] message[i] == '\n'
            || message[i] == '\r' by {
            if i < shorter.len() {
                assert(shorter[i] == message[i]);
            }
        }
        assert(cut =~= message.take(cut.len() as int)) by {
            assert(cut =~= shorter.take(cut.len() as int));
        }
    } else {
        assert(cut =~= message.take(cut.len() as int));
    }
}

/// Cutting the white space at its end leaves the start of a line, cuts nothing else, and
/// leaves none there.
pub proof fn only_white_space_is_cut(line: Seq<char>)
    ensures
        without_trailing_space(line).is_prefix_of(line),
        forall|i: int|
            without_trailing_space(line).len() <= i < line.len() ==> host::is_whitespace(
                #[trigger] line[i],
            ),
        without_trailing_space(line).len() > 0 ==> !host::is_whitespace(
            without_trailing_space(line).last(),
        ),
    decreases line.len(),
{
    let cut = without_trailing_space(line);
    if line.len() > 0 && host::is_whitespace(line.last()) {
        let shorter = line.drop_last();
        only_white_space_is_cut(shorter);
        assert forall|i: int| cut.len() <= i < line.len() implies host::is_whitespace(
            #[trigger] line[i],
        ) by {
            if i < shorter.len() {
                assert(shorter[i] == line[i]);
            }
        }
        assert(cut =~= line.take(cut.len() as int)) by {
            assert(cut =~= shorter.take(cut.len() as int));
        }
    } else {
        assert(cut =~= line.take(cut.len() as int));
    }
}

/// A line of the log begins with the time, names the source in brackets, holds the
/// message, and ends with a line feed; line ends at the end of the message make no
/// difference.
pub proof fn log_lines_say_when_who_and_what(
    timestamp_milliseconds: nat,
    source: Seq<char>,
    message: Seq<char>,
    line_end: char,
)
    requires
        line_end == '\n' || line_end == '\r',
    ensures
        ({
            let line = log_line(timestamp_milliseconds, source, message);
            &&& text::decimal(timestamp_milliseconds).is_prefix_of(line)
            &&& line.last() == '\n'
            &&& text::holds_text(line, seq!['['] + source + seq![']', ' '])
            &&& message.len() > 0 && message.last() != '\n' && message.last() != '\r'
                ==> text::holds_text(line, message)
            &&& log_line(timestamp_milliseconds, source, message.push(line_end)) == line
        }),
{
    reveal_strlit(" [");
    reveal_strlit("] ");
    reveal_strlit("\n");
    let line = log_line(timestamp_milliseconds, source, message);
    let time = text::decimal(timestamp_milliseconds);
    let cut = without_line_ends(message);
    assert(time =~= line.take(time.len() as int));
    assert(line =~= (time + seq![' ']) + (seq!['['] + source + seq![']', ' ']) + (cut + "\n"@));
    assert(line =~= (time + " ["@ + source + "] "@) + cut + "\n"@);
    assert(message.push(line_end).drop_last() =~= message);
}

/// The last items of a list are its end: all of it where it is short, and else as many as
/// asked for.
pub proof fn last_items_are_the_end<T>(items: Seq<T>, count: int)
    requires
        count >= 0,
    ensures
        last_items(items, count).is_suffix_of(items),
        last_items(items, count).len() == if items.len() < count {
            items.len() as int
        } else {
            count
        },
{
    let last = last_items(items, count);
    assert(last =~= items.skip(items.len() - last.len()));
}

/// The lines to log are exactly the pieces that are not empty, in their order.
pub proof fn empty_pieces_are_not_logged(parts: Seq<Seq<char>>)
    ensures
        nonempty_texts(parts) == parts.filter(|part: Seq<char>| part.len() > 0),
        forall|i: int|
            0 <= i < nonempty_texts(parts).len() ==> #[trigger] nonempty_texts(parts)[i].len() > 0,
        forall|i: int|
            0 <= i < parts.len() && parts[i].len() > 0 ==> nonempty_texts(parts).contains(
                #[trigger] parts[i],
            ),
    decreases parts.len(),
{
    reveal(Seq::filter);
    if parts.len() > 0 {
        let shorter = parts.drop_last();
        empty_pieces_are_not_logged(shorter);
        let kept = nonempty_texts(parts);
        let before = nonempty_texts(shorter);
        assert forall|i: int| 0 <= i < parts.len() && parts[i].len() > 0 implies kept.contains(
            #[trigger] parts[i],
        ) by {
            if i < shorter.len() {
                assert(shorter[i] == parts[i]);
                let place = before.index_of(parts[i]);
                assert(kept[place] == parts[i]);
            } else {
                assert(kept[kept.len() - 1] == parts[i]);
            }
        }
    }
}

/// Joining is joining the parts of a list and then these, with one separator between
/// them, wherever the list is parted.
pub proof fn joining_may_be_done_in_parts(
    front: Seq<Seq<char>>,
    back: Seq<Seq<char>>,
    separator: Seq<char>,
)
    requires
        front.len() > 0,
        back.len() > 0,
    ensures
        joined(front + back, separator) == joined(front, separator) + separator + joined(
            back,
            separator,
        ),
        joined(seq![front[0]], separator) == front[0],
    decreases back.len(),
{
    let whole = front + back;
    assert(whole.last() == back.last());
    if back.len() == 1 {
        assert(whole.drop_last() =~= front);
    } else {
        assert(whole.drop_last() =~= front + back.drop_last());
        joining_may_be_done_in_parts(front, back.drop_last(), separator);
        assert(joined(whole, separator) =~= joined(front, separator) + separator + joined(
            back,
            separator,
        ));
    }
}

/// A summary holds the last eight lines, whatever was logged before them, and every line
/// where there are no more.
pub proof fn summaries_hold_the_last_eight_lines(earlier: Seq<Seq<char>>, lines: Seq<Seq<char>>)
    requires
        lines.len() <= 8,
    ensures
        summary_of(lines) == joined(lines, seq!['\n']),
        lines.len() == 8 ==> summary_of(earlier + lines) == summary_of(lines),
{
    reveal_strlit("\n");
    assert("\n"@ =~= seq!['\n']);
    if lines.len() == 8 && earlier.len() > 0 {
        assert((earlier + lines).skip(earlier.len() as int) =~= lines);
    }
    if earlier.len() == 0 {
        assert(earlier + lines =~= lines);
    }
}

/// No log file is larger than 1 MiB and no more than two hundred lines are kept in memory,
/// whatever is logged; below that nothing is lost.
pub proof fn logs_are_bounded(file: Seq<u8>, recent: Seq<Seq<char>>, entries: Seq<LogEntry>)
    requires
        file.len() <= 1_048_576,
        recent.len() <= 200,
    ensures
        file_after(file, entries).len() <= 1_048_576,
        recent_after(recent, entries).len() <= 200,
        file.len() + log_bytes(entries).len() <= 1_048_576 ==> file_after(file, entries) == file
            + log_bytes(entries),
        recent.len() + entries.len() <= 200 ==> recent_after(recent, entries) == recent
            + trimmed_lines(entries),
{
    file_is_the_start_of_the_log(file, entries);
    memory_is_the_end_of_the_log(recent, entries);
}

/// Of a line, a file takes what it has room for, and takes the whole of it where it has.
pub proof fn files_take_what_they_have_room_for(line: Seq<u8>, file_size_bytes: int)
    requires
        0 <= file_size_bytes <= 1_048_576,
    ensures
        appended_part(line, file_size_bytes).is_prefix_of(line),
        appended_part(line, file_size_bytes) == line <==> file_size_bytes + line.len()
            <= 1_048_576,
        file_size_bytes + line.len() > 1_048_576 ==> file_size_bytes + appended_part(
            line,
            file_size_bytes,
        ).len() == 1_048_576,
{
    let part = appended_part(line, file_size_bytes);
    assert(part =~= line.take(part.len() as int));
}

/// Log files of different ages have different names, and the current one that of the log.
pub proof fn log_files_have_names_of_their_own(age: nat, other: nat)
    ensures
        log_file_name_text(age) == log_file_name_text(other) <==> age == other,
        log_file_name_text(0) == "interpolate.log"@,
        "interpolate.log"@.is_prefix_of(log_file_name_text(age)),
        age > 0 ==> text::decimal(age).is_suffix_of(log_file_name_text(age)),
{
    let name = log_file_name_text(age);
    let front = "interpolate.log"@;
    let dotted = front + "."@;
    reveal_strlit(".");
    assert("."@.len() == 1);
    text::different_numbers_are_written_differently(age as int, other as int);
    text::decimal_is_made_of_digits(age);
    text::decimal_is_made_of_digits(other);
    assert(front =~= name.take(front.len() as int));
    if age > 0 {
        assert(text::decimal(age) =~= name.skip(dotted.len() as int));
    }
    if other > 0 {
        assert(text::decimal(other) =~= log_file_name_text(other).skip(dotted.len() as int));
    }
}

/// Making room for a new log keeps the four last ones, each a job older, and no other.
pub proof fn the_four_last_logs_are_kept<T>(files: Map<int, T>)
    requires
        forall|age: int| #[trigger] files.contains_key(age) ==> 0 <= age < 5,
    ensures
        ({
            let rotated = after_moves(files, rotation_steps((LOG_FILE_COUNT_MAX - 1) as nat));
            &&& !rotated.contains_key(0)
            &&& forall|age: int|
                1 <= age <= 4 ==> (#[trigger] rotated.contains_key(age) <==> files.contains_key(
                    age - 1,
                ))
            &&& forall|age: int|
                1 <= age <= 4 && files.contains_key(age - 1) ==> #[trigger] rotated[age]
                    == files[age - 1]
            &&& forall|age: int| age > 4 ==> !#[trigger] rotated.contains_key(age)
        }),
{
    rotation_makes_room(files, 4);
}

/// The first failure of logging is kept, whatever comes after it; without a failure there
/// is none.
pub proof fn the_first_failure_is_kept(
    kept: Option<String>,
    result: Result<(), String>,
    later: Result<(), String>,
)
    ensures
        kept is Some ==> first_failure(kept, result) == kept,
        kept is None ==> (first_failure(kept, result) is Some <==> result is Err),
        kept is None && result is Err ==> first_failure(first_failure(kept, result), later)
            == Some(result->Err_0),
{
}

/// The logs go to the state directory where it is known, whatever else is, and to a place
/// that names the process only where neither directory is known.
pub proof fn logs_go_to_the_first_known_place(
    state_home: Option<Seq<u8>>,
    home: Option<Seq<u8>>,
    other_home: Option<Seq<u8>>,
    temporary: Seq<u8>,
    other_temporary: Seq<u8>,
    process_id: nat,
    other_process_id: nat,
)
    ensures
        state_home matches Some(path) ==> log_place(state_home, home, temporary, process_id)
            == log_place(Some(path), other_home, other_temporary, other_process_id)
            && log_place(state_home, home, temporary, process_id) == host::path_joined(
            path,
            "interpolate"@,
        ),
        state_home is None && home is Some ==> log_place(state_home, home, temporary, process_id)
            == host::path_joined(home->0, ".local/state/interpolate"@),
        state_home is None && home is None ==> exists|name: Seq<char>|
            log_place(state_home, home, temporary, process_id) == #[trigger] host::path_joined(
                temporary,
                name,
            ) && text::decimal(process_id).is_suffix_of(name),
{
    let name = "interpolate-"@ + text::decimal(process_id);
    assert(text::decimal(process_id) =~= name.skip("interpolate-"@.len() as int));
    assert(text::decimal(process_id).is_suffix_of(name));
    if state_home is None && home is None {
        assert(log_place(state_home, home, temporary, process_id) == host::path_joined(
            temporary,
            name,
        ));
    }
}

/// A path is absolute exactly where it begins with a slash, and only such directories are
/// taken.
pub proof fn only_absolute_directories_are_taken(path: &Path)
    ensures
        is_absolute(host::path_bytes(path)) <==> host::path_bytes(path).len() > 0
            && host::path_bytes(path)[0] == '/' as u8,
        absolute_path(Some(path)) is Some <==> is_absolute(host::path_bytes(path)),
        absolute_path(Some(path)) matches Some(bytes) ==> bytes == host::path_bytes(path),
        absolute_path(None) is None,
{
}

} // verus!
