use interpolate::logging::{
    log_directory, log_file_name, rotate_logs, JobLog, LogReader, LOG_FILE_SIZE_BYTES_MAX,
};
use std::path::{Path, PathBuf};

#[test]
fn lines_are_stamped_and_trimmed() {
    let mut log = JobLog::create(Path::new("/state"));
    assert_eq!(log.path(), Path::new("/state/interpolate.log"));
    let appended = log.write(1_700_000_000_123, "decoder", "bad frame\r\n\n");
    assert_eq!(appended, b"1700000000123 [decoder] bad frame\n");
    log.appended(appended.len());
    assert_eq!(log.file_size_bytes, appended.len());
    assert_eq!(log.recent_summary(), "1700000000123 [decoder] bad frame");
    let spaced = log.write(5, "decoder", "tail \u{3000}");
    assert_eq!(spaced, "5 [decoder] tail \u{3000}\n".as_bytes());
    assert_eq!(log.recent_lines[1], "5 [decoder] tail");
}

#[test]
fn white_space_at_the_end_is_dropped() {
    let spaces = "\u{9}\u{b}\u{c}\u{20}\u{85}\u{a0}\u{1680}\u{2000}\u{200a}\u{2028}\u{2029}\u{202f}\u{205f}\u{3000}";
    let mut log = JobLog::create(Path::new("/state"));
    log.write(1, "x", &format!("a{spaces}"));
    assert_eq!(log.recent_lines[0], "1 [x] a");
    for kept in ["\u{8}", "\u{e}", "\u{180e}", "\u{200b}", "\u{2060}", "\u{feff}"] {
        log.write(1, "x", kept);
        let line = log.recent_lines.back().expect("a line was written");
        assert_eq!(*line, format!("1 [x] {kept}"));
    }
}

#[test]
fn file_never_exceeds_its_size() {
    let mut log = JobLog::create(Path::new("/state"));
    log.appended(LOG_FILE_SIZE_BYTES_MAX - 3);
    let appended = log.write(1, "x", "message");
    assert_eq!(appended, b"1 [");
    log.appended(3);
    assert_eq!(log.write(2, "x", "message"), b"");
    assert_eq!(log.recent_lines.len(), 2);
}

#[test]
fn file_is_the_start_of_the_log() {
    let mut log = JobLog::create(Path::new("/state"));
    let message = "m".repeat(99_999);
    let mut file: Vec<u8> = Vec::new();
    let mut all: Vec<u8> = Vec::new();
    for number in 0..12_u128 {
        let appended = log.write(number, "x", &format!("{message}\n"));
        log.appended(appended.len());
        file.extend(appended);
        all.extend(format!("{number} [x] {message}\n").bytes());
        let kept = all.len().min(LOG_FILE_SIZE_BYTES_MAX);
        assert_eq!(file, all[..kept]);
        assert_eq!(log.file_size_bytes, file.len());
    }
    assert_eq!(file.len(), 1_048_576);
    assert!(all.len() > file.len());
    assert_eq!(log.recent_lines.len(), 12);
}

#[test]
fn memory_keeps_the_newest_lines() {
    let mut log = JobLog::create(Path::new("/state"));
    for number in 0..205_u128 {
        log.write(number, "x", "m");
    }
    assert_eq!(log.recent_lines.len(), 200);
    assert_eq!(log.recent_lines[0], "5 [x] m");
    assert_eq!(log.recent_lines[199], "204 [x] m");
    let summary = log.recent_summary();
    assert_eq!(summary.split('\n').count(), 8);
    assert!(summary.starts_with("197 [x] m\n198 [x] m\n"));
    assert!(summary.ends_with("\n204 [x] m"));
    assert_eq!(JobLog::create(Path::new("/s")).recent_summary(), "");
}

#[test]
fn reader_logs_pieces_and_keeps_the_first_failure() {
    let mut reader = LogReader::new();
    assert!(reader.may_read());
    assert_eq!(
        reader.absorb(b"one\rtwo\n\nthree\xfe"),
        ["one", "two", "three\u{fffd}"]
    );
    assert!(reader.absorb(b"\r\n").is_empty());
    assert_eq!(reader.read_count, 2);
    reader.logged(Ok(()));
    reader.logged(Err("first".to_owned()));
    reader.logged(Err("second".to_owned()));
    assert_eq!(reader.finish(), Err("first".to_owned()));
    assert_eq!(LogReader::new().finish(), Ok(()));
    assert_eq!(
        LogReader::exceeded("decoder"),
        "decoder diagnostics exceeded the read safety limit"
    );
    let full = LogReader {
        read_count: 1_048_576,
        logging_error: None,
    };
    assert!(!full.may_read());
}

#[test]
fn log_directory_follows_the_environment() {
    let temporary = Path::new("/tmp");
    assert_eq!(
        log_directory(Some(Path::new("/state")), Some(Path::new("/home")), temporary, 7),
        PathBuf::from("/state/interpolate")
    );
    assert_eq!(
        log_directory(Some(Path::new("state")), Some(Path::new("/home")), temporary, 7),
        PathBuf::from("/home/.local/state/interpolate")
    );
    assert_eq!(
        log_directory(None, Some(Path::new("")), temporary, 7),
        PathBuf::from("/tmp/interpolate-7")
    );
}

#[test]
fn rotation_moves_every_log_one_step() {
    let moves: Vec<(usize, usize)> = rotate_logs()
        .iter()
        .map(|step| (step.source_age, step.target_age))
        .collect();
    assert_eq!(moves, [(3, 4), (2, 3), (1, 2), (0, 1)]);
    assert_eq!(log_file_name(0), "interpolate.log");
    assert_eq!(log_file_name(4), "interpolate.log.4");
}
