use interpolate::pipeline::probe::{
    check_probe_input, check_probe_process, drain_output_bounded, duration_text, finish_probe,
    probe_arguments, probe_diagnostic_lines, rate_is_unreadable, read_metadata, DiagnosticsReader,
    OutputCapture, ProbeFormat, ProbeOutput, ProbeStream,
};

fn stream() -> ProbeStream {
    ProbeStream {
        width: Some(1920),
        height: Some(1080),
        avg_frame_rate: Some("48000/2002".to_owned()),
        pix_fmt: Some("yuv420p".to_owned()),
        duration: Some("1.5".to_owned()),
    }
}

fn probe_of(stream: ProbeStream) -> ProbeOutput {
    ProbeOutput {
        streams: vec![stream],
        format: None,
    }
}

fn error_of(probe: &ProbeOutput, bits: Option<u64>) -> String {
    read_metadata(probe, bits).expect_err("the probe should be refused")
}

#[test]
fn bounded_process_output_is_drained_and_truncated() {
    let (captured, exceeded) = drain_output_bounded(&vec![b"0123456789".to_vec()], 4)
        .expect("bounded output should be readable");
    assert_eq!(captured, b"0123");
    assert!(exceeded, "oversized process output must be reported");

    let (captured, exceeded) =
        drain_output_bounded(&vec![b"ok".to_vec()], 4).expect("small output should be readable");
    assert_eq!(captured, b"ok");
    assert!(!exceeded, "small process output must not be truncated");
}

#[test]
fn capture_is_the_same_however_the_output_is_read() {
    let whole = drain_output_bounded(&vec![b"abcdef".to_vec()], 5);
    let split = drain_output_bounded(&vec![b"ab".to_vec(), b"c".to_vec(), b"def".to_vec()], 5);
    assert_eq!(whole, Ok((b"abcde".to_vec(), true)));
    assert_eq!(whole, split);
    let ended = drain_output_bounded(&vec![b"ab".to_vec(), Vec::new(), b"cd".to_vec()], 5);
    assert_eq!(ended, Ok((b"ab".to_vec(), false)));
}

#[test]
fn capture_gives_up_after_too_many_reads() {
    let mut capture = OutputCapture::new(1);
    for _ in 0..1_048_575 {
        assert_eq!(capture.absorb(b"x"), Ok(false));
    }
    assert_eq!(
        capture.absorb(b"x"),
        Err("process output exceeded the read-count safety limit".to_owned())
    );
}

#[test]
fn probe_is_asked_for_the_first_video_stream() {
    assert_eq!(
        probe_arguments(),
        [
            "-v",
            "error",
            "-select_streams",
            "v:0",
            "-show_entries",
            "stream=width,height,avg_frame_rate,pix_fmt,duration:format=duration",
            "-of",
            "json",
        ]
    );
}

#[test]
fn metadata_of_a_complete_probe() {
    let metadata = read_metadata(&probe_of(stream()), Some(1.5_f64.to_bits()))
        .expect("the probe should be read");
    assert_eq!((metadata.width, metadata.height), (1920, 1080));
    assert_eq!(
        (metadata.source_fps_num, metadata.source_fps_den),
        (24_000, 1_001)
    );
    assert_eq!(metadata.duration_seconds_bits, 1.5_f64.to_bits());
    assert_eq!(metadata.pixel_format, "yuv420p");
    let unknown = probe_of(ProbeStream {
        pix_fmt: None,
        ..stream()
    });
    let metadata = read_metadata(&unknown, Some(1)).expect("the probe should be read");
    assert_eq!(metadata.pixel_format, "unknown");
}

#[test]
fn metadata_names_what_is_missing() {
    let good = Some(1.0_f64.to_bits());
    let empty = ProbeOutput {
        streams: Vec::new(),
        format: None,
    };
    assert_eq!(
        error_of(&empty, good),
        "input does not contain a video stream"
    );
    let probe = probe_of(ProbeStream {
        width: None,
        ..stream()
    });
    assert_eq!(error_of(&probe, good), "video width is unavailable");
    let probe = probe_of(ProbeStream {
        height: None,
        ..stream()
    });
    assert_eq!(error_of(&probe, good), "video height is unavailable");
    let probe = probe_of(ProbeStream {
        width: Some(16_385),
        ..stream()
    });
    assert_eq!(
        error_of(&probe, good),
        "video dimensions must be between 1 and 16384"
    );
    let probe = probe_of(ProbeStream {
        width: Some(16_384),
        height: Some(16_384),
        ..stream()
    });
    assert_eq!(
        error_of(&probe, good),
        "decoded frame exceeds the 128 MiB safety limit"
    );
    let probe = probe_of(ProbeStream {
        avg_frame_rate: None,
        ..stream()
    });
    assert_eq!(error_of(&probe, good), "video frame rate is unavailable");
    let probe = probe_of(ProbeStream {
        avg_frame_rate: Some("0/0".to_owned()),
        ..stream()
    });
    assert_eq!(error_of(&probe, good), "frame rate must be positive");
}

#[test]
fn metadata_needs_a_positive_finite_duration() {
    let probe = probe_of(stream());
    assert_eq!(error_of(&probe, None), "video duration is invalid");
    for bad in [0.0_f64, -1.0, f64::INFINITY, f64::NAN, -0.0] {
        assert_eq!(
            error_of(&probe, Some(bad.to_bits())),
            "video duration must be finite and positive"
        );
    }
    let without = probe_of(ProbeStream {
        duration: None,
        ..stream()
    });
    assert_eq!(
        error_of(&without, Some(1)),
        "video duration is unavailable"
    );
}

#[test]
fn duration_comes_from_the_stream_or_else_the_container() {
    let mut probe = probe_of(stream());
    probe.format = Some(ProbeFormat {
        duration: Some("9".to_owned()),
    });
    assert_eq!(duration_text(&probe), Some("1.5".to_owned()));
    probe.streams[0].duration = None;
    assert_eq!(duration_text(&probe), Some("9".to_owned()));
    probe.format = None;
    assert_eq!(duration_text(&probe), None);
}

#[test]
fn rates_that_cannot_be_read_are_found() {
    assert!(!rate_is_unreadable(&probe_of(stream())));
    assert!(rate_is_unreadable(&probe_of(ProbeStream {
        avg_frame_rate: Some(String::new()),
        ..stream()
    })));
    assert!(rate_is_unreadable(&probe_of(ProbeStream {
        avg_frame_rate: Some("1".repeat(65)),
        ..stream()
    })));
    assert!(!rate_is_unreadable(&probe_of(ProbeStream {
        width: None,
        avg_frame_rate: Some(String::new()),
        ..stream()
    })));
}

#[test]
fn probe_process_failures() {
    assert_eq!(check_probe_process(true, false, true), Ok(()));
    assert_eq!(
        check_probe_process(true, true, false),
        Err("ffprobe returned unexpectedly large metadata".to_owned())
    );
    assert_eq!(
        check_probe_process(false, true, false),
        Err("ffprobe could not inspect the selected video".to_owned())
    );
    assert_eq!(
        check_probe_process(false, false, true),
        Err("ffprobe could not inspect the selected video; diagnostics exceeded the capture limit".to_owned())
    );
    assert!(check_probe_input(true).is_ok());
    assert_eq!(
        check_probe_input(false),
        Err("input video does not exist or is not a regular file".to_owned())
    );
}

#[test]
fn probe_failures_come_in_order() {
    let captured = || Ok((b"{}".to_vec(), false));
    let read = || DiagnosticsReader::Returned(Ok((b"e".to_vec(), true)));
    let output = finish_probe(captured(), read(), Ok(true)).expect("the probe should finish");
    assert!(output.success && !output.stdout_exceeded && output.stderr_exceeded);
    assert_eq!(output.stdout, b"{}");
    assert_eq!(output.stderr, b"e");
    let failed = finish_probe(
        Err("metadata".to_owned()),
        DiagnosticsReader::Panicked,
        Err("wait".to_owned()),
    );
    assert_eq!(
        failed.err(),
        Some("ffprobe diagnostics reader panicked".to_owned())
    );
    let failed = finish_probe(
        Err("metadata".to_owned()),
        DiagnosticsReader::Returned(Err("diagnostics".to_owned())),
        Err("wait".to_owned()),
    );
    assert_eq!(failed.err(), Some("metadata".to_owned()));
    let failed = finish_probe(
        captured(),
        DiagnosticsReader::Returned(Err("diagnostics".to_owned())),
        Err("wait".to_owned()),
    );
    assert_eq!(failed.err(), Some("diagnostics".to_owned()));
    let failed = finish_probe(captured(), read(), Err("wait".to_owned()));
    assert_eq!(
        failed.err(),
        Some("failed to wait for ffprobe: wait".to_owned())
    );
}

#[test]
fn probe_diagnostics_are_split_and_bounded() {
    assert_eq!(
        probe_diagnostic_lines(b"one\r\ntwo\n\nfour\xff"),
        ["one", "two", "", "four\u{fffd}"]
    );
    let many = "x\n".repeat(300);
    assert_eq!(probe_diagnostic_lines(many.as_bytes()).len(), 200);
    let long = vec![b'y'; 70_000];
    assert_eq!(probe_diagnostic_lines(&long)[0].len(), 65_536);
}
