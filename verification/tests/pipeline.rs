use interpolate::pipeline::paths::{
    checked_partial_output_path, default_output_name, partial_output_name,
};
use interpolate::pipeline::{
    checked_frame_size, default_output_path, greatest_common_divisor, parse_rational,
    partial_output_path, validate_configuration, validate_target_fps, ContentPreset,
    JobConfiguration, VideoMetadata, FRAME_DIMENSION_MAX, RGB_CHANNEL_COUNT,
};
use std::path::{Path, PathBuf};

fn metadata() -> VideoMetadata {
    VideoMetadata {
        width: 64,
        height: 64,
        source_fps_num: 24_000,
        source_fps_den: 1_001,
        duration_seconds_bits: 1.0_f64.to_bits(),
        pixel_format: "yuv420p".to_owned(),
    }
}

fn configuration() -> JobConfiguration {
    JobConfiguration {
        input_path: PathBuf::from("/tmp/input.mkv"),
        output_path: PathBuf::from("/tmp/output.mkv"),
        target_fps_num: 24,
        target_fps_den: 1,
        gpu_index: 0,
        content_preset: ContentPreset::Movie,
        scene_detection: true,
        use_uhd_mode: false,
    }
}

#[test]
fn output_name_includes_configuration() {
    let output = default_output_path(Path::new("/tmp/movie.mp4"), 120, true);
    assert_eq!(output, Path::new("/tmp/movie__rife-4.25__120fps__sc.mkv"));
    assert_eq!(
        output.extension().and_then(|value| value.to_str()),
        Some("mkv")
    );
}

#[test]
fn output_name_without_scene_protection_or_stem() {
    assert_eq!(
        default_output_path(Path::new("movie.mp4"), 48, false),
        Path::new("movie__rife-4.25__48fps.mkv")
    );
    assert_eq!(
        default_output_path(Path::new("/"), 60, true),
        Path::new("./video__rife-4.25__60fps__sc.mkv")
    );
    assert_eq!(
        default_output_name(Some(""), 1, false),
        "video__rife-4.25__1fps.mkv"
    );
    assert_eq!(
        default_output_name(None, 480, true),
        "video__rife-4.25__480fps__sc.mkv"
    );
}

#[test]
fn rational_parser_reduces_ntsc_rate() {
    let rational = parse_rational("60000/2002").expect("rational should parse");
    assert_eq!(rational, (30_000, 1_001));
    assert!(rational.0 > rational.1);
}

#[test]
fn rational_parser_rejects_malformed_rates() {
    assert!(parse_rational("24").is_err());
    assert!(parse_rational("24/0").is_err());
    assert!(parse_rational("nope/1").is_err());
    assert!(parse_rational("1/nope").is_err());
}

#[test]
fn rational_parser_names_what_is_wrong() {
    assert_eq!(
        parse_rational("24"),
        Err("frame rate is not rational".to_owned())
    );
    assert_eq!(
        parse_rational("/1"),
        Err("frame-rate numerator is invalid".to_owned())
    );
    assert_eq!(
        parse_rational("1/2/3"),
        Err("frame-rate denominator is invalid".to_owned())
    );
    assert_eq!(
        parse_rational("0/1"),
        Err("frame rate must be positive".to_owned())
    );
    assert_eq!(
        parse_rational("18446744073709551616/1"),
        Err("frame-rate numerator is invalid".to_owned())
    );
    assert_eq!(
        parse_rational("18446744073709551615/5"),
        Ok((3_689_348_814_741_910_323, 1))
    );
    assert_eq!(parse_rational("+25/+1"), Ok((25, 1)));
}

#[test]
fn greatest_common_divisors() {
    assert_eq!(greatest_common_divisor(60_000, 2_002), 2);
    assert_eq!(greatest_common_divisor(7, 13), 1);
    assert_eq!(greatest_common_divisor(48, 48), 48);
}

#[test]
fn frame_size_and_partial_path_limits_are_enforced() {
    assert_eq!(checked_frame_size(64, 64), Ok(64 * 64 * RGB_CHANNEL_COUNT));
    assert!(checked_frame_size(FRAME_DIMENSION_MAX, FRAME_DIMENSION_MAX).is_err());
    let output_path = Path::new("/tmp/example.output.mkv");
    let partial_path = partial_output_path(output_path).expect("partial path should be valid");
    assert_eq!(partial_path, Path::new("/tmp/example.output.partial.mkv"));
    assert_eq!(partial_path.extension(), output_path.extension());
}

#[test]
fn frame_size_names_its_limit() {
    assert_eq!(
        checked_frame_size(16_384, 16_384),
        Err("decoded frame exceeds the 128 MiB safety limit".to_owned())
    );
    assert_eq!(
        checked_frame_size(u32::MAX, u32::MAX),
        Err("frame size exceeds addressable memory".to_owned())
    );
}

#[test]
fn partial_paths_need_a_name_and_an_extension() {
    assert_eq!(
        partial_output_path(Path::new("/tmp/output")),
        Err("output filename must have an extension".to_owned())
    );
    assert_eq!(checked_partial_output_path(Path::new("")), None);
    assert_eq!(checked_partial_output_path(Path::new("/")), None);
    assert_eq!(
        checked_partial_output_path(Path::new("a.mkv")),
        Some(Ok(PathBuf::from("a.partial.mkv")))
    );
    assert_eq!(
        partial_output_name(None, Some("mkv")),
        Err("output filename must be valid UTF-8".to_owned())
    );
    assert_eq!(
        partial_output_name(Some("a.b"), Some("mkv")),
        Ok("a.b.partial.mkv".to_owned())
    );
}

#[test]
fn rates_read_back() {
    for (numerator, denominator) in [(24_000_u64, 1_001_u64), (25, 1), (u64::MAX, 2)] {
        assert_eq!(
            parse_rational(&format!("{numerator}/{denominator}")),
            Ok((numerator, denominator))
        );
    }
    assert_eq!(parse_rational("168000/7007"), Ok((24_000, 1_001)));
}

#[test]
fn partial_paths_tell_outputs_apart() {
    let outputs = [
        "/a/x.mkv",
        "/a/x.mp4",
        "/a/x.partial.mkv",
        "/a/x.partial.partial.mkv",
        "/b/x.mkv",
        "x.mkv",
    ];
    let partials: Vec<PathBuf> = outputs
        .iter()
        .map(|output| partial_output_path(Path::new(output)).expect("a partial path"))
        .collect();
    for (index, (partial, output)) in partials.iter().zip(outputs).enumerate() {
        let output = Path::new(output);
        assert_eq!(partial.parent(), output.parent());
        assert_eq!(partial.extension(), output.extension());
        let stem = output.file_stem().and_then(|stem| stem.to_str());
        assert_eq!(
            partial.file_stem().and_then(|stem| stem.to_str()),
            Some(format!("{}.partial", stem.expect("a stem")).as_str())
        );
        assert_ne!(partial, output);
        assert!(!partials[..index].contains(partial));
    }
}

#[test]
fn default_outputs_tell_settings_apart() {
    let input = Path::new("/tmp/movie__rife-4.25__60fps.mkv");
    let mut outputs: Vec<PathBuf> = Vec::new();
    for target_fps_num in [1, 6, 60, 480] {
        for scene_detection in [false, true] {
            let output = default_output_path(input, target_fps_num, scene_detection);
            assert_ne!(output, input);
            assert!(!outputs.contains(&output));
            assert!(partial_output_path(&output).is_ok());
            outputs.push(output);
        }
    }
}

#[test]
fn target_rate_lies_in_its_range() {
    let mut configuration = configuration();
    for (numerator, denominator, accepted) in [
        (1, 1, true),
        (480, 1, true),
        (60_000, 1_001, true),
        (480_480, 1_001, true),
        (480_481, 1_001, false),
        (481, 1, false),
        (1, 2, false),
        (999, 1_000, false),
        (0, 1, false),
        (0, 0, false),
        (u32::MAX, u32::MAX, true),
    ] {
        configuration.target_fps_num = numerator;
        configuration.target_fps_den = denominator;
        let expected = if accepted {
            Ok(())
        } else {
            Err("target FPS must be between 1 and 480".to_owned())
        };
        assert_eq!(validate_configuration(&configuration, true, false), expected);
    }
}

#[test]
fn target_rate_must_exceed_source_rate() {
    let metadata = metadata();
    let mut configuration = configuration();
    assert!(validate_target_fps(&configuration, &metadata).is_ok());
    configuration.target_fps_num = 23;
    assert!(validate_target_fps(&configuration, &metadata).is_err());
    configuration.target_fps_num = 48;
    assert!(validate_target_fps(&configuration, &metadata).is_ok());
}

#[test]
fn target_rate_equal_to_source_rate_is_refused() {
    let mut metadata = metadata();
    metadata.source_fps_num = 24;
    metadata.source_fps_den = 1;
    assert_eq!(
        validate_target_fps(&configuration(), &metadata),
        Err("target FPS must be higher than source FPS".to_owned())
    );
}

#[test]
fn configuration_rejects_colliding_and_existing_outputs() {
    let input_path = PathBuf::from("/tmp/interpolate-config-input.mkv");
    let output_path = PathBuf::from("/tmp/interpolate-config-output.mkv");
    let mut configuration = JobConfiguration {
        input_path: input_path.clone(),
        output_path: output_path.clone(),
        target_fps_num: 60,
        target_fps_den: 1,
        gpu_index: 0,
        content_preset: ContentPreset::Movie,
        scene_detection: true,
        use_uhd_mode: false,
    };
    assert!(validate_configuration(&configuration, true, false).is_ok());
    configuration.output_path = input_path;
    assert!(validate_configuration(&configuration, true, true).is_err());
    configuration.output_path = output_path;
    assert!(validate_configuration(&configuration, true, true).is_err());
}

#[test]
fn configuration_names_what_is_wrong() {
    let mut configuration = configuration();
    configuration.target_fps_num = 60;
    assert_eq!(
        validate_configuration(&configuration, false, false),
        Err("select an existing input video".to_owned())
    );
    assert_eq!(
        validate_configuration(&configuration, true, true),
        Err("output already exists; choose another filename".to_owned())
    );
    configuration.output_path = PathBuf::from("/tmp/./input.mkv");
    assert_eq!(
        validate_configuration(&configuration, true, false),
        Err("output path must differ from input path".to_owned())
    );
    configuration.output_path = PathBuf::new();
    assert_eq!(
        validate_configuration(&configuration, true, false),
        Err("select an output filename".to_owned())
    );
    configuration.output_path = PathBuf::from("/tmp/output.mkv");
    configuration.target_fps_num = 481;
    assert_eq!(
        validate_configuration(&configuration, true, false),
        Err("target FPS must be between 1 and 480".to_owned())
    );
    configuration.target_fps_num = 60;
    configuration.target_fps_den = 0;
    assert_eq!(
        validate_configuration(&configuration, true, false),
        Err("target FPS must be between 1 and 480".to_owned())
    );
}
