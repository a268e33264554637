use interpolate::cadence::{CadenceDiagnostics, ContentPreset, FrameDifference};
use interpolate::pipeline::frames::{FramePlanner, SourceSpan};
use interpolate::pipeline::process::{FrameFill, FrameProcess, FrameRead, ProcessStep};
use interpolate::pipeline::scheduler::{
    check_timestep, OutputFrame, OutputScheduler, OutputSpan,
};
use interpolate::pipeline::{JobConfiguration, JobUpdate, VideoMetadata};
use interpolate::ratio::Ratio;
use std::path::PathBuf;

fn held() -> FrameDifference {
    FrameDifference::default()
}

fn moved() -> FrameDifference {
    FrameDifference {
        mean: Ratio {
            numerator: 1,
            denominator: 10,
        },
        changed_pixel_ratio: Ratio {
            numerator: 1,
            denominator: 1,
        },
        tile_mean_max: Ratio {
            numerator: 1,
            denominator: 10,
        },
    }
}

fn cut() -> FrameDifference {
    FrameDifference {
        mean: Ratio {
            numerator: 1,
            denominator: 2,
        },
        ..moved()
    }
}

fn span(start: u64, end: u64, interpolate: bool) -> Option<SourceSpan> {
    Some(SourceSpan {
        source_index_start: start,
        source_index_end: end,
        interpolate,
    })
}

#[test]
fn anime_smooths_a_run_of_three() {
    let mut planner = FramePlanner::new(ContentPreset::Anime, false);
    let mut counts = CadenceDiagnostics::default();
    assert_eq!(planner.observe(&mut counts, &held()), None);
    assert_eq!(planner.observe(&mut counts, &held()), None);
    assert_eq!(planner.observe(&mut counts, &moved()), span(0, 3, true));
    assert_eq!(counts.duplicate_frame_count, 2);
    assert_eq!(counts.cadence_run_count, 1);
    assert_eq!(planner.last_span(), span(3, 4, false).unwrap());
    assert_eq!(
        planner.phase(),
        "Analyzing anime cadence, interpolating, and encoding"
    );
}

#[test]
fn anime_preserves_a_hold_of_six() {
    let mut planner = FramePlanner::new(ContentPreset::Anime, true);
    let mut counts = CadenceDiagnostics::default();
    assert_eq!(planner.observe(&mut counts, &held()), None);
    assert_eq!(planner.observe(&mut counts, &held()), None);
    assert_eq!(planner.observe(&mut counts, &held()), span(0, 3, false));
    assert_eq!(planner.observe(&mut counts, &held()), span(3, 4, false));
    assert_eq!(planner.observe(&mut counts, &held()), span(4, 5, false));
    assert_eq!(planner.observe(&mut counts, &moved()), span(5, 6, true));
    assert_eq!(counts.duplicate_frame_count, 5);
    assert_eq!(counts.long_hold_count, 1);
    assert_eq!(counts.cadence_run_count, 0);
}

#[test]
fn scene_protection_comes_before_cadence() {
    let mut planner = FramePlanner::new(ContentPreset::Anime, false);
    let mut counts = CadenceDiagnostics::default();
    assert_eq!(planner.observe(&mut counts, &held()), None);
    assert_eq!(planner.observe(&mut counts, &cut()), span(0, 2, false));
    assert_eq!(counts.scene_cut_count, 1);
    assert_eq!(counts.cadence_run_count, 0);
}

#[test]
fn movie_takes_every_adjacent_pair() {
    let mut planner = FramePlanner::new(ContentPreset::Movie, false);
    let mut counts = CadenceDiagnostics::default();
    assert_eq!(planner.observe(&mut counts, &held()), span(0, 1, true));
    assert_eq!(planner.observe(&mut counts, &cut()), span(1, 2, true));
    assert_eq!(counts, CadenceDiagnostics::default());
    assert_eq!(planner.phase(), "Interpolating and encoding");
    let mut protected = FramePlanner::new(ContentPreset::Movie, true);
    assert_eq!(protected.observe(&mut counts, &cut()), span(0, 1, false));
    assert_eq!(counts.scene_cut_count, 1);
}

#[test]
fn reading_ends_at_the_limit_or_when_cancelled() {
    let mut planner = FramePlanner::new(ContentPreset::Movie, false);
    assert_eq!(planner.before_read(false), Ok(()));
    assert_eq!(planner.before_read(true), Err("job cancelled".to_owned()));
    planner.candidate_index = 100_000_000;
    planner.anchor_index = 99_999_999;
    assert_eq!(
        planner.before_read(false),
        Err("source exceeds the 100000000-frame safety limit".to_owned())
    );
}

#[test]
fn frames_are_read_piece_by_piece() {
    let mut fill = FrameFill::new(10);
    assert_eq!(fill.received(4), Ok(FrameRead::More));
    assert_eq!(fill.received(6), Ok(FrameRead::Complete));
    let mut fill = FrameFill::new(10);
    assert_eq!(fill.received(0), Ok(FrameRead::Ended));
    let mut fill = FrameFill::new(10);
    assert_eq!(fill.received(9), Ok(FrameRead::More));
    assert_eq!(
        fill.received(0),
        Err("decoder ended in the middle of a video frame".to_owned())
    );
}

#[test]
fn frames_fill_however_reads_are_cut() {
    let cuts: [&[usize]; 5] = [&[12], &[1, 11], &[11, 1], &[3, 3, 3, 3], &[1; 12]];
    for counts in cuts {
        let mut fill = FrameFill::new(12);
        let (last, earlier) = counts.split_last().expect("there are reads");
        for count in earlier {
            assert_eq!(fill.received(*count), Ok(FrameRead::More));
            let mut ended = fill;
            assert_eq!(
                ended.received(0),
                Err("decoder ended in the middle of a video frame".to_owned())
            );
        }
        assert_eq!(fill.received(*last), Ok(FrameRead::Complete));
        assert_eq!(fill.offset, 12);
    }
}

#[test]
fn scheduler_places_frames_exactly() {
    let mut scheduler = OutputScheduler::new(60, 1, 24, 1, 0, 12);
    assert_eq!((scheduler.factor_num, scheduler.factor_den), (60, 24));
    assert_eq!(scheduler.frame_count_estimate, 1);
    let span = scheduler.begin_span(0, 1, true).expect("span should fit");
    let expected = [
        OutputFrame::Source { after_start: false },
        OutputFrame::Interpolated {
            relative_scaled: 24,
            duration_scaled: 60,
        },
        OutputFrame::Interpolated {
            relative_scaled: 48,
            duration_scaled: 60,
        },
    ];
    for frame in expected {
        assert_eq!(scheduler.next_frame(&span, false), Ok(Some(frame)));
        scheduler.frame_written(frame, 5, 7);
    }
    assert_eq!(scheduler.next_frame(&span, false), Ok(None));
    assert_eq!(
        scheduler.next_frame(&span, true),
        Err("job cancelled".to_owned())
    );
    let held = scheduler.begin_span(1, 2, false).expect("span should fit");
    assert_eq!(
        scheduler.next_frame(&held, false),
        Ok(Some(OutputFrame::Source { after_start: true }))
    );
    scheduler.frame_written(OutputFrame::Source { after_start: true }, 0, 1);
    assert_eq!(scheduler.cadence_diagnostics.inference_bypass_count, 1);
    assert_eq!(scheduler.inference_count, 2);
    assert_eq!(scheduler.encode_count, 4);
    assert_eq!(scheduler.inference_elapsed_nanos, 10);
    assert_eq!(scheduler.encode_elapsed_nanos, 22);
}

#[test]
fn scheduler_refuses_what_it_cannot_place() {
    let mut scheduler = OutputScheduler::new(60, 1, 24, 1, 10, 12);
    let later = OutputSpan {
        position_scaled_start: 60,
        position_scaled_end: 120,
        interpolate: true,
    };
    assert_eq!(
        scheduler.next_frame(&later, false),
        Err("output scheduler encountered an overlapping source span".to_owned())
    );
    scheduler.output_index = 100_000_000;
    scheduler.encode_count = 100_000_000;
    assert_eq!(
        scheduler.next_frame(&later, false),
        Err("output exceeds the 100000000-frame safety limit".to_owned())
    );
    let huge = OutputScheduler::new(u32::MAX, 1, 1, u64::MAX, 10, 12);
    assert_eq!(
        huge.begin_span(0, u64::MAX, true),
        Err("source span end overflowed".to_owned())
    );
    assert_eq!(
        huge.begin_span(u64::MAX - 1, u64::MAX, true),
        Err("source span start overflowed".to_owned())
    );
}

#[test]
fn timesteps_stay_inside_their_span() {
    assert_eq!(check_timestep(0.5_f32.to_bits()), Ok(()));
    assert_eq!(check_timestep(0.0_f32.to_bits()), Ok(()));
    assert_eq!(check_timestep((-0.0_f32).to_bits()), Ok(()));
    for outside in [1.0_f32, -0.5, f32::NAN, f32::INFINITY] {
        assert_eq!(
            check_timestep(outside.to_bits()),
            Err("interpolation timestep escaped its source span".to_owned())
        );
    }
}

#[test]
fn progress_is_reported_at_intervals() {
    let mut scheduler = OutputScheduler::new(60, 1, 30, 1, 4, 12);
    for _ in 0..3 {
        scheduler.frame_written(OutputFrame::Source { after_start: false }, 0, 1_000);
    }
    scheduler.record_decode(2_000);
    assert!(scheduler.report_progress(249_999_999).is_none());
    match scheduler.report_progress(250_000_000) {
        Some(JobUpdate::Progress {
            frame_count,
            frame_count_estimate,
            processing_fps,
            progress,
            performance,
            ..
        }) => {
            assert_eq!((frame_count, frame_count_estimate), (3, 4));
            assert_eq!(
                processing_fps,
                Ratio {
                    numerator: 3_000_000_000,
                    denominator: 250_000_000
                }
            );
            assert_eq!(
                progress,
                Ratio {
                    numerator: 3,
                    denominator: 4
                }
            );
            assert_eq!(performance.decode_fps.numerator, 1_000_000_000);
            assert_eq!(performance.decode_fps.denominator, 2_000);
            assert_eq!(performance.inference_fps.numerator, 0);
            assert_eq!(performance.encode_fps.denominator, 3_000);
        }
        other => panic!("unexpected report: {other:?}"),
    }
    assert!(scheduler.report_progress(499_999_999).is_none());
    match scheduler.finish(1) {
        JobUpdate::Progress {
            frame_count_estimate,
            processing_fps,
            progress,
            ..
        } => {
            assert_eq!(frame_count_estimate, 3);
            assert_eq!(processing_fps.denominator, 1_000_000);
            assert_eq!(progress.numerator, progress.denominator);
        }
        other => panic!("unexpected report: {other:?}"),
    }
}

fn run_loop(preset: ContentPreset, frames: &[u8], target: u32, source: u64) -> Vec<String> {
    run_loop_timed(preset, false, frames, target, source, 1).0
}

/// Runs the frame loop over frames of one pixel, each step in the same time. Returns
/// the brightness or the position of every output frame, and what was counted.
fn run_loop_timed(
    preset: ContentPreset,
    scene_detection: bool,
    frames: &[u8],
    target: u32,
    source: u64,
    step_nanos: u64,
) -> (Vec<String>, CadenceDiagnostics) {
    let configuration = JobConfiguration {
        input_path: PathBuf::from("in"),
        output_path: PathBuf::from("out"),
        target_fps_num: target,
        target_fps_den: 1,
        gpu_index: 0,
        content_preset: preset,
        scene_detection,
        use_uhd_mode: false,
    };
    let metadata = VideoMetadata {
        width: 1,
        height: 1,
        source_fps_num: source,
        source_fps_den: 1,
        duration_seconds_bits: 1.0_f64.to_bits(),
        pixel_format: "rgb24".to_owned(),
    };
    let mut process = FrameProcess::new(&configuration, &metadata, 1, 3);
    let mut anchor = vec![frames[0]; 3];
    let mut candidate = anchor.clone();
    let mut next_frame = 1;
    let mut written = Vec::new();
    for _ in 0..1000 {
        match process.next_step(false).expect("the loop should go on") {
            ProcessStep::Read => {
                if next_frame < frames.len() {
                    candidate = vec![frames[next_frame]; 3];
                    next_frame += 1;
                    let before = process.planner.anchor_index;
                    process
                        .source_frame(&anchor, &candidate, step_nanos)
                        .expect("the frame should be taken in");
                    assert!(process.planner.anchor_index >= before);
                } else {
                    candidate = anchor.clone();
                    process.source_ended().expect("the source should end");
                }
            }
            ProcessStep::Write(frame) => {
                written.push(match frame {
                    OutputFrame::Source { .. } => format!("{}", anchor[0]),
                    OutputFrame::Interpolated {
                        relative_scaled,
                        duration_scaled,
                    } => format!(
                        "{}~{}@{}/{}",
                        anchor[0], candidate[0], relative_scaled, duration_scaled
                    ),
                });
                process.frame_written(frame, step_nanos, step_nanos);
            }
            ProcessStep::Advance => std::mem::swap(&mut anchor, &mut candidate),
            ProcessStep::Finish => return (written, process.scheduler.cadence_diagnostics),
        }
    }
    panic!("the loop should end");
}

#[test]
fn loop_doubles_a_movie() {
    assert_eq!(
        run_loop(ContentPreset::Movie, &[10, 20, 30], 48, 24),
        ["10", "10~20@24/48", "20", "20~30@24/48", "30", "30"]
    );
}

#[test]
fn loop_smooths_an_anime_cadence() {
    assert_eq!(
        run_loop(ContentPreset::Anime, &[0, 0, 0, 32], 8, 4),
        [
            "0",
            "0~32@4/24",
            "0~32@8/24",
            "0~32@12/24",
            "0~32@16/24",
            "0~32@20/24",
            "32",
            "32"
        ]
    );
}

#[test]
fn loop_writes_the_whole_output_however_it_is_split() {
    let frames = [0, 0, 0, 0, 0, 9, 9, 200, 200, 200, 100];
    for preset in [ContentPreset::Movie, ContentPreset::Anime] {
        assert_eq!(run_loop(preset, &frames, 60, 24).len(), 28);
    }
}

#[test]
fn loop_ignores_the_scene_switch_for_anime() {
    let frames = [0, 0, 0, 0, 0, 9, 9, 200, 200, 200, 100];
    let with = run_loop_timed(ContentPreset::Anime, true, &frames, 60, 24, 1);
    let without = run_loop_timed(ContentPreset::Anime, false, &frames, 60, 24, 7);
    assert_eq!(with, without);
    assert!(with.1.scene_cut_count > 0);
}

#[test]
fn loop_starts_with_nothing_counted() {
    let configuration = JobConfiguration {
        input_path: PathBuf::from("in"),
        output_path: PathBuf::from("out"),
        target_fps_num: 60,
        target_fps_den: 1,
        gpu_index: 0,
        content_preset: ContentPreset::Movie,
        scene_detection: true,
        use_uhd_mode: false,
    };
    let metadata = VideoMetadata {
        width: 2,
        height: 1,
        source_fps_num: 24,
        source_fps_den: 1,
        duration_seconds_bits: 1.0_f64.to_bits(),
        pixel_format: "rgb24".to_owned(),
    };
    let process = FrameProcess::new(&configuration, &metadata, 7, 6);
    assert_eq!(process.scheduler.frame_size, 6);
    assert_eq!(
        process.scheduler,
        OutputScheduler::new(60, 1, 24, 1, 7, 6)
    );
    assert_eq!(process.scheduler.inference_count, 0);
    assert_eq!(process.scheduler.decode_count, 0);
    assert_eq!(process.scheduler.encode_count, 0);
    assert_eq!(process.scheduler.inference_elapsed_nanos, 0);
    assert_eq!(process.scheduler.decode_elapsed_nanos, 0);
    assert_eq!(process.scheduler.encode_elapsed_nanos, 0);
}

#[test]
fn loop_stops_when_cancelled() {
    let configuration = JobConfiguration {
        input_path: PathBuf::from("in"),
        output_path: PathBuf::from("out"),
        target_fps_num: 60,
        target_fps_den: 1,
        gpu_index: 0,
        content_preset: ContentPreset::Movie,
        scene_detection: true,
        use_uhd_mode: false,
    };
    let metadata = VideoMetadata {
        width: 1,
        height: 1,
        source_fps_num: 24,
        source_fps_den: 1,
        duration_seconds_bits: 1.0_f64.to_bits(),
        pixel_format: "rgb24".to_owned(),
    };
    let mut process = FrameProcess::new(&configuration, &metadata, 1, 3);
    assert_eq!(process.next_step(true), Err("job cancelled".to_owned()));
    process
        .source_frame(&[0; 3], &[9; 3], 1)
        .expect("the frame should be taken in");
    assert_eq!(process.next_step(true), Err("job cancelled".to_owned()));
    assert!(process.next_step(false).is_ok());
}
