use interpolate::cadence::{
    is_confident_duplicate, is_scene_change, is_smoothable_cadence_run,
    measure_frame_difference_rgb24, CadenceDiagnostics, FrameDifference, RGB_CHANNEL_COUNT,
};
use interpolate::ratio::Ratio;

const TWO_TO_52: u64 = 1 << 52;

fn value(ratio: Ratio) -> f64 {
    ratio.numerator as f64 / ratio.denominator as f64
}

fn ratio(numerator: u64, denominator: u64) -> Ratio {
    Ratio {
        numerator,
        denominator,
    }
}

/// `numerator / denominator` and the smallest step above one in double precision.
fn one_step_above(numerator: u64, denominator: u64) -> Ratio {
    ratio(numerator * TWO_TO_52 + denominator, denominator * TWO_TO_52)
}

#[test]
fn scene_difference_detects_a_hard_cut() {
    let black = vec![0_u8; 12 * 12 * RGB_CHANNEL_COUNT];
    let white = vec![255_u8; 12 * 12 * RGB_CHANNEL_COUNT];
    let difference = measure_frame_difference_rgb24(&black, &white, 12, 12);
    assert!(value(difference.mean) > 0.99);
    assert!(value(difference.mean) <= 1.0);
    assert!(is_scene_change(&difference));
}

#[test]
fn confident_duplicate_accepts_uniform_decode_noise() {
    let frame_before = vec![64_u8; 64 * 64 * RGB_CHANNEL_COUNT];
    let frame_after = vec![65_u8; 64 * 64 * RGB_CHANNEL_COUNT];
    let difference = measure_frame_difference_rgb24(&frame_before, &frame_after, 64, 64);
    assert!(is_confident_duplicate(difference));
    assert!(value(difference.mean) > 0.0);
}

#[test]
fn confident_duplicate_rejects_localized_motion() {
    let frame_before = vec![0_u8; 64 * 64 * RGB_CHANNEL_COUNT];
    let mut frame_after = frame_before.clone();
    let changed_pixel_index = RGB_CHANNEL_COUNT;
    frame_after[changed_pixel_index..changed_pixel_index + RGB_CHANNEL_COUNT].fill(255);
    let difference = measure_frame_difference_rgb24(&frame_before, &frame_after, 64, 64);
    assert!(!is_confident_duplicate(difference));
    assert!(value(difference.tile_mean_max) > 0.01);
}

#[test]
fn cadence_smoothing_accepts_only_two_or_three_frame_runs() {
    assert!(!is_smoothable_cadence_run(1));
    assert!(is_smoothable_cadence_run(2));
    assert!(is_smoothable_cadence_run(3));
    assert!(!is_smoothable_cadence_run(4));
}

#[test]
fn duplicate_confidence_requires_every_metric() {
    let accepted = FrameDifference {
        mean: ratio(6, 1000),
        changed_pixel_ratio: ratio(5, 1000),
        tile_mean_max: ratio(1, 100),
    };
    assert!(is_confident_duplicate(accepted));
    assert!(!is_confident_duplicate(FrameDifference {
        mean: one_step_above(6, 1000),
        ..accepted
    }));
    assert!(!is_confident_duplicate(FrameDifference {
        changed_pixel_ratio: one_step_above(5, 1000),
        ..accepted
    }));
    assert!(!is_confident_duplicate(FrameDifference {
        tile_mean_max: one_step_above(1, 100),
        ..accepted
    }));
}

#[test]
fn scene_changes_start_at_the_threshold() {
    let at = FrameDifference {
        mean: ratio(15, 100),
        ..FrameDifference::default()
    };
    assert!(is_scene_change(&at));
    let below = FrameDifference {
        mean: ratio(14_999, 100_000),
        ..FrameDifference::default()
    };
    assert!(!is_scene_change(&below));
}

#[test]
fn difference_of_one_green_pixel_is_exact() {
    let before = vec![0_u8; 2 * 2 * RGB_CHANNEL_COUNT];
    let mut after = before.clone();
    after[4] = 10;
    let difference = measure_frame_difference_rgb24(&before, &after, 2, 2);
    assert_eq!(value(difference.mean), 1830.0 / (4.0 * 65280.0));
    assert_eq!(value(difference.changed_pixel_ratio), 0.25);
    assert_eq!(value(difference.tile_mean_max), 1830.0 / 65280.0);
}

#[test]
fn difference_does_not_depend_on_the_order() {
    let before: Vec<u8> = (0..48).map(|index| (index * 5 % 251) as u8).collect();
    let after: Vec<u8> = (0..48).map(|index| (index * 11 % 251) as u8).collect();
    let forward = measure_frame_difference_rgb24(&before, &after, 4, 4);
    let backward = measure_frame_difference_rgb24(&after, &before, 4, 4);
    assert_eq!(value(forward.mean), value(backward.mean));
    assert_eq!(
        value(forward.changed_pixel_ratio),
        value(backward.changed_pixel_ratio)
    );
    assert_eq!(value(forward.tile_mean_max), value(backward.tile_mean_max));
}

#[test]
fn identical_frames_are_confident_duplicates() {
    let frame = vec![17_u8; 5 * 3 * RGB_CHANNEL_COUNT];
    let difference = measure_frame_difference_rgb24(&frame, &frame, 5, 3);
    assert!(is_confident_duplicate(difference));
    assert!(!is_scene_change(&difference));
}

#[test]
fn diagnostics_start_at_zero() {
    let counts = CadenceDiagnostics::default();
    assert_eq!(counts.duplicate_frame_count, 0);
    assert_eq!(counts.inference_bypass_count, 0);
}
