use interpolate::app::settings::{
    available_video_encoders, bundled_icon, bundled_icons, encoder_preset_label,
    encoder_preset_options, format_remaining_time, h264_profile_label, h264_profiles,
    main_page_tab_label, use_uhd_mode_default, video_encoder_label, BundledIcon, EncoderPreset,
    H264Profile, MainPageTab, VideoEncoder,
};
use interpolate::app::state::KeyOutcome;
use interpolate::app::view::{main_page_tabs, StatusKind};
use interpolate::app::{is_terminal, InterpolateApp, TrayAction};
use interpolate::backend::{CudaInferenceStatus, InferenceBackend};
use interpolate::cadence::CadenceDiagnostics;
use interpolate::pipeline::{ContentPreset, JobUpdate, PerformanceDiagnostics, VideoMetadata};
use interpolate::ratio::Ratio;
use interpolate::tray::TrayCommand;
use std::path::{Path, PathBuf};

fn metadata(width: u32, height: u32) -> VideoMetadata {
    VideoMetadata {
        width,
        height,
        source_fps_num: 24,
        source_fps_den: 1,
        duration_seconds_bits: 1.0_f64.to_bits(),
        pixel_format: "yuv420p".to_owned(),
    }
}

fn app_with(tray: bool, nvidia: bool) -> InterpolateApp {
    InterpolateApp::new(
        Some(PathBuf::from("/v/in.mp4")),
        None,
        Some(metadata(1920, 1080)),
        Ok(vec!["GPU 0".to_owned(), "GPU 1".to_owned()]),
        available_video_encoders(true, nvidia),
        CudaInferenceStatus {
            available: false,
            reason: "no model".to_owned(),
        },
        tray,
        if tray { None } else { Some("no tray".to_owned()) },
    )
}

fn running() -> InterpolateApp {
    let mut app = app_with(true, false);
    assert!(app.start_job().is_some());
    app.job_started(None);
    app
}

fn type_text(app: &mut InterpolateApp, digits: &str) {
    for digit in digits.chars() {
        let key = digit.to_string();
        app.edit_target_fps(&key, Some(&key));
    }
}

#[test]
fn anime_enables_uhd_for_4k_sources() {
    let metadata = metadata(3_840, 2_160);
    assert!(use_uhd_mode_default(ContentPreset::Anime, Some(&metadata)));
    assert!(!use_uhd_mode_default(ContentPreset::Movie, Some(&metadata)));
    let portrait_metadata = VideoMetadata {
        width: metadata.height,
        height: metadata.width,
        ..metadata
    };
    assert!(use_uhd_mode_default(
        ContentPreset::Anime,
        Some(&portrait_metadata)
    ));
}

#[test]
fn anime_keeps_full_scale_flow_below_4k() {
    let mut metadata = metadata(1_920, 1_080);
    assert!(!use_uhd_mode_default(ContentPreset::Anime, Some(&metadata)));
    metadata.width = 3_840;
    assert!(!use_uhd_mode_default(ContentPreset::Anime, Some(&metadata)));
    assert!(!use_uhd_mode_default(ContentPreset::Anime, None));
}

#[test]
fn remaining_time_uses_hours_for_long_jobs() {
    assert_eq!(format_remaining_time(11_558), "3:12:38 remaining");
    assert_eq!(format_remaining_time(18_758), "5:12:38 remaining");
}

#[test]
fn remaining_time_keeps_minutes_for_short_jobs() {
    assert_eq!(format_remaining_time(758), "12:38 remaining");
    assert_eq!(format_remaining_time(59), "0:59 remaining");
}

#[test]
fn application_starts_with_its_defaults() {
    let app = app_with(true, false);
    assert_eq!(
        app.source.output_path,
        Some(PathBuf::from("/v/in__rife-4.25__120fps__sc.mkv"))
    );
    assert_eq!(app.target_fps.input, "120");
    assert_eq!(app.encoding.quality.value, 18);
    assert_eq!(app.encoding.thread_count.value, 2);
    assert_eq!(app.encoding.preset, EncoderPreset::X264Medium);
    assert_eq!(app.status, "Ready to interpolate");
    assert_eq!(app.error, None);
    assert!(app.background.keep_running);
    assert_eq!(app_with(false, true).encoding.preset, EncoderPreset::NvidiaP5);
    let without = InterpolateApp::new(
        None,
        Some(PathBuf::from("/out.mkv")),
        None,
        Ok(Vec::new()),
        Vec::new(),
        CudaInferenceStatus {
            available: true,
            reason: "ready".to_owned(),
        },
        false,
        None,
    );
    assert_eq!(without.error, Some("No Vulkan GPU was found".to_owned()));
    assert_eq!(without.source.output_path, Some(PathBuf::from("/out.mkv")));
    assert!(!without.background.keep_running);
}

#[test]
fn target_rate_is_edited_digit_by_digit() {
    let mut app = app_with(true, false);
    assert!(app.focus_target_fps());
    type_text(&mut app, "60");
    assert_eq!(app.target_fps.input, "60");
    assert_eq!(app.target_fps.value, 60);
    assert_eq!(
        app.source.output_path,
        Some(PathBuf::from("/v/in__rife-4.25__60fps__sc.mkv"))
    );
    type_text(&mut app, "12");
    assert_eq!(app.target_fps.input, "601");
    assert_eq!(app.target_fps.value, 60);
    assert_eq!(
        app.error,
        Some("Target frame rate must be between 1 and 480 FPS".to_owned())
    );
    assert!(app.sets_target_fps("backspace", None));
    assert!(!app.sets_target_fps("1", Some("1")));
    assert_eq!(app.target_fps.input, "601");
    assert_eq!(app.edit_target_fps("backspace", None), KeyOutcome::Edited);
    assert_eq!(app.target_fps.input, "60");
    assert_eq!(app.error, None);
    assert!(app.sets_target_fps("enter", None));
    assert!(!app.sets_target_fps("a", Some("a")));
    assert_eq!(app.edit_target_fps("a", Some("a")), KeyOutcome::Ignored);
    assert_eq!(app.edit_target_fps("f1", None), KeyOutcome::Ignored);
    assert_eq!(app.edit_target_fps("enter", None), KeyOutcome::Left);
    app.focus_target_fps();
    assert_eq!(app.edit_target_fps("backspace", None), KeyOutcome::Edited);
    assert_eq!(app.target_fps.input, "");
    assert_eq!(app.target_fps.value, 60);
    assert!(app.start_job().is_none());
    assert_eq!(
        app.error,
        Some("Enter a target frame rate between 1 and 480 FPS".to_owned())
    );
    assert_eq!(app.fps_headline(), "Invalid fps");
}

#[test]
fn quality_and_threads_are_bounded() {
    let mut app = app_with(true, false);
    assert!(app.focus_encoding_quality());
    assert_eq!(app.edit_encoding_quality("5", Some("5")), KeyOutcome::Edited);
    assert_eq!(app.encoding.quality.value, 5);
    assert_eq!(app.edit_encoding_quality("2", Some("2")), KeyOutcome::Edited);
    assert_eq!(app.encoding.quality.value, 5);
    assert_eq!(
        app.error,
        Some("Encoding quality must be between 0 and 51".to_owned())
    );
    assert!(!app.quality_valid());
    assert!(app.start_job().is_none());
    app.edit_encoding_quality("backspace", None);
    assert!(app.quality_valid());
    assert!(app.focus_encoder_thread_count());
    app.edit_encoder_thread_count("1", Some("1"));
    app.edit_encoder_thread_count("7", Some("7"));
    assert_eq!(
        app.error,
        Some("Encoder threads must be between 0 and 16".to_owned())
    );
    assert!(!app.thread_count_valid());
    assert_eq!(app.encoding.thread_count.value, 1);
    assert_eq!(
        app.edit_encoder_thread_count("escape", None),
        KeyOutcome::Left
    );
}

#[test]
fn selecting_a_preset_resets_its_settings() {
    let mut app = app_with(true, false);
    app.toggle_scene_detection();
    app.toggle_uhd_mode();
    assert_eq!(app.preset_label(), "Movie · Modified");
    assert_eq!(
        app.source.output_path,
        Some(PathBuf::from("/v/in__rife-4.25__120fps.mkv"))
    );
    app.select_content_preset(ContentPreset::Anime);
    assert!(app.content.scene_detection && !app.content.use_uhd_mode);
    assert_eq!(app.preset_label(), "Anime");
    assert_eq!(app.preset_summary(), "Anime content preset");
    app.toggle_scene_detection();
    assert!(app.content.scene_detection);
    app.input_selected(PathBuf::from("/v/big.mkv"), Ok(metadata(3840, 2160)));
    assert!(app.content.use_uhd_mode);
    assert_eq!(app.status, "Video ready");
    app.toggle_uhd_mode();
    assert_eq!(app.preset_label(), "Anime · Modified");
    app.toggle_uhd_mode();
    assert_eq!(app.preset_label(), "Anime");
}

#[test]
fn inputs_that_cannot_be_probed() {
    let mut app = app_with(true, false);
    app.input_selected(PathBuf::from("/v/bad.mkv"), Err("broken".to_owned()));
    assert_eq!(app.error, Some("broken".to_owned()));
    assert_eq!(app.status, "Input needs attention");
    assert!(app.source.metadata.is_none());
    assert_eq!(app.input_name(), "bad.mkv");
    assert_eq!(app.output_name(), "in__rife-4.25__120fps__sc.mkv");
    assert_eq!(app.output_resolution(), "Same as source");
    assert_eq!(app.source_details("1", "2"), "—");
}

#[test]
fn outputs_are_asked_for_beside_the_input() {
    let mut app = app_with(true, false);
    let prompt = app.select_output().expect("an output can be chosen");
    assert_eq!(prompt.directory, Path::new("/v"));
    assert_eq!(
        prompt.suggested,
        Some("in__rife-4.25__120fps__sc.mkv".to_owned())
    );
    app.output_selected(PathBuf::from("/w/other.mkv"));
    assert_eq!(app.output_directory(), "/w");
    app.source.input_path = None;
    assert!(app.select_output().is_none());
    assert_eq!(app.error, Some("Choose an input video first".to_owned()));
    assert!(running().select_output().is_none());
}

#[test]
fn menus_exclude_each_other() {
    let mut app = app_with(true, false);
    app.toggle_gpu_menu();
    app.toggle_preset_menu();
    assert!(app.menus.preset && !app.menus.gpu);
    app.toggle_video_encoder_menu();
    assert!(app.menus.video_encoder && !app.menus.preset);
    app.toggle_inference_backend_menu();
    assert!(app.menus.inference_backend && !app.menus.video_encoder);
    app.toggle_encoder_preset_menu();
    app.toggle_h264_profile_menu();
    assert!(app.menus.h264_profile && !app.menus.encoder_preset);
    app.select_h264_profile(H264Profile::High);
    assert_eq!(app.encoding.h264_profile, H264Profile::High);
    app.show_settings_page();
    assert!(app.pages.settings_page && !app.menus.inference_backend);
    app.select_main_page_tab(MainPageTab::Media);
    assert_eq!(app.pages.main_page_tab, MainPageTab::Media);
    app.show_encode_page();
    assert!(!app.pages.settings_page);
}

#[test]
fn hardware_is_selected_where_there_is_some() {
    let mut app = app_with(true, true);
    app.select_gpu(1);
    assert_eq!(app.gpu_label(), "GPU 1");
    app.toggle_nvdec();
    assert!(app.hardware.use_nvdec);
    app.select_video_encoder(1);
    assert_eq!(app.encoding.preset, EncoderPreset::X264Medium);
    assert_eq!(app.quality_mode_label(), "CRF");
    app.select_video_encoder(2);
    assert_eq!(app.encoding.preset, EncoderPreset::NvidiaP5);
    assert_eq!(app.quality_mode_label(), "CQ");
    assert_eq!(app.preset_options().len(), 7);
    app.select_encoder_preset(EncoderPreset::NvidiaP7);
    assert_eq!(app.selected_preset_label(), "NVENC · P7");
    assert_eq!(app.selected_encoder_label(), "H.264 · NVIDIA NVENC");
    app.select_inference_backend(false);
    assert_eq!(app.backend_label(), "Vulkan / ncnn");
    assert_eq!(app.cuda_description(), "no model");
    assert_eq!(app.cuda_option_label(), "CUDA / PyTorch (unavailable)");
    let mut plain = app_with(true, false);
    plain.toggle_nvdec();
    assert!(!plain.hardware.use_nvdec);
    assert_eq!(
        plain.nvdec_description(),
        "Unavailable: NVIDIA FFmpeg decode support not detected"
    );
}

#[test]
fn streams_are_kept_or_not() {
    let mut app = app_with(true, false);
    app.toggle_preserve_audio();
    app.toggle_preserve_subtitles();
    app.toggle_preserve_metadata();
    assert!(app.media_rows().iter().all(|row| !row.enabled));
    app.toggle_preserve_metadata();
    assert!(app.media_rows()[2].enabled);
    let mut busy = running();
    busy.toggle_preserve_audio();
    assert!(busy.streams.audio);
}

#[test]
fn background_mode_needs_a_tray() {
    let mut app = app_with(true, false);
    app.toggle_background_mode();
    assert!(!app.background.keep_running);
    let mut without = app_with(false, false);
    without.toggle_background_mode();
    assert_eq!(without.error, Some("no tray".to_owned()));
    without.background.tray_unavailable_reason = None;
    without.toggle_background_mode();
    assert_eq!(
        without.error,
        Some("System tray integration is unavailable on this desktop".to_owned())
    );
    assert_eq!(
        without.background_description(),
        "System tray unavailable on this desktop"
    );
}

#[test]
fn jobs_are_started_with_the_settings() {
    let mut app = app_with(true, true);
    app.select_gpu(1);
    app.select_video_encoder(2);
    app.toggle_preserve_subtitles();
    assert!(app.can_start());
    let request = app.start_job().expect("a job can be started");
    assert_eq!(request.configuration.target_fps_num, 120);
    assert_eq!(request.configuration.target_fps_den, 1);
    assert_eq!(request.configuration.gpu_index, 1);
    assert_eq!(request.configuration.input_path, Path::new("/v/in.mp4"));
    assert_eq!(request.inference_backend, InferenceBackend::VulkanNcnn);
    assert_eq!(request.video_encoder, VideoEncoder::NvidiaH264);
    assert_eq!(request.quality_level, 18);
    assert_eq!(request.encoder_thread_count, 2);
    assert!(request.preserve_audio && !request.preserve_subtitles);
    app.job_not_started("out of memory");
    assert_eq!(
        app.error,
        Some("failed to start interpolation worker: out of memory".to_owned())
    );
    assert!(!app.job.running);
}

#[test]
fn jobs_are_refused_in_order() {
    let mut app = app_with(true, false);
    app.hardware.selected_video_encoder = 2;
    assert!(app.start_job().is_none());
    assert_eq!(
        app.error,
        Some("Choose a supported video encoder".to_owned())
    );
    app.hardware.video_encoders = Vec::new();
    app.hardware.selected_video_encoder = 0;
    app.start_job();
    assert_eq!(
        app.error,
        Some("FFmpeg has no supported H.264 encoder".to_owned())
    );
    app.hardware.gpu_names = Vec::new();
    app.start_job();
    assert_eq!(app.error, Some("A Vulkan GPU is required".to_owned()));
    app.source.output_path = None;
    app.start_job();
    assert_eq!(app.error, Some("Choose an output filename".to_owned()));
    app.source.input_path = None;
    app.start_job();
    assert_eq!(app.error, Some("Choose an input video".to_owned()));
    app.encoding.thread_count.input = "99".to_owned();
    app.start_job();
    assert_eq!(
        app.error,
        Some("Encoder threads must be between 0 and 16".to_owned())
    );
    assert!(!app.can_start());
}

#[test]
fn running_jobs_keep_the_settings() {
    let mut app = running();
    assert_eq!(app.status, "Starting job");
    assert_eq!(app.job.cancellation, Some(false));
    assert!(app.start_job().is_none());
    assert!(!app.focus_target_fps());
    assert!(!app.sets_target_fps("enter", None));
    assert_eq!(app.edit_target_fps("1", Some("1")), KeyOutcome::Ignored);
    app.toggle_uhd_mode();
    app.select_content_preset(ContentPreset::Anime);
    app.toggle_gpu_menu();
    assert_eq!(app.content.preset, ContentPreset::Movie);
    assert!(!app.menus.gpu && !app.content.use_uhd_mode);
    assert!(!app.may_select_input());
}

#[test]
fn updates_of_a_job() {
    let mut app = running();
    assert!(!app.apply_update(JobUpdate::Phase("Probing video")));
    assert_eq!(app.status, "Probing video");
    let update = JobUpdate::Progress {
        frame_count: 30,
        frame_count_estimate: 20,
        processing_fps: Ratio {
            numerator: 30,
            denominator: 2,
        },
        progress: Ratio {
            numerator: 30,
            denominator: 20,
        },
        cadence_diagnostics: CadenceDiagnostics::default(),
        performance: PerformanceDiagnostics::default(),
    };
    assert!(!is_terminal(&update));
    assert!(!app.apply_update(update));
    assert_eq!(app.job.progress.numerator, app.job.progress.denominator);
    assert_eq!(app.frame_label(), "30 / 20 frames");
    assert_eq!(app.speed_label("15.00"), "15.00 fps");
    assert_eq!(app.eta_label(7), "—");
    app.job.frame_count = 10;
    assert_eq!(app.eta_label(7), "0:07 remaining");
    assert!(app.apply_update(JobUpdate::Completed {
        path: PathBuf::from("/v/out.mkv"),
        cadence_diagnostics: CadenceDiagnostics::default(),
    }));
    assert_eq!(app.status, "Completed · /v/out.mkv");
    assert!(!app.job_ended(false, None));
    assert_eq!(app.job.cancellation, None);
    assert_eq!(app.status_kind(), StatusKind::Idle);
}

#[test]
fn jobs_that_fail_or_are_cancelled() {
    let mut app = running();
    assert!(app.cancel_job());
    assert_eq!(app.status, "Cancelling after current frame");
    assert_eq!(app.job.cancellation, Some(true));
    assert!(is_terminal(&JobUpdate::Cancelled));
    assert!(app.apply_update(JobUpdate::Cancelled));
    assert_eq!(app.status, "Cancelled safely");
    assert!(!app.job_ended(false, None));
    assert!(!app.cancel_job());
    let mut app = running();
    let lost = app.worker_lost().expect("a job was running");
    assert!(app.apply_update(lost));
    assert_eq!(
        app.error,
        Some("processing worker stopped unexpectedly".to_owned())
    );
    assert!(app.worker_lost().is_none());
    assert!(!app.job_ended(true, None));
    assert_eq!(app.error, Some("processing worker panicked".to_owned()));
    assert_eq!(app.status, "Job failed");
    assert_eq!(app.status_kind(), StatusKind::Error);
}

#[test]
fn tray_commands_reach_the_job() {
    let mut app = app_with(true, false);
    assert_eq!(app.tray_command(TrayCommand::Show), TrayAction::ShowWindow);
    assert_eq!(app.tray_command(TrayCommand::Cancel), TrayAction::Nothing);
    assert_eq!(app.tray_command(TrayCommand::Quit), TrayAction::Quit);
    let mut app = running();
    assert_eq!(app.tray_command(TrayCommand::Cancel), TrayAction::Refresh);
    assert_eq!(app.status, "Cancelling after current frame");
    assert_eq!(app.tray_command(TrayCommand::Quit), TrayAction::Refresh);
    assert_eq!(app.status, "Cancelling before exit");
    assert!(app.apply_update(JobUpdate::Cancelled));
    assert!(app.job_ended(false, Some("tray gone".to_owned())));
    assert_eq!(app.error, Some("tray gone".to_owned()));
    assert!(!app.background.keep_running && !app.job.quit_after_job);
}

#[test]
fn closing_the_window_keeps_a_background_job() {
    assert!(app_with(true, false).close_requested());
    let mut app = running();
    assert!(!app.close_requested());
    assert_eq!(
        app.status,
        "Running in background · use the tray to restore"
    );
    app.toggle_background_mode();
    assert!(app.close_requested());
    let mut trayless = app_with(true, false);
    trayless.job_started(Some("no tray".to_owned()));
    assert!(trayless.close_requested());
    assert_eq!(trayless.error, Some("no tray".to_owned()));
}

#[test]
fn labels_of_the_window() {
    let mut app = app_with(true, false);
    assert_eq!(
        app.source_details("24.000", "1"),
        "1920×1080  ·  24.000 fps  ·  1s  ·  yuv420p"
    );
    assert_eq!(app.output_resolution(), "1920×1080");
    assert_eq!(app.frame_label(), "Waiting");
    assert_eq!(app.speed_label("0.00"), "GPU idle");
    assert_eq!(app.fps_headline(), "120 fps");
    assert_eq!(app.model_description(), "RIFE 4.25 standard");
    assert_eq!(app.cadence_summary(), None);
    assert_eq!(app.scene_summary(), "Scene cuts protected");
    assert_eq!(app.flow_summary(), "Full-scale optical flow");
    assert_eq!(app.scene_description(), "Duplicate at hard cuts");
    assert_eq!(app.uhd_description(), "Reduce memory for 4K sources");
    assert_eq!(app.frame_estimate_label(0), "—");
    assert_eq!(app.frame_estimate_label(120), "120");
    app.select_content_preset(ContentPreset::Anime);
    app.job.cadence_diagnostics.duplicate_frame_count = 2;
    app.job.cadence_diagnostics.cadence_run_count = 1;
    assert_eq!(
        app.cadence_summary(),
        Some("2 held frames · 1 smoothed runs".to_owned())
    );
    assert_eq!(app.scene_description(), "Required for cadence safety");
    assert_eq!(app.model_description(), "RIFE 4.25 · cadence protected");
    assert_eq!(
        app.background_hint(),
        "Background mode is enabled by default when a compatible system tray is available."
    );
}

#[test]
fn names_of_the_settings() {
    assert_eq!(
        video_encoder_label(VideoEncoder::Automatic),
        "Auto · Best available H.264"
    );
    assert_eq!(
        encoder_preset_label(EncoderPreset::X264VerySlow),
        "x264 · Very Slow"
    );
    assert_eq!(encoder_preset_options(VideoEncoder::SoftwareH264).len(), 8);
    let profiles: Vec<&str> = h264_profiles().into_iter().map(h264_profile_label).collect();
    assert_eq!(profiles, ["Auto", "Main", "High"]);
    let tabs: Vec<&str> = main_page_tabs().into_iter().map(main_page_tab_label).collect();
    assert_eq!(tabs, ["Interpolation", "Hardware", "Encoding", "Media"]);
    assert!(available_video_encoders(false, false).is_empty());
    assert_eq!(
        available_video_encoders(false, true),
        [VideoEncoder::Automatic, VideoEncoder::NvidiaH264]
    );
}

#[test]
fn icons_are_bundled() {
    assert_eq!(bundled_icon("icons/pause.svg"), Some(BundledIcon::Pause));
    assert_eq!(
        bundled_icon("icons/settings.svg"),
        Some(BundledIcon::Settings)
    );
    assert_eq!(bundled_icon("icons/none.svg"), None);
    for path in bundled_icons("") {
        assert!(bundled_icon(&path).is_some());
    }
    for directory in ["", "icons", "icons/"] {
        assert_eq!(
            bundled_icons(directory),
            ["icons/pause.svg", "icons/settings.svg"]
        );
    }
    assert!(bundled_icons("fonts").is_empty());
}

#[test]
fn started_jobs_take_the_rate_that_was_typed() {
    let mut app = app_with(true, false);
    app.focus_target_fps();
    type_text(&mut app, "480");
    let request = app.start_job().expect("a job can be started");
    assert_eq!(request.configuration.target_fps_num, 480);
    app.focus_target_fps();
    type_text(&mut app, "0");
    assert!(!app.can_start());
    assert!(app.start_job().is_none());
    assert_eq!(
        app.error,
        Some("Target frame rate must be between 1 and 480 FPS".to_owned())
    );
}
