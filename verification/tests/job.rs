use interpolate::app::settings::{EncoderPreset, H264Profile, VideoEncoder};
use interpolate::cadence::CadenceDiagnostics;
use interpolate::pipeline::job::{
    failure_message, failure_report, fallback_message, first_found, model_directories, model_file_paths,
    model_files_exist, preset_name, resolve_model_directory, start_message, terminal_update,
    JobStage, StoppedProcesses,
};
use interpolate::pipeline::media::{
    decoder_arguments, encoder_arguments, finish_log_worker, unreadable_diagnostics,
    unusable_process, wait_media_child, EncoderSettings, LogWorker, MediaArgument,
    TerminationStep,
};
use interpolate::pipeline::{ContentPreset, JobConfiguration, JobUpdate, VideoMetadata};
use std::path::{Path, PathBuf};

fn configuration() -> JobConfiguration {
    JobConfiguration {
        input_path: PathBuf::from("/in.mkv"),
        output_path: PathBuf::from("/out.mkv"),
        target_fps_num: 60,
        target_fps_den: 1,
        gpu_index: 0,
        content_preset: ContentPreset::Anime,
        scene_detection: true,
        use_uhd_mode: false,
    }
}

fn shown(arguments: Vec<MediaArgument>) -> String {
    let shown: Vec<String> = arguments
        .into_iter()
        .map(|argument| match argument {
            MediaArgument::Text(text) => text,
            MediaArgument::InputPath => "<input>".to_owned(),
            MediaArgument::PartialPath => "<partial>".to_owned(),
        })
        .collect();
    shown.join(" ")
}

fn stopped() -> StoppedProcesses {
    StoppedProcesses {
        decoder_terminated: Ok(()),
        encoder_terminated: Ok(()),
        decoder_log: Ok(()),
        encoder_log: Ok(()),
    }
}

fn failure(stage: JobStage) -> String {
    match stage {
        JobStage::Ended(Err(message)) => message,
        _ => panic!("the job should have failed"),
    }
}

/// A job whose steps so far have all succeeded.
fn processing() -> JobStage {
    let mut stage = JobStage::Validate;
    for _ in 0..7 {
        stage = stage.performed(Ok(()), false);
    }
    assert!(matches!(stage, JobStage::StartEncoder));
    stage = stage.encoder_started(VideoEncoder::SoftwareH264, Ok(()));
    assert!(matches!(stage, JobStage::ProcessFrames));
    stage
}

#[test]
fn decoder_writes_raw_frames() {
    assert_eq!(
        shown(decoder_arguments(false)),
        "-nostdin -v error -threads 2 -i <input> -map 0:v:0 -an -sn -dn -fps_mode passthrough \
         -pix_fmt rgb24 -f rawvideo pipe:1"
    );
}

#[test]
fn decoder_uses_the_graphics_card_where_asked() {
    assert_eq!(
        shown(decoder_arguments(true)),
        "-nostdin -v error -threads 2 -hwaccel cuda -i <input> -map 0:v:0 -an -sn -dn \
         -fps_mode passthrough -pix_fmt rgb24 -f rawvideo pipe:1"
    );
}

fn settings() -> EncoderSettings {
    EncoderSettings {
        video_encoder: VideoEncoder::SoftwareH264,
        preset: EncoderPreset::X264Medium,
        quality_level: 18,
        h264_profile: H264Profile::Auto,
        thread_count: 2,
        preserve_audio: true,
        preserve_subtitles: true,
        preserve_metadata: true,
    }
}

fn encoder_shown(settings: &EncoderSettings, encoder: VideoEncoder) -> String {
    let metadata = VideoMetadata {
        width: 1920,
        height: 1080,
        source_fps_num: 24,
        source_fps_den: 1,
        duration_seconds_bits: 1.0_f64.to_bits(),
        pixel_format: "yuv420p".to_owned(),
    };
    shown(encoder_arguments(
        &configuration(),
        &metadata,
        settings,
        encoder,
    ))
}

#[test]
fn encoder_follows_its_settings() {
    let chosen = EncoderSettings {
        video_encoder: VideoEncoder::NvidiaH264,
        preset: EncoderPreset::NvidiaP7,
        quality_level: 23,
        h264_profile: H264Profile::High,
        thread_count: 6,
        preserve_audio: false,
        preserve_subtitles: true,
        preserve_metadata: false,
    };
    assert_eq!(
        encoder_shown(&chosen, VideoEncoder::NvidiaH264),
        "-nostdin -v error -y -threads 2 -f rawvideo -pix_fmt rgb24 -video_size 1920x1080 \
         -framerate 60/1 -i pipe:0 -i <input> -map 0:v:0 -map 1:s? -map_metadata -1 \
         -map_metadata:s -1 -map_chapters -1 -c:v h264_nvenc -preset p7 -rc vbr -cq 23 -b:v 0 \
         -profile:v high -pix_fmt yuv420p -threads 6 -c:s copy <partial>"
    );
    let fallback = EncoderSettings {
        h264_profile: H264Profile::Main,
        preserve_audio: true,
        preserve_subtitles: false,
        preserve_metadata: true,
        ..chosen
    };
    assert_eq!(
        encoder_shown(&fallback, VideoEncoder::SoftwareH264),
        "-nostdin -v error -y -threads 2 -f rawvideo -pix_fmt rgb24 -video_size 1920x1080 \
         -framerate 60/1 -i pipe:0 -i <input> -map 0:v:0 -map 1:a? -map_metadata 1 \
         -map_chapters 1 -c:v libx264 -preset medium -crf 23 -profile:v main -pix_fmt yuv420p \
         -threads 6 -c:a copy <partial>"
    );
    for (preset, name) in [
        (EncoderPreset::X264VeryFast, "veryfast"),
        (EncoderPreset::X264Faster, "faster"),
        (EncoderPreset::X264Fast, "fast"),
        (EncoderPreset::X264Slow, "slow"),
        (EncoderPreset::X264Slower, "slower"),
        (EncoderPreset::X264VerySlow, "veryslow"),
        (EncoderPreset::X264Placebo, "placebo"),
    ] {
        let with_preset = EncoderSettings {
            preset,
            ..settings()
        };
        assert!(encoder_shown(&with_preset, VideoEncoder::SoftwareH264)
            .contains(&format!("-c:v libx264 -preset {name} -crf 18 ")));
        assert!(encoder_shown(&with_preset, VideoEncoder::NvidiaH264)
            .contains("-c:v h264_nvenc -preset p5 -rc vbr -cq 18 "));
    }
}

#[test]
fn encoder_is_chosen_by_its_settings() {
    assert_eq!(settings().choose_encoder(), VideoEncoder::SoftwareH264);
    let automatic = EncoderSettings {
        video_encoder: VideoEncoder::Automatic,
        ..settings()
    };
    assert_eq!(automatic.choose_encoder(), VideoEncoder::SoftwareH264);
    let nvidia = EncoderSettings {
        preset: EncoderPreset::NvidiaP1,
        ..automatic
    };
    assert_eq!(nvidia.choose_encoder(), VideoEncoder::NvidiaH264);
}

#[test]
fn encoders_that_do_not_start_are_replaced() {
    let started = || JobStage::StartEncoder;
    let fallback = started().encoder_started(VideoEncoder::NvidiaH264, Err("no card".to_owned()));
    assert!(matches!(fallback, JobStage::StartFallbackEncoder));
    assert!(matches!(
        fallback.encoder_started(VideoEncoder::SoftwareH264, Ok(())),
        JobStage::ProcessFrames
    ));
    let stopped = JobStage::StartFallbackEncoder
        .encoder_started(VideoEncoder::SoftwareH264, Err("none".to_owned()));
    assert_eq!(failure(stopped.decoder_stopped(Ok(()), Ok(()))), "none");
    assert!(matches!(
        started().encoder_started(VideoEncoder::NvidiaH264, Ok(())),
        JobStage::ProcessFrames
    ));
    assert_eq!(
        fallback_message("no card"),
        "NVENC could not start; using the CPU encoder: no card"
    );
}

#[test]
fn encoder_copies_everything_else() {
    assert_eq!(
        encoder_shown(&settings(), VideoEncoder::SoftwareH264),
        "-nostdin -v error -y -threads 2 -f rawvideo -pix_fmt rgb24 -video_size 1920x1080 \
         -framerate 60/1 -i pipe:0 -i <input> -map 0:v:0 -map 1:a? -map 1:s? -map_metadata 1 \
         -map_chapters 1 -c:v libx264 -preset medium -crf 18 -pix_fmt yuv420p -threads 2 \
         -c:a copy -c:s copy <partial>"
    );
}

#[test]
fn job_takes_its_steps_in_order() {
    let mut stage = JobStage::Validate;
    let mut phases = Vec::new();
    for _ in 0..7 {
        if let Some(phase) = stage.phase() {
            phases.push(phase);
        }
        stage = stage.performed(Ok(()), false);
    }
    stage = stage.encoder_started(VideoEncoder::SoftwareH264, Ok(()));
    let diagnostics = CadenceDiagnostics {
        duplicate_frame_count: 2,
        ..CadenceDiagnostics::default()
    };
    stage = stage.frames_processed(Ok(diagnostics));
    phases.push(stage.phase().expect("finalizing is announced"));
    assert_eq!(
        phases,
        [
            "Probing video",
            "Initializing RIFE 4.25",
            "Starting media pipeline",
            "Finalizing output"
        ]
    );
    stage = stage.processes_waited(Ok(true), Ok(true), Path::new("/out.partial.mkv"));
    stage = stage.published(Ok(()), Path::new("/out.partial.mkv"));
    match stage {
        JobStage::Ended(Ok(counts)) => assert_eq!(counts.duplicate_frame_count, 2),
        _ => panic!("the job should be complete"),
    }
}

#[test]
fn steps_that_fail_end_the_job() {
    assert_eq!(
        failure(JobStage::Validate.performed(Err("no input".to_owned()), false)),
        "no input"
    );
    assert_eq!(
        failure(JobStage::CheckTarget.performed(Ok(()), true)),
        "job cancelled"
    );
    assert!(matches!(
        JobStage::Probe.performed(Ok(()), true),
        JobStage::CheckTarget
    ));
    let stage = JobStage::StartEncoder
        .encoder_started(VideoEncoder::SoftwareH264, Err("no encoder".to_owned()));
    assert_eq!(
        failure(stage.decoder_stopped(Err("alive".to_owned()), Err("unread".to_owned()))),
        "no encoder; decoder cleanup failed: alive; decoder diagnostics failed during cleanup: unread"
    );
}

#[test]
fn cancelled_jobs_discard_their_output() {
    let stage = processing()
        .frames_processed(Err("job cancelled".to_owned()))
        .processes_stopped(stopped(), true);
    assert!(matches!(stage, JobStage::DiscardPartial(_, _)));
    assert_eq!(
        failure(stage.partial_settled(Path::new("/p.mkv"), true)),
        "job cancelled"
    );
}

#[test]
fn failed_jobs_leave_their_output() {
    let stage = processing()
        .frames_processed(Err("broken".to_owned()))
        .processes_stopped(
            StoppedProcesses {
                decoder_terminated: Err("d".to_owned()),
                encoder_terminated: Err("e".to_owned()),
                decoder_log: Err("dl".to_owned()),
                encoder_log: Err("el".to_owned()),
            },
            false,
        );
    assert!(matches!(stage, JobStage::FindPartial(_, _)));
    assert_eq!(
        failure(stage.partial_settled(Path::new("/p.mkv"), true)),
        "broken; recoverable partial output remains at /p.mkv; decoder cleanup failed: d; \
         encoder cleanup failed: e; decoder diagnostics failed: dl; encoder diagnostics failed: el"
    );
    let stage = processing()
        .frames_processed(Err("broken".to_owned()))
        .processes_stopped(stopped(), false);
    assert_eq!(
        failure(stage.partial_settled(Path::new("/p.mkv"), false)),
        "broken"
    );
}

#[test]
fn finalizing_needs_both_processes() {
    let finalize = || processing().frames_processed(Ok(CadenceDiagnostics::default()));
    let partial = Path::new("/p.mkv");
    assert_eq!(
        failure(finalize().processes_waited(Err("d".to_owned()), Err("e".to_owned()), partial)),
        "d; recoverable partial output, if any, remains at /p.mkv"
    );
    assert_eq!(
        failure(finalize().processes_waited(Ok(false), Err("e".to_owned()), partial)),
        "e; recoverable partial output, if any, remains at /p.mkv"
    );
    assert_eq!(
        failure(finalize().processes_waited(Ok(false), Ok(false), partial)),
        "FFmpeg decoder failed; recoverable partial output, if any, remains at /p.mkv"
    );
    assert_eq!(
        failure(finalize().processes_waited(Ok(true), Ok(false), partial)),
        "FFmpeg encoder failed; an input stream may not be compatible with MKV. Recoverable partial output, if any, remains at /p.mkv"
    );
    let publish = finalize().processes_waited(Ok(true), Ok(true), partial);
    assert_eq!(
        failure(publish.published(Err("busy".to_owned()), partial)),
        "failed to publish completed output: busy. Completed partial output remains at /p.mkv"
    );
}

#[test]
fn last_update_of_a_job() {
    let output = PathBuf::from("/out.mkv");
    match terminal_update(&output, Ok(CadenceDiagnostics::default()), true) {
        JobUpdate::Completed { path, .. } => assert_eq!(path, output),
        other => panic!("unexpected update: {other:?}"),
    }
    assert!(matches!(
        terminal_update(&output, Err("x".to_owned()), true),
        JobUpdate::Cancelled
    ));
    match terminal_update(&output, Err("x".to_owned()), false) {
        JobUpdate::Failed(message) => assert_eq!(message, "x"),
        other => panic!("unexpected update: {other:?}"),
    }
}

#[test]
fn messages_of_a_job() {
    assert_eq!(
        start_message(&configuration()),
        "starting Anime job: /in.mkv -> /out.mkv"
    );
    assert_eq!(failure_message("x"), "job failed: x");
    assert_eq!(
        failure_report("x", Path::new("/log"), "a\nb"),
        "x\nDiagnostics: /log\na\nb"
    );
    assert_eq!(preset_name(ContentPreset::Movie), "Movie");
}

#[test]
fn processes_that_cannot_be_used() {
    assert_eq!(
        unusable_process("decoder diagnostics pipe is unavailable", &Ok(())),
        "decoder diagnostics pipe is unavailable"
    );
    assert_eq!(
        unusable_process("ffprobe metadata pipe is unavailable", &Err("x".to_owned())),
        "ffprobe metadata pipe is unavailable; cleanup failed: x"
    );
    assert_eq!(
        unreadable_diagnostics("no thread".to_owned(), "encoder", &Err("x".to_owned())),
        "no thread; encoder cleanup failed: x"
    );
    assert_eq!(
        unreadable_diagnostics("no thread".to_owned(), "encoder", &Ok(())),
        "no thread"
    );
}

#[test]
fn waiting_for_a_process() {
    assert_eq!(
        finish_log_worker(LogWorker::Missing),
        Err("media log worker is unavailable".to_owned())
    );
    assert_eq!(
        finish_log_worker(LogWorker::Panicked),
        Err("media log worker panicked".to_owned())
    );
    assert_eq!(finish_log_worker(LogWorker::Returned(Ok(()))), Ok(()));
    assert_eq!(wait_media_child("decoder", Ok(false), Ok(())), Ok(false));
    assert_eq!(
        wait_media_child("decoder", Ok(true), Err("log".to_owned())),
        Err("log".to_owned())
    );
    assert_eq!(
        wait_media_child("decoder", Err("gone".to_owned()), Err("log".to_owned())),
        Err("failed to wait for decoder: gone".to_owned())
    );
}

fn ended(step: TerminationStep) -> Result<(), String> {
    match step {
        TerminationStep::Ended(result) => result,
        _ => panic!("stopping the process should be over"),
    }
}

#[test]
fn processes_are_stopped_step_by_step() {
    let gone = TerminationStep::Inspect.inspected(Ok(true));
    assert_eq!(ended(gone.inspected(Ok(true))), Ok(()));
    let killed = TerminationStep::Inspect
        .inspected(Ok(false))
        .performed(Ok(()))
        .performed(Ok(()));
    assert_eq!(
        ended(killed.inspected(Ok(false))),
        Err("media process remained active after termination".to_owned())
    );
    assert_eq!(
        ended(
            TerminationStep::Inspect
                .inspected(Ok(false))
                .performed(Err("k".to_owned()))
        ),
        Err("failed to terminate media process: k".to_owned())
    );
    assert_eq!(
        ended(
            TerminationStep::Inspect
                .inspected(Err("i".to_owned()))
                .performed(Err("k".to_owned()))
        ),
        Err("failed to inspect media process (i) and terminate it: k".to_owned())
    );
    assert_eq!(
        ended(
            TerminationStep::Inspect
                .inspected(Ok(false))
                .performed(Ok(()))
                .performed(Err("r".to_owned()))
        ),
        Err("failed to reap terminated media process: r".to_owned())
    );
    assert_eq!(
        ended(
            TerminationStep::Inspect
                .inspected(Err("i".to_owned()))
                .performed(Ok(()))
                .performed(Err("r".to_owned()))
        ),
        Err("failed to reap media process after inspection failed: r".to_owned())
    );
    assert_eq!(
        ended(
            TerminationStep::Inspect
                .inspected(Ok(true))
                .inspected(Err("c".to_owned()))
        ),
        Err("failed to confirm media process termination: c".to_owned())
    );
}

#[test]
fn model_directories_are_tried_in_order() {
    assert_eq!(
        model_directories(None, Path::new("/opt/app/bin/interpolate"), Path::new("/src")),
        Ok(vec![
            PathBuf::from("/opt/app/share/interpolate/models/rife-v4.25"),
            PathBuf::from("/opt/app/bin/models/rife-v4.25"),
            PathBuf::from("/src/models/rife-v4.25"),
        ])
    );
    assert_eq!(
        model_directories(None, Path::new("/interpolate"), Path::new("/src")),
        Ok(vec![
            PathBuf::from("/models/rife-v4.25"),
            PathBuf::from("/src/models/rife-v4.25"),
        ])
    );
    assert_eq!(
        model_directories(Some(Path::new("/m")), Path::new("/x/y/z"), Path::new("/src")),
        Ok(vec![PathBuf::from("/m")])
    );
    assert_eq!(
        model_directories(Some(Path::new("")), Path::new("/x/y/z"), Path::new("/src")),
        Err("INTERPOLATE_MODEL_DIRECTORY must not be empty".to_owned())
    );
}

#[test]
fn model_directory_is_the_first_that_holds_the_model() {
    let directories = vec![PathBuf::from("/a"), PathBuf::from("/b")];
    assert_eq!(
        resolve_model_directory(false, &directories, &vec![false, true]),
        Ok(PathBuf::from("/b"))
    );
    assert_eq!(
        resolve_model_directory(false, &directories, &vec![false, false]),
        Err("RIFE 4.25 model files could not be located".to_owned())
    );
    assert_eq!(
        resolve_model_directory(true, &directories, &vec![false, false]),
        Err("INTERPOLATE_MODEL_DIRECTORY does not contain the RIFE 4.25 model".to_owned())
    );
    assert_eq!(
        first_found(&directories, &vec![true, true]),
        Some(PathBuf::from("/a"))
    );
    assert_eq!(
        model_file_paths(Path::new("/m")),
        (
            PathBuf::from("/m/flownet.param"),
            PathBuf::from("/m/flownet.bin")
        )
    );
    assert!(model_files_exist(true, true, true));
    assert!(!model_files_exist(true, false, true));
    assert!(!model_files_exist(true, true, false));
    assert!(!model_files_exist(false, true, true));
}
