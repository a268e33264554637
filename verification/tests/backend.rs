use interpolate::backend::{
    c_buffer_to_string, check_greeting, check_native_handle, check_native_status,
    cuda_inference_status, cuda_worker_arguments, cuda_worker_files, gpu_count, native_error,
    native_error_message, python_executable, python_path, pytorch_model_paths,
    resolve_pytorch_model_path, Backend, CudaBackend, DependencyProbe, InferenceCall,
    InferenceEngine, WorkerArgument, WorkerGreeting, WorkerStop,
};
use interpolate::pipeline::scheduler::check_timestep;
use std::path::{Path, PathBuf};

#[test]
fn cuda_status_names_its_reason() {
    let status = cuda_inference_status(true, DependencyProbe::Available);
    assert!(status.available);
    assert_eq!(
        status.reason,
        "PyTorch CUDA with VapourSynth/vs-rife is available"
    );
    let status = cuda_inference_status(false, DependencyProbe::Available);
    assert!(!status.available);
    assert_eq!(
        status.reason,
        "PyTorch RIFE model is missing at models/rife-v4.25/flownet_v4.25.pkl"
    );
    let status = cuda_inference_status(true, DependencyProbe::Exited("exit status: 1".to_owned()));
    assert!(!status.available);
    assert_eq!(
        status.reason,
        "Python CUDA dependencies are unavailable (exit status exit status: 1)"
    );
    let status = cuda_inference_status(true, DependencyProbe::Failed("no python".to_owned()));
    assert_eq!(
        status.reason,
        "failed to probe Python CUDA dependencies: no python"
    );
}

#[test]
fn model_and_python_are_found_beside_the_executable() {
    let paths = pytorch_model_paths(None, Some(Path::new("/app/interpolate")), Path::new("/src"));
    assert_eq!(
        paths,
        [
            PathBuf::from("/app/models/rife-v4.25/flownet_v4.25.pkl"),
            PathBuf::from("/src/models/rife-v4.25/flownet_v4.25.pkl"),
        ]
    );
    assert_eq!(
        resolve_pytorch_model_path(&paths, &vec![false, true]),
        Some(paths[1].clone())
    );
    assert_eq!(resolve_pytorch_model_path(&paths, &vec![false, false]), None);
    assert_eq!(
        pytorch_model_paths(Some(Path::new("/m.pkl")), None, Path::new("/src")),
        [PathBuf::from("/m.pkl")]
    );
    assert!(pytorch_model_paths(None, None, Path::new("/src")).is_empty());
    let bundled = python_path(None, Some(Path::new("/app/interpolate")));
    assert_eq!(
        bundled,
        Some(PathBuf::from("/app/runtime/python/bin/python3"))
    );
    assert_eq!(python_executable(bundled.clone(), true, false, false), bundled);
    assert_eq!(
        python_executable(bundled.clone(), false, false, true),
        Some(PathBuf::from("python3"))
    );
    assert_eq!(python_executable(bundled.clone(), false, false, false), None);
    assert_eq!(python_executable(bundled, false, true, true), None);
    assert_eq!(python_path(None, None), None);
}

#[test]
fn worker_files_are_needed_in_order() {
    let model = Some(PathBuf::from("/m"));
    let python = Some(PathBuf::from("/p"));
    assert_eq!(
        cuda_worker_files(model.clone(), python),
        Ok((PathBuf::from("/m"), PathBuf::from("/p")))
    );
    assert_eq!(
        cuda_worker_files(model, None),
        Err("bundled Python runtime could not be located".to_owned())
    );
    assert_eq!(
        cuda_worker_files(None, None),
        Err("bundled PyTorch RIFE 4.25 model was not found".to_owned())
    );
}

#[test]
fn native_texts_end_at_the_first_zero() {
    assert_eq!(c_buffer_to_string(b"NVIDIA\0rest\0"), "NVIDIA");
    assert_eq!(c_buffer_to_string(b"\0"), "");
    assert_eq!(c_buffer_to_string(b"\xff\0"), "\u{fffd}");
    assert_eq!(native_error(3, b"bad\0"), "bad (native status 3)");
    assert_eq!(
        native_error(-4, b"\0"),
        "native backend failed with status -4"
    );
    assert_eq!(native_error_message(1, "m"), "m (native status 1)");
}

#[test]
fn gpu_counts_are_bounded() {
    assert_eq!(gpu_count(0, b"\0"), Ok(0));
    assert_eq!(gpu_count(16, b"\0"), Ok(16));
    assert_eq!(
        gpu_count(17, b"\0"),
        Err("native backend reported more than 16 GPUs".to_owned())
    );
    assert_eq!(
        gpu_count(-2, b"no loader\0"),
        Err("no loader (native status 2)".to_owned())
    );
}

#[test]
fn native_calls_are_checked() {
    assert_eq!(check_native_status(0, b"\0"), Ok(()));
    assert_eq!(
        check_native_status(1, b"x\0"),
        Err("x (native status 1)".to_owned())
    );
    assert_eq!(check_native_handle(0, b"\0", false), Ok(()));
    assert_eq!(
        check_native_handle(0, b"\0", true),
        Err("native backend returned a null handle".to_owned())
    );
    assert_eq!(
        check_native_handle(5, b"\0", true),
        Err("native backend failed with status 5".to_owned())
    );
    assert_eq!(
        Backend::create(3, Path::new("/m"), 0, false).err(),
        Some("native ABI version 3 does not match required version 2".to_owned())
    );
    assert_eq!(
        Backend::create(2, Path::new(""), 0, false).err(),
        Some("model directory must not be empty".to_owned())
    );
}

#[test]
fn native_backend_interpolates_fixed_rgb_frames() {
    const WIDTH: u32 = 64;
    const HEIGHT: u32 = 64;
    const FRAME_SIZE: usize = 12_288;
    let backend = Backend::create(2, Path::new("models/rife-v4.25"), 0, false)
        .expect("RIFE 4.25 backend should initialize");
    let frame_before = vec![0_u8; FRAME_SIZE];
    let frame_after = vec![255_u8; FRAME_SIZE];
    let frame_output = vec![0_u8; FRAME_SIZE];
    let short_frame = vec![0_u8; FRAME_SIZE - 1];
    let invalid_size_error = backend
        .interpolate_rgb24(
            &short_frame,
            &frame_after,
            WIDTH,
            HEIGHT,
            0.5_f32.to_bits(),
            &frame_output,
        )
        .expect_err("short input must be rejected");
    assert!(invalid_size_error.contains("exactly"));
    assert!(frame_output.iter().all(|value| *value == 0));
    for invalid_timestep in [f32::NAN, 0.0, 1.0] {
        let invalid_timestep_error = backend
            .interpolate_rgb24(
                &frame_before,
                &frame_after,
                WIDTH,
                HEIGHT,
                invalid_timestep.to_bits(),
                &frame_output,
            )
            .expect_err("invalid timestep must be rejected");
        assert!(invalid_timestep_error.contains("strictly between"));
        assert!(frame_output.iter().all(|value| *value == 0));
    }
    assert_eq!(
        backend.interpolate_rgb24(
            &frame_before,
            &frame_after,
            WIDTH,
            HEIGHT,
            0.5_f32.to_bits(),
            &frame_output,
        ),
        Ok(192)
    );
}

#[test]
fn vulkan_inputs_are_checked() {
    let backend = Backend::create(2, Path::new("/m"), 1, true).expect("backend should be created");
    assert!(backend.use_uhd_mode && backend.gpu_index == 1);
    let engine = InferenceEngine::Vulkan(backend);
    let frame = vec![0_u8; 4 * 2 * 3];
    let half = 0.5_f32.to_bits();
    assert_eq!(
        engine.interpolate_rgb24(&frame, &frame, 4, 2, half, &frame),
        Ok(InferenceCall::Native { row_stride: 12 })
    );
    assert_eq!(
        engine.interpolate_rgb24(&frame[1..], &frame, 4, 2, half, &frame),
        Err("RGB24 buffers must each contain exactly 24 bytes".to_owned())
    );
    for outside in [f32::NAN, 0.0, 1.0, -0.0, -0.5] {
        assert_eq!(
            engine.interpolate_rgb24(&frame, &frame, 4, 2, outside.to_bits(), &frame),
            Err("interpolation timestep must be strictly between zero and one".to_owned())
        );
    }
    assert_eq!(
        engine.interpolate_rgb24(&frame, &frame, u32::MAX, u32::MAX, half, &frame),
        Err("frame size exceeds addressable memory".to_owned())
    );
}

#[test]
fn cuda_inputs_are_checked() {
    assert_eq!(
        CudaBackend::create(16_384, 16_384).err(),
        Some("CUDA frame exceeds the safety limit".to_owned())
    );
    let engine =
        InferenceEngine::Cuda(CudaBackend::create(4, 2).expect("worker should be created"));
    let frame = vec![0_u8; 4 * 2 * 3];
    assert_eq!(
        engine.interpolate_rgb24(&frame, &frame, 4, 2, 0.0_f32.to_bits(), &frame),
        Ok(InferenceCall::Worker)
    );
    assert_eq!(
        engine.interpolate_rgb24(&frame, &frame, 2, 2, 0.5_f32.to_bits(), &frame),
        Err("CUDA worker frame dimensions changed during the job".to_owned())
    );
    assert_eq!(
        engine.interpolate_rgb24(&frame, &frame, 4, 2, 1.0_f32.to_bits(), &frame),
        Err("CUDA worker timestep must be strictly between zero and one".to_owned())
    );
    assert_eq!(
        engine.interpolate_rgb24(&frame, &frame, u32::MAX, u32::MAX, 0, &frame),
        Err("CUDA frame size exceeds addressable memory".to_owned())
    );
}

#[test]
fn worker_is_started_with_its_settings() {
    let shown = |half: bool| -> String {
        let shown: Vec<String> = cuda_worker_arguments(64, 32, 1, half)
            .into_iter()
            .map(|argument| match argument {
                WorkerArgument::Text(text) => text,
                WorkerArgument::Program => "<program>".to_owned(),
                WorkerArgument::ModelPath => "<model>".to_owned(),
            })
            .collect();
        shown.join(" ")
    };
    assert_eq!(
        shown(true),
        "-u -c <program> --width 64 --height 32 --gpu 1 --model <model> --half-scale"
    );
    assert_eq!(
        shown(false),
        "-u -c <program> --width 64 --height 32 --gpu 1 --model <model>"
    );
}

#[test]
fn worker_has_to_greet() {
    assert_eq!(check_greeting(&WorkerGreeting::Sent(b"RIF1".to_vec())), Ok(()));
    assert_eq!(
        check_greeting(&WorkerGreeting::Sent(b"RIF2".to_vec())),
        Err("PyTorch RIFE worker returned an invalid handshake".to_owned())
    );
    assert_eq!(
        check_greeting(&WorkerGreeting::TimedOut),
        Err("PyTorch RIFE worker startup timed out".to_owned())
    );
    assert_eq!(
        check_greeting(&WorkerGreeting::Failed("eof".to_owned())),
        Err("PyTorch RIFE worker failed during startup: eof".to_owned())
    );
}

#[test]
fn worker_is_stopped_step_by_step() {
    let ended = |step: WorkerStop| match step {
        WorkerStop::Ended(result) => result,
        _ => panic!("stopping the worker should be over"),
    };
    assert_eq!(
        ended(WorkerStop::Query.queried(Ok(true)).performed(Ok(()))),
        Ok(())
    );
    let killed = WorkerStop::Query.queried(Ok(false)).performed(Ok(()));
    assert_eq!(
        ended(killed.performed(Err("r".to_owned()))),
        Err("failed to reap worker: r".to_owned())
    );
    assert_eq!(
        ended(WorkerStop::Query.queried(Ok(false)).performed(Err("k".to_owned()))),
        Err("failed to stop worker: k".to_owned())
    );
    assert_eq!(
        ended(WorkerStop::Query.queried(Err("q".to_owned()))),
        Err("failed to query worker: q".to_owned())
    );
}

#[test]
fn backends_take_every_time_inside_a_span() {
    let frame = vec![0_u8; 4 * 2 * 3];
    let vulkan = InferenceEngine::Vulkan(
        Backend::create(2, Path::new("/m"), 0, false).expect("backend should be created"),
    );
    let cuda = InferenceEngine::Cuda(CudaBackend::create(4, 2).expect("worker should be created"));
    for timestep in [f32::MIN_POSITIVE, 0.25, 0.5, 0.999_999_9] {
        let bits = timestep.to_bits();
        assert_eq!(check_timestep(bits), Ok(()));
        for engine in [&vulkan, &cuda] {
            assert!(engine
                .interpolate_rgb24(&frame, &frame, 4, 2, bits, &frame)
                .is_ok());
        }
    }
}
