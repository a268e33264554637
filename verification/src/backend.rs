//! The inference backends: which are available, what they are given, and what their
//! answers mean.

use crate::host::{join_path, path_from_text, path_is_empty, text_from_bytes};
use crate::pipeline::job::first_found;
use crate::text::{decimal_text, push_decimal, push_signed_decimal};
use crate::{host, pipeline, text};
use std::path::{Path, PathBuf};
use vstd::prelude::*;
use vstd::utf8::*;

verus! {

/// The version of the native interface that this application speaks.
pub const BACKEND_ABI_VERSION: u32 = 2;

pub const ERROR_MESSAGE_SIZE: usize = 512;

pub const GPU_NAME_SIZE: usize = 256;

/// How many GPUs are taken in at most.
pub const GPU_COUNT_MAX: usize = 16;

/// How many CPU threads the native backend uses.
pub const CPU_THREAD_COUNT: i32 = 1;

/// What a native call returns when it went well.
pub const STATUS_OK: i32 = 0;

/// No CUDA frame is larger than 128 MiB.
pub const CUDA_FRAME_SIZE_MAX: usize = 134_217_728;

/// No CUDA frame is wider or higher than this.
pub const CUDA_DIMENSION_MAX: u32 = 16_384;

pub const CUDA_WORKER_STARTUP_TIMEOUT_SECONDS: u64 = 30;

/// What runs the model.
#[derive(Clone, Copy, Debug, PartialEq, Eq, Structural)]
pub enum InferenceBackend {
    VulkanNcnn,
    CudaPytorchVapourSynth,
}

/// Whether inference with CUDA is available, and why or why not.
pub struct CudaInferenceStatus {
    pub available: bool,
    pub reason: String,
}

/// How asking for the Python dependencies went.
pub enum DependencyProbe {
    /// The probe ended well.
    Available,
    /// The probe ended with another status, shown as this text.
    Exited(String),
    /// The probe could not be run.
    Failed(String),
}

/// Why CUDA inference is available, or is not.
pub open spec fn cuda_reason(model_available: bool, probe: DependencyProbe) -> Seq<char> {
    if !model_available {
        "PyTorch RIFE model is missing at models/rife-v4.25/flownet_v4.25.pkl"@
    } else {
        match probe {
            DependencyProbe::Available => "PyTorch CUDA with VapourSynth/vs-rife is available"@,
            DependencyProbe::Exited(status) =>
                "Python CUDA dependencies are unavailable (exit status "@ + status@ + ")"@,
            DependencyProbe::Failed(error) => "failed to probe Python CUDA dependencies: "@
                + error@,
        }
    }
}

/// Whether inference with CUDA is available: the model has to be there, and the Python
/// dependencies.
pub fn cuda_inference_status(model_available: bool, probe: DependencyProbe) -> (status:
    CudaInferenceStatus)
    ensures
        status.available == (model_available && probe is Available),
        status.reason@ == cuda_reason(model_available, probe),
{
    if !model_available {
        return CudaInferenceStatus {
            available: false,
            reason: "PyTorch RIFE model is missing at models/rife-v4.25/flownet_v4.25.pkl".to_owned(),
        };
    }
    match probe {
        DependencyProbe::Available => CudaInferenceStatus {
            available: true,
            reason: "PyTorch CUDA with VapourSynth/vs-rife is available".to_owned(),
        },
        DependencyProbe::Exited(status) => {
            let mut reason = "Python CUDA dependencies are unavailable (exit status ".to_owned();
            reason.append(status.as_str());
            reason.append(")");
            CudaInferenceStatus { available: false, reason }
        },
        DependencyProbe::Failed(error) => {
            let mut reason = "failed to probe Python CUDA dependencies: ".to_owned();
            reason.append(error.as_str());
            CudaInferenceStatus { available: false, reason }
        },
    }
}

/// Where the PyTorch model may be, in the order in which the places are tried: where
/// the environment says, and nowhere else; or else beside the executable and in the
/// source tree, where the executable is known.
pub open spec fn pytorch_model_places(
    environment: Option<Seq<u8>>,
    executable: Option<Seq<u8>>,
    source_tree: Seq<u8>,
) -> Seq<Seq<u8>> {
    match environment {
        Some(path) => seq![path],
        None => match executable {
            None => Seq::empty(),
            Some(executable) => match host::path_parent(executable) {
                None => Seq::empty(),
                Some(directory) => seq![
                    host::path_joined(directory, "models/rife-v4.25/flownet_v4.25.pkl"@),
                    host::path_joined(source_tree, "models/rife-v4.25/flownet_v4.25.pkl"@),
                ],
            },
        },
    }
}

/// Where the PyTorch model may be, in the order in which the places are tried.
pub fn pytorch_model_paths(
    environment: Option<&Path>,
    executable: Option<&Path>,
    source_tree: &Path,
) -> (paths: Vec<PathBuf>)
    ensures
        pipeline::job::paths_bytes(paths@) == pytorch_model_places(
            pipeline::job::option_path_bytes(environment),
            pipeline::job::option_path_bytes(executable),
            host::path_bytes(source_tree),
        ),
{
    let mut paths: Vec<PathBuf> = Vec::new();
    match environment {
        Some(path) => {
            paths.push(path.to_path_buf());
        },
        None => {
            if let Some(executable) = executable {
                if let Some(directory) = executable.parent() {
                    paths.push(join_path(directory, "models/rife-v4.25/flownet_v4.25.pkl"));
                    paths.push(join_path(source_tree, "models/rife-v4.25/flownet_v4.25.pkl"));
                }
            }
        },
    }
    proof {
        assert(pipeline::job::paths_bytes(paths@) =~= pytorch_model_places(
            pipeline::job::option_path_bytes(environment),
            pipeline::job::option_path_bytes(executable),
            host::path_bytes(source_tree),
        ));
    }
    paths
}

/// The PyTorch model to use: the first that is a file.
pub fn resolve_pytorch_model_path(paths: &Vec<PathBuf>, is_file: &Vec<bool>) -> (path: Option<
    PathBuf,
>)
    requires
        paths@.len() == is_file@.len(),
    ensures
        path == if pipeline::job::first_true(is_file@) < is_file@.len() {
            Some(paths@[pipeline::job::first_true(is_file@)])
        } else {
            None
        },
{
    first_found(paths, is_file)
}

/// Where the Python executable may be: where the environment says, and nowhere else; or
/// else in the runtime beside the executable, where that is known.
pub open spec fn python_place(environment: Option<Seq<u8>>, executable: Option<Seq<u8>>) -> Option<
    Seq<u8>,
> {
    match environment {
        Some(path) => Some(path),
        None => match executable {
            None => None,
            Some(executable) => match host::path_parent(executable) {
                None => None,
                Some(directory) => Some(
                    host::path_joined(directory, "runtime/python/bin/python3"@),
                ),
            },
        },
    }
}

/// Whether an optional path has the given bytes.
pub open spec fn is_option_path(path: Option<PathBuf>, bytes: Option<Seq<u8>>) -> bool {
    match path {
        Some(path) => bytes == Some(host::path_buf_bytes(path)),
        None => bytes is None,
    }
}

/// Where the Python executable may be.
pub fn python_path(environment: Option<&Path>, executable: Option<&Path>) -> (path: Option<PathBuf>)
    ensures
        is_option_path(
            path,
            python_place(
                pipeline::job::option_path_bytes(environment),
                pipeline::job::option_path_bytes(executable),
            ),
        ),
{
    match environment {
        Some(path) => Some(path.to_path_buf()),
        None => match executable {
            None => None,
            Some(executable) => match executable.parent() {
                None => None,
                Some(directory) => Some(join_path(directory, "runtime/python/bin/python3")),
            },
        },
    }
}

/// The Python executable to use: the one at the given place where that is a file, or
/// else, in a development build that the environment does not point elsewhere, the one
/// that the system finds.
pub fn python_executable(
    place: Option<PathBuf>,
    is_file: bool,
    from_environment: bool,
    development: bool,
) -> (path: Option<PathBuf>)
    ensures
        match place {
            None => path is None,
            Some(place) => if is_file {
                path == Some(place)
            } else if development && !from_environment {
                is_option_path(path, Some(encode_utf8("python3"@)))
            } else {
                path is None
            },
        },
{
    match place {
        None => None,
        Some(place) => if is_file {
            Some(place)
        } else if development && !from_environment {
            Some(path_from_text("python3"))
        } else {
            None
        },
    }
}

/// Checks that the native library speaks the version of the interface that this
/// application does.
pub fn check_abi_version(native_abi_version: u32) -> (result: Result<(), String>)
    ensures
        text::result_text(result) == if native_abi_version == BACKEND_ABI_VERSION {
            Ok(())
        } else {
            Err(
                "native ABI version "@ + text::decimal(native_abi_version as nat)
                    + " does not match required version 2"@,
            )
        },
        result is Ok <==> native_abi_version == 2,
{
    if native_abi_version != BACKEND_ABI_VERSION {
        let mut message = "native ABI version ".to_owned();
        push_decimal(&mut message, native_abi_version as u128);
        message.append(" does not match required version 2");
        return Err(message);
    }
    Ok(())
}

/// Checks that a model directory can be handed to the native library.
pub fn check_model_directory(model_directory: &Path) -> (result: Result<(), String>)
    ensures
        text::result_text(result) == if host::path_bytes(model_directory).len() == 0 {
            Err("model directory must not be empty"@)
        } else {
            Ok(())
        },
{
    if path_is_empty(model_directory) {
        return Err("model directory must not be empty".to_owned());
    }
    Ok(())
}

/// The bytes of a C text: those before the first zero.
pub open spec fn c_text(buffer: Seq<u8>) -> Seq<u8>
    decreases buffer.len(),
{
    if buffer.len() == 0 || buffer[0] == 0 {
        Seq::empty()
    } else {
        seq![buffer[0]] + c_text(buffer.drop_first())
    }
}

proof fn lemma_c_text(buffer: Seq<u8>, length: int)
    requires
        0 <= length < buffer.len(),
        forall|i: int| 0 <= i < length ==> buffer[i] != 0,
        buffer[length] == 0,
    ensures
        c_text(buffer) == buffer.take(length),
    decreases length,
{
    if length > 0 {
        let rest = buffer.drop_first();
        assert forall|i: int| 0 <= i < length - 1 implies rest[i] != 0 by {
            assert(rest[i] == buffer[i + 1]);
        }
        lemma_c_text(rest, length - 1);
        assert(buffer[0] != 0);
        assert(c_text(buffer) =~= buffer.take(length));
    } else {
        assert(c_text(buffer) =~= buffer.take(length));
    }
}

/// The text that a C buffer holds.
pub fn c_buffer_to_string(buffer: &[u8]) -> (string: String)
    requires
        buffer@.len() > 0,
        buffer@.last() == 0,
    ensures
        string@ == host::lossy_text(c_text(buffer@)),
{
    let size: usize = buffer.len();
    let mut length: usize = 0;
    while buffer[length] != 0
        invariant
            length < size,
            size == buffer@.len(),
            buffer@.last() == 0,
            forall|i: int| 0 <= i < length ==> buffer@[i] != 0,
        ensures
            length < size,
            buffer@[length as int] == 0,
        decreases size - length,
    {
        length = length + 1;
    }
    proof {
        lemma_c_text(buffer@, length as int);
    }
    let (front, _) = buffer.split_at(length);
    proof {
        assert(front@ =~= buffer@.take(length as int));
    }
    text_from_bytes(front)
}

/// Why a native call failed: what it says, and the status that it returned.
pub open spec fn native_error_text(status: int, message: Seq<char>) -> Seq<char> {
    if message.len() == 0 {
        "native backend failed with status "@ + text::signed_decimal(status)
    } else {
        message + " (native status "@ + text::signed_decimal(status) + ")"@
    }
}

/// Why a native call failed, given what it says.
pub fn native_error_message(status: i32, message: &str) -> (error: String)
    requires
        status != STATUS_OK,
    ensures
        error@ == native_error_text(status as int, message@),
{
    if message.is_empty() {
        let mut error = "native backend failed with status ".to_owned();
        push_signed_decimal(&mut error, status);
        error
    } else {
        let mut error = message.to_owned();
        error.append(" (native status ");
        push_signed_decimal(&mut error, status);
        error.append(")");
        error
    }
}

/// Why a native call failed, given the buffer that it left its message in.
pub fn native_error(status: i32, buffer: &[u8]) -> (error: String)
    requires
        status != STATUS_OK,
        buffer@.len() > 0,
        buffer@.last() == 0,
    ensures
        error@ == native_error_text(status as int, host::lossy_text(c_text(buffer@))),
{
    let message = c_buffer_to_string(buffer);
    native_error_message(status, message.as_str())
}

/// How many GPUs there are, from what the native library returned: a negative number
/// is the negation of a failure's status.
pub fn gpu_count(native_count: i32, error_buffer: &[u8]) -> (result: Result<usize, String>)
    requires
        native_count != i32::MIN,
        error_buffer@.len() > 0,
        error_buffer@.last() == 0,
    ensures
        text::result_text(result) == if native_count < 0 {
            Err(native_error_text(-native_count, host::lossy_text(c_text(error_buffer@))))
        } else if native_count > GPU_COUNT_MAX {
            Err("native backend reported more than 16 GPUs"@)
        } else {
            Ok(native_count as usize)
        },
        result is Ok <==> 0 <= native_count <= 16,
        result matches Ok(count) ==> count == native_count,
{
    if native_count < 0 {
        return Err(native_error(-native_count, error_buffer));
    }
    let count: usize = native_count as usize;
    if count > GPU_COUNT_MAX {
        return Err("native backend reported more than 16 GPUs".to_owned());
    }
    Ok(count)
}

/// The bytes of a row and of a frame in RGB24, or why they are too many.
pub open spec fn rgb24_layout(width: int, height: int) -> Result<(usize, usize), Seq<char>> {
    if width * 3 > usize::MAX {
        Err("frame row size exceeds addressable memory"@)
    } else if height * (width * 3) > usize::MAX {
        Err("frame size exceeds addressable memory"@)
    } else {
        Ok(((width * 3) as usize, (height * (width * 3)) as usize))
    }
}

/// Whether a single-precision number, given by its bits, lies strictly between zero
/// and one.
pub open spec fn is_strictly_inside(timestep_bits: u32) -> bool {
    0 < timestep_bits < 0x3f80_0000
}

/// What the native backend says of its inputs: the bytes of a row where they fit
/// together.
pub open spec fn vulkan_check(
    width: int,
    height: int,
    frame_before_size: int,
    frame_after_size: int,
    frame_output_size: int,
    timestep_bits: u32,
) -> Result<usize, Seq<char>> {
    match rgb24_layout(width, height) {
        Err(message) => Err(message),
        Ok((row_stride, frame_size)) => if frame_before_size != frame_size || frame_after_size
            != frame_size || frame_output_size != frame_size {
            Err(
                "RGB24 buffers must each contain exactly "@ + text::decimal(frame_size as nat)
                    + " bytes"@,
            )
        } else if !is_strictly_inside(timestep_bits) {
            Err("interpolation timestep must be strictly between zero and one"@)
        } else {
            Ok(row_stride)
        },
    }
}

/// The native backend, apart from its handle: what it is given, before the call.
pub struct Backend {
    pub gpu_index: i32,
    pub use_uhd_mode: bool,
}

impl Backend {
    /// What the native backend is created with, where the native library speaks the
    /// right version of the interface and the model directory is not empty.
    pub fn create(
        native_abi_version: u32,
        model_directory: &Path,
        gpu_index: i32,
        use_uhd_mode: bool,
    ) -> (result: Result<Backend, String>)
        ensures
            text::result_text(result) == if native_abi_version != BACKEND_ABI_VERSION {
                Err(
                    "native ABI version "@ + text::decimal(native_abi_version as nat)
                        + " does not match required version 2"@,
                )
            } else if host::path_bytes(model_directory).len() == 0 {
                Err("model directory must not be empty"@)
            } else {
                Ok(Backend { gpu_index, use_uhd_mode })
            },
            result matches Ok(backend) ==> native_abi_version == 2 && backend.gpu_index
                == gpu_index && backend.use_uhd_mode == use_uhd_mode,
    {
        match check_abi_version(native_abi_version) {
            Err(message) => Err(message),
            Ok(_) => match check_model_directory(model_directory) {
                Err(message) => Err(message),
                Ok(_) => Ok(Backend { gpu_index, use_uhd_mode }),
            },
        }
    }

    /// Checks what the native backend is given to interpolate, and returns the bytes
    /// of a row. The time is the bits of a single-precision number.
    pub fn interpolate_rgb24(
        &self,
        frame_before: &[u8],
        frame_after: &[u8],
        width: u32,
        height: u32,
        timestep_bits: u32,
        frame_output: &[u8],
    ) -> (result: Result<usize, String>)
        requires
            width > 0,
            height > 0,
        ensures
            text::result_text(result) == vulkan_check(
                width as int,
                height as int,
                frame_before@.len() as int,
                frame_after@.len() as int,
                frame_output@.len() as int,
                timestep_bits,
            ),
    {
        let row: u64 = (width as u64) * 3;
        if row > usize::MAX as u64 {
            return Err("frame row size exceeds addressable memory".to_owned());
        }
        proof {
            assert(height * row <= 0xffff_ffff * (0xffff_ffff * 3)) by (nonlinear_arith)
                requires
                    0 < height <= 0xffff_ffff,
                    0 < row <= 0xffff_ffff * 3,
            ;
            assert(height * row >= 0) by (nonlinear_arith)
                requires
                    height > 0,
                    row > 0,
            ;
        }
        let total: u128 = (height as u128) * (row as u128);
        if total > usize::MAX as u128 {
            return Err("frame size exceeds addressable memory".to_owned());
        }
        let row_stride: usize = row as usize;
        let frame_size: usize = total as usize;
        if frame_before.len() != frame_size || frame_after.len() != frame_size
            || frame_output.len() != frame_size {
            let mut message = "RGB24 buffers must each contain exactly ".to_owned();
            push_decimal(&mut message, frame_size as u128);
            message.append(" bytes");
            return Err(message);
        }
        if !(0 < timestep_bits && timestep_bits < 0x3f80_0000) {
            return Err(
                "interpolation timestep must be strictly between zero and one".to_owned(),
            );
        }
        Ok(row_stride)
    }
}

/// What to make of the handle that the native library returned.
pub fn check_native_handle(status: i32, error_buffer: &[u8], is_null: bool) -> (result: Result<
    (),
    String,
>)
    requires
        error_buffer@.len() > 0,
        error_buffer@.last() == 0,
    ensures
        text::result_text(result) == if status != STATUS_OK {
            Err(native_error_text(status as int, host::lossy_text(c_text(error_buffer@))))
        } else if is_null {
            Err("native backend returned a null handle"@)
        } else {
            Ok(())
        },
        result is Ok <==> status == 0 && !is_null,
{
    if status != STATUS_OK {
        return Err(native_error(status, error_buffer));
    }
    if is_null {
        return Err("native backend returned a null handle".to_owned());
    }
    Ok(())
}

/// What to make of the status that a native call returned.
pub fn check_native_status(status: i32, error_buffer: &[u8]) -> (result: Result<(), String>)
    requires
        error_buffer@.len() > 0,
        error_buffer@.last() == 0,
    ensures
        text::result_text(result) == if status != STATUS_OK {
            Err(native_error_text(status as int, host::lossy_text(c_text(error_buffer@))))
        } else {
            Ok(())
        },
        result is Ok <==> status == 0,
{
    if status != STATUS_OK {
        return Err(native_error(status, error_buffer));
    }
    Ok(())
}

/// The bytes of a frame that the CUDA worker takes, or why they are too many.
pub open spec fn cuda_frame_size(width: int, height: int) -> Result<usize, Seq<char>> {
    if width * height * 3 > usize::MAX {
        Err("CUDA frame size exceeds addressable memory"@)
    } else if width * height * 3 > CUDA_FRAME_SIZE_MAX {
        Err("CUDA frame exceeds the safety limit"@)
    } else {
        Ok((width * height * 3) as usize)
    }
}

/// What the CUDA worker says of its inputs.
pub open spec fn cuda_check(
    worker_frame_size: int,
    width: int,
    height: int,
    frame_before_size: int,
    frame_after_size: int,
    frame_output_size: int,
    timestep_bits: u32,
) -> Result<(), Seq<char>> {
    let expected_size = width * height * 3;
    if expected_size > usize::MAX {
        Err("CUDA frame size exceeds addressable memory"@)
    } else if worker_frame_size != expected_size || frame_before_size != expected_size
        || frame_after_size != expected_size || frame_output_size != expected_size {
        Err("CUDA worker frame dimensions changed during the job"@)
    } else if !pipeline::scheduler::timestep_inside(timestep_bits) {
        Err("CUDA worker timestep must be strictly between zero and one"@)
    } else {
        Ok(())
    }
}

/// The CUDA worker, apart from its process: the size of its frames.
pub struct CudaBackend {
    pub frame_size: usize,
}

impl CudaBackend {
    /// The frame size is positive and within the limit.
    pub open spec fn well_formed(self) -> bool {
        0 < self.frame_size <= CUDA_FRAME_SIZE_MAX
    }

    /// The worker for frames of a size, where they are within the limit.
    pub fn create(width: u32, height: u32) -> (result: Result<CudaBackend, String>)
        requires
            0 < width <= CUDA_DIMENSION_MAX,
            0 < height <= CUDA_DIMENSION_MAX,
        ensures
            match cuda_frame_size(width as int, height as int) {
                Ok(frame_size) => result == Ok::<CudaBackend, String>(CudaBackend { frame_size }),
                Err(message) => result matches Err(actual) && actual@ == message,
            },
            result matches Ok(backend) ==> backend.well_formed(),
    {
        proof {
            assert(0 < width * height <= 16_384 * 16_384) by (nonlinear_arith)
                requires
                    0 < width <= 16_384,
                    0 < height <= 16_384,
            ;
        }
        let total: u64 = (width as u64) * (height as u64) * 3;
        if total > usize::MAX as u64 {
            return Err("CUDA frame size exceeds addressable memory".to_owned());
        }
        let frame_size: usize = total as usize;
        if frame_size > CUDA_FRAME_SIZE_MAX {
            return Err("CUDA frame exceeds the safety limit".to_owned());
        }
        Ok(CudaBackend { frame_size })
    }

    /// Checks what the worker is given to interpolate. The time is the bits of a
    /// single-precision number.
    pub fn interpolate_rgb24(
        &self,
        frame_before: &[u8],
        frame_after: &[u8],
        width: u32,
        height: u32,
        timestep_bits: u32,
        frame_output: &[u8],
    ) -> (result: Result<(), String>)
        requires
            width > 0,
            height > 0,
        ensures
            text::result_text(result) == cuda_check(
                self.frame_size as int,
                width as int,
                height as int,
                frame_before@.len() as int,
                frame_after@.len() as int,
                frame_output@.len() as int,
                timestep_bits,
            ),
    {
        proof {
            assert(0 < width * height <= 0xffff_ffff * 0xffff_ffff) by (nonlinear_arith)
                requires
                    0 < width <= 0xffff_ffff,
                    0 < height <= 0xffff_ffff,
            ;
        }
        let pixels: u64 = (width as u64) * (height as u64);
        let total: u128 = (pixels as u128) * 3;
        if total > usize::MAX as u128 {
            return Err("CUDA frame size exceeds addressable memory".to_owned());
        }
        let expected_size: usize = total as usize;
        if self.frame_size != expected_size || frame_before.len() != expected_size
            || frame_after.len() != expected_size || frame_output.len() != expected_size {
            return Err("CUDA worker frame dimensions changed during the job".to_owned());
        }
        if !(timestep_bits < 0x3f80_0000 || timestep_bits == 0x8000_0000) {
            return Err("CUDA worker timestep must be strictly between zero and one".to_owned());
        }
        Ok(())
    }
}

/// What runs the model in a job.
pub enum InferenceEngine {
    Vulkan(Backend),
    Cuda(CudaBackend),
}

/// What an engine is asked to do once its inputs have been checked.
#[derive(Clone, Copy, Debug, PartialEq, Eq, Structural)]
pub enum InferenceCall {
    /// Call the native backend, with rows of so many bytes.
    Native { row_stride: usize },
    /// Ask the CUDA worker.
    Worker,
}

impl InferenceEngine {
    /// Checks what the engine is given to interpolate, as its backend does.
    pub fn interpolate_rgb24(
        &self,
        frame_before: &[u8],
        frame_after: &[u8],
        width: u32,
        height: u32,
        timestep_bits: u32,
        frame_output: &[u8],
    ) -> (result: Result<InferenceCall, String>)
        requires
            width > 0,
            height > 0,
        ensures
            text::result_text(result) == match *self {
                InferenceEngine::Vulkan(_) => match vulkan_check(
                    width as int,
                    height as int,
                    frame_before@.len() as int,
                    frame_after@.len() as int,
                    frame_output@.len() as int,
                    timestep_bits,
                ) {
                    Ok(row_stride) => Ok(InferenceCall::Native { row_stride }),
                    Err(message) => Err(message),
                },
                InferenceEngine::Cuda(backend) => match cuda_check(
                    backend.frame_size as int,
                    width as int,
                    height as int,
                    frame_before@.len() as int,
                    frame_after@.len() as int,
                    frame_output@.len() as int,
                    timestep_bits,
                ) {
                    Ok(_) => Ok(InferenceCall::Worker),
                    Err(message) => Err(message),
                },
            },
    {
        match self {
            InferenceEngine::Vulkan(backend) => match backend.interpolate_rgb24(
                frame_before,
                frame_after,
                width,
                height,
                timestep_bits,
                frame_output,
            ) {
                Ok(row_stride) => Ok(InferenceCall::Native { row_stride }),
                Err(message) => Err(message),
            },
            InferenceEngine::Cuda(backend) => match backend.interpolate_rgb24(
                frame_before,
                frame_after,
                width,
                height,
                timestep_bits,
                frame_output,
            ) {
                Ok(_) => Ok(InferenceCall::Worker),
                Err(message) => Err(message),
            },
        }
    }
}

/// One argument of the CUDA worker.
pub enum WorkerArgument {
    Text(String),
    /// The program that the worker runs.
    Program,
    ModelPath,
}

/// One argument of the CUDA worker, its text as characters.
pub enum WorkerArgumentView {
    Text(Seq<char>),
    Program,
    ModelPath,
}

impl View for WorkerArgument {
    type V = WorkerArgumentView;

    open spec fn view(&self) -> WorkerArgumentView {
        match *self {
            WorkerArgument::Text(value) => WorkerArgumentView::Text(value@),
            WorkerArgument::Program => WorkerArgumentView::Program,
            WorkerArgument::ModelPath => WorkerArgumentView::ModelPath,
        }
    }
}

/// What the arguments of the CUDA worker say.
pub open spec fn worker_arguments_view(arguments: Seq<WorkerArgument>) -> Seq<WorkerArgumentView> {
    arguments.map_values(|argument: WorkerArgument| argument@)
}

/// What the CUDA worker is started with.
pub open spec fn cuda_worker_command(
    width: int,
    height: int,
    gpu_index: int,
    use_half_scale: bool,
) -> Seq<WorkerArgumentView> {
    let always = seq![
        WorkerArgumentView::Text("-u"@),
        WorkerArgumentView::Text("-c"@),
        WorkerArgumentView::Program,
        WorkerArgumentView::Text("--width"@),
        WorkerArgumentView::Text(text::decimal(width as nat)),
        WorkerArgumentView::Text("--height"@),
        WorkerArgumentView::Text(text::decimal(height as nat)),
        WorkerArgumentView::Text("--gpu"@),
        WorkerArgumentView::Text(text::signed_decimal(gpu_index)),
        WorkerArgumentView::Text("--model"@),
        WorkerArgumentView::ModelPath,
    ];
    if use_half_scale {
        always.push(WorkerArgumentView::Text("--half-scale"@))
    } else {
        always
    }
}

/// What the CUDA worker is started with.
pub fn cuda_worker_arguments(
    width: u32,
    height: u32,
    gpu_index: i32,
    use_half_scale: bool,
) -> (arguments: Vec<WorkerArgument>)
    requires
        gpu_index >= 0,
    ensures
        worker_arguments_view(arguments@) == cuda_worker_command(
            width as int,
            height as int,
            gpu_index as int,
            use_half_scale,
        ),
{
    let mut gpu_text = String::new();
    push_signed_decimal(&mut gpu_text, gpu_index);
    proof {
        assert(gpu_text@ =~= text::signed_decimal(gpu_index as int));
    }
    let mut arguments: Vec<WorkerArgument> = Vec::new();
    arguments.push(WorkerArgument::Text("-u".to_owned()));
    arguments.push(WorkerArgument::Text("-c".to_owned()));
    arguments.push(WorkerArgument::Program);
    arguments.push(WorkerArgument::Text("--width".to_owned()));
    arguments.push(WorkerArgument::Text(decimal_text(width as u128)));
    arguments.push(WorkerArgument::Text("--height".to_owned()));
    arguments.push(WorkerArgument::Text(decimal_text(height as u128)));
    arguments.push(WorkerArgument::Text("--gpu".to_owned()));
    arguments.push(WorkerArgument::Text(gpu_text));
    arguments.push(WorkerArgument::Text("--model".to_owned()));
    arguments.push(WorkerArgument::ModelPath);
    if use_half_scale {
        arguments.push(WorkerArgument::Text("--half-scale".to_owned()));
    }
    proof {
        assert(worker_arguments_view(arguments@) =~= cuda_worker_command(
            width as int,
            height as int,
            gpu_index as int,
            use_half_scale,
        ));
    }
    arguments
}

/// The model and the Python executable that the CUDA worker is started with, or which
/// of them is missing.
pub fn cuda_worker_files(model: Option<PathBuf>, python: Option<PathBuf>) -> (result: Result<
    (PathBuf, PathBuf),
    String,
>)
    ensures
        text::result_text(result) == match (model, python) {
            (None, _) => Err("bundled PyTorch RIFE 4.25 model was not found"@),
            (Some(_), None) => Err("bundled Python runtime could not be located"@),
            (Some(model), Some(python)) => Ok((model, python)),
        },
{
    match model {
        None => Err("bundled PyTorch RIFE 4.25 model was not found".to_owned()),
        Some(model) => match python {
            None => Err("bundled Python runtime could not be located".to_owned()),
            Some(python) => Ok((model, python)),
        },
    }
}

/// What the CUDA worker sends first.
pub enum WorkerGreeting {
    /// These bytes.
    Sent(Vec<u8>),
    /// Nothing in time.
    TimedOut,
    /// Nothing that could be read.
    Failed(String),
}

/// What to make of what the CUDA worker sent first: it has to be the greeting of this
/// version.
pub open spec fn greeting_check(greeting: WorkerGreeting) -> Result<(), Seq<char>> {
    match greeting {
        WorkerGreeting::Sent(bytes) => if bytes@ == seq![82u8, 73u8, 70u8, 49u8] {
            Ok(())
        } else {
            Err("PyTorch RIFE worker returned an invalid handshake"@)
        },
        WorkerGreeting::TimedOut => Err("PyTorch RIFE worker startup timed out"@),
        WorkerGreeting::Failed(error) => Err(
            "PyTorch RIFE worker failed during startup: "@ + error@,
        ),
    }
}

/// Checks what the CUDA worker sent first.
pub fn check_greeting(greeting: &WorkerGreeting) -> (result: Result<(), String>)
    ensures
        text::result_text(result) == greeting_check(*greeting),
{
    match greeting {
        WorkerGreeting::Sent(bytes) => {
            if bytes.len() == 4 && bytes[0] == 82 && bytes[1] == 73 && bytes[2] == 70 && bytes[3]
                == 49 {
                proof {
                    assert(bytes@ =~= seq![82u8, 73u8, 70u8, 49u8]);
                }
                Ok(())
            } else {
                Err("PyTorch RIFE worker returned an invalid handshake".to_owned())
            }
        },
        WorkerGreeting::TimedOut => Err("PyTorch RIFE worker startup timed out".to_owned()),
        WorkerGreeting::Failed(error) => {
            let mut message = "PyTorch RIFE worker failed during startup: ".to_owned();
            message.append(error.as_str());
            Err(message)
        },
    }
}

/// Every time at which the native backend interpolates is one that the scheduler
/// lets through, and the CUDA worker takes every one that the scheduler does.
pub proof fn backends_agree_with_the_scheduler(
    timestep_bits: u32,
    width: int,
    height: int,
    frame_size: int,
)
    requires
        width > 0,
        height > 0,
        frame_size == width * height * 3,
        frame_size <= usize::MAX,
    ensures
        vulkan_check(width, height, frame_size, frame_size, frame_size, timestep_bits) is Ok
            ==> pipeline::scheduler::timestep_inside(timestep_bits),
        pipeline::scheduler::timestep_inside(timestep_bits) <==> cuda_check(
            frame_size,
            width,
            height,
            frame_size,
            frame_size,
            frame_size,
            timestep_bits,
        ) is Ok,
{
}

/// What to do next to stop the CUDA worker.
pub enum WorkerStop {
    /// Ask whether it has ended.
    Query,
    /// Kill it.
    Kill,
    /// Wait for it.
    Reap,
    /// It is stopped, or could not be.
    Ended(Result<(), String>),
}

impl WorkerStop {
    /// How many steps are left at most.
    pub open spec fn steps_left(self) -> nat {
        match self {
            WorkerStop::Query => 3,
            WorkerStop::Kill => 2,
            WorkerStop::Reap => 1,
            WorkerStop::Ended(_) => 0,
        }
    }

    /// Whether stopping the worker failed with the given message.
    pub open spec fn failed_with(self, message: Seq<char>) -> bool {
        self matches WorkerStop::Ended(Err(actual)) && actual@ == message
    }

    /// Takes in whether the worker has ended, or why it could not be asked.
    pub fn queried(self, ended: Result<bool, String>) -> (next: WorkerStop)
        requires
            self is Query,
        ensures
            next.steps_left() < self.steps_left(),
            match ended {
                Ok(true) => next == WorkerStop::Reap,
                Ok(false) => next == WorkerStop::Kill,
                Err(error) => next.failed_with("failed to query worker: "@ + error@),
            },
            next is Ended <==> ended is Err,
            next is Kill <==> ended == Ok::<bool, String>(false),
    {
        match ended {
            Ok(true) => WorkerStop::Reap,
            Ok(false) => WorkerStop::Kill,
            Err(error) => {
                let mut message = "failed to query worker: ".to_owned();
                message.append(error.as_str());
                WorkerStop::Ended(Err(message))
            },
        }
    }

    /// Takes in how killing or waiting for the worker went.
    pub fn performed(self, result: Result<(), String>) -> (next: WorkerStop)
        requires
            self is Kill || self is Reap,
        ensures
            next.steps_left() < self.steps_left(),
            match result {
                Ok(_) => next == if self is Kill {
                    WorkerStop::Reap
                } else {
                    WorkerStop::Ended(Ok(()))
                },
                Err(error) => next.failed_with(
                    (if self is Kill {
                        "failed to stop worker: "@
                    } else {
                        "failed to reap worker: "@
                    }) + error@,
                ),
            },
            next == WorkerStop::Ended(Ok(())) <==> self is Reap && result is Ok,
            next is Reap <==> self is Kill && result is Ok,
    {
        let killing = matches!(self, WorkerStop::Kill);
        match result {
            Ok(_) => if killing {
                WorkerStop::Reap
            } else {
                WorkerStop::Ended(Ok(()))
            },
            Err(error) => {
                let mut message = if killing {
                    "failed to stop worker: ".to_owned()
                } else {
                    "failed to reap worker: ".to_owned()
                };
                message.append(error.as_str());
                WorkerStop::Ended(Err(message))
            },
        }
    }
}

/// The native backend takes exactly frames of three bytes for each of their pixels, as
/// many before, after and for the result, at a time strictly between zero and one; its
/// rows are then three bytes for each pixel of the width.
pub proof fn native_frames_are_checked_by_their_pixels(
    width: int,
    height: int,
    frame_before_size: int,
    frame_after_size: int,
    frame_output_size: int,
    timestep_bits: u32,
)
    requires
        width > 0,
        height > 0,
    ensures
        ({
            let checked = vulkan_check(
                width,
                height,
                frame_before_size,
                frame_after_size,
                frame_output_size,
                timestep_bits,
            );
            let bytes = 3 * (width * height);
            &&& checked is Ok <==> bytes <= usize::MAX && frame_before_size == bytes
                && frame_after_size == bytes && frame_output_size == bytes && 0 < timestep_bits
                < 1_065_353_216
            &&& checked matches Ok(row_stride) ==> row_stride == width + width + width
                && row_stride * height == bytes
            &&& bytes <= usize::MAX && frame_after_size != bytes ==> (checked matches Err(message)
                && text::holds_text(message, text::decimal(bytes as nat)))
        }),
{
    assert(height * (width * 3) == 3 * (width * height)) by (nonlinear_arith);
    assert((width * 3) * height == 3 * (width * height)) by (nonlinear_arith);
    assert(width * 3 <= 3 * (width * height)) by (nonlinear_arith)
        requires
            width > 0,
            height > 0,
    ;
    let bytes = 3 * (width * height);
    assert(bytes <= usize::MAX ==> text::holds_text(
        "RGB24 buffers must each contain exactly "@ + text::decimal(bytes as nat) + " bytes"@,
        text::decimal(bytes as nat),
    ));
}

/// The CUDA worker takes exactly frames of the size that it was started for, three bytes
/// for each pixel, and is started for every size of at most 128 MiB.
pub proof fn worker_frames_are_checked_by_their_pixels(
    worker_frame_size: int,
    width: int,
    height: int,
    frame_before_size: int,
    frame_after_size: int,
    frame_output_size: int,
    timestep_bits: u32,
)
    requires
        width > 0,
        height > 0,
    ensures
        ({
            let checked = cuda_check(
                worker_frame_size,
                width,
                height,
                frame_before_size,
                frame_after_size,
                frame_output_size,
                timestep_bits,
            );
            let bytes = 3 * (width * height);
            checked is Ok <==> bytes <= usize::MAX && worker_frame_size == bytes
                && frame_before_size == bytes && frame_after_size == bytes && frame_output_size
                == bytes && (timestep_bits < 1_065_353_216 || timestep_bits == 2_147_483_648)
        }),
        cuda_frame_size(width, height) is Ok <==> 3 * (width * height) <= 128 * 1024 * 1024,
        cuda_frame_size(width, height) matches Ok(size) ==> size == 3 * (width * height),
{
    assert(width * height * 3 == 3 * (width * height)) by (nonlinear_arith);
}

/// A frame that the CUDA worker was started for is one that it takes.
pub proof fn started_workers_take_their_frames(width: int, height: int, timestep_bits: u32)
    requires
        width > 0,
        height > 0,
        cuda_frame_size(width, height) is Ok,
    ensures
        ({
            let size = cuda_frame_size(width, height)->Ok_0 as int;
            cuda_check(size, width, height, size, size, size, timestep_bits) is Ok
                <==> pipeline::scheduler::timestep_inside(timestep_bits)
        }),
{
}

/// The text of a C buffer is what stands before its first zero.
pub proof fn c_texts_end_at_the_first_zero(buffer: Seq<u8>)
    ensures
        c_text(buffer).is_prefix_of(buffer),
        !c_text(buffer).contains(0u8),
        c_text(buffer).len() < buffer.len() ==> buffer[c_text(buffer).len() as int] == 0,
    decreases buffer.len(),
{
    if buffer.len() > 0 && buffer[0] != 0 {
        let rest = buffer.drop_first();
        c_texts_end_at_the_first_zero(rest);
        let whole = c_text(buffer);
        let shorter = c_text(rest);
        assert(whole =~= seq![buffer[0]] + shorter);
        assert forall|i: int| 0 <= i < whole.len() implies whole[i] == buffer[i] && whole[i]
            != 0 by {
            if i > 0 {
                assert(whole[i] == shorter[i - 1]);
                assert(shorter[i - 1] == rest[i - 1]);
                assert(shorter.contains(shorter[i - 1]));
            }
        }
        assert(whole =~= buffer.take(whole.len() as int));
        if whole.len() < buffer.len() {
            assert(rest[shorter.len() as int] == buffer[whole.len() as int]);
        }
    }
}

/// The failure of a native call begins with what the call says, and tells its status:
/// other statuses make other failures.
pub proof fn native_errors_say_what_they_are_told(
    status_one: int,
    status_other: int,
    message: Seq<char>,
)
    ensures
        message.is_prefix_of(native_error_text(status_one, message)),
        text::holds_text(
            native_error_text(status_one, message),
            text::signed_decimal(status_one),
        ),
        native_error_text(status_one, message) == native_error_text(status_other, message)
            <==> status_one == status_other,
{
    let one = native_error_text(status_one, message);
    let other = native_error_text(status_other, message);
    let digits_one = text::signed_decimal(status_one);
    let digits_other = text::signed_decimal(status_other);
    text::different_numbers_are_written_differently(status_one, status_other);
    if message.len() == 0 {
        let front = "native backend failed with status "@;
        assert(one == front + digits_one + Seq::<char>::empty());
        assert(digits_one =~= one.skip(front.len() as int));
        assert(digits_other =~= other.skip(front.len() as int));
    } else {
        let front = message + " (native status "@;
        let back = ")"@;
        assert(one == front + digits_one + back);
        assert(digits_one =~= one.subrange(front.len() as int, one.len() - back.len()));
        assert(digits_other =~= other.subrange(front.len() as int, other.len() - back.len()));
    }
    assert(message =~= one.take(message.len() as int));
}

/// What the environment names is the only place that is looked at, whatever else is
/// there; without it and without the executable there is none; else both places end
/// alike, and the one beside the executable comes first.
pub proof fn the_environment_names_the_only_place(
    environment: Option<Seq<u8>>,
    executable: Option<Seq<u8>>,
    source_tree: Seq<u8>,
)
    ensures
        environment matches Some(path) ==> pytorch_model_places(
            environment,
            executable,
            source_tree,
        ) == seq![path] && python_place(environment, executable) == Some(path),
        environment is None && executable is None ==> pytorch_model_places(
            environment,
            executable,
            source_tree,
        ).len() == 0 && python_place(environment, executable) is None,
        environment is None ==> (python_place(environment, executable) is Some
            <==> pytorch_model_places(environment, executable, source_tree).len() == 2),
        environment is None && executable is Some && host::path_parent(executable->0) is Some ==> {
            let directory = host::path_parent(executable->0)->0;
            let places = pytorch_model_places(environment, executable, source_tree);
            let name = "models/rife-v4.25/flownet_v4.25.pkl"@;
            &&& places.len() == 2
            &&& places[0] == host::path_joined(directory, name)
            &&& places[1] == host::path_joined(source_tree, name)
            &&& python_place(environment, executable) == Some(
                host::path_joined(directory, "runtime/python/bin/python3"@),
            )
        },
{
}

/// The CUDA worker is told the width, the height and the GPU, each behind its name, and
/// that the flow is of half scale exactly where it is.
pub proof fn workers_are_told_what_they_are_for(
    width: int,
    height: int,
    gpu_index: int,
    use_half_scale: bool,
)
    ensures
        ({
            let command = cuda_worker_command(width, height, gpu_index, use_half_scale);
            let told = command.take(11);
            &&& told == cuda_worker_command(width, height, gpu_index, !use_half_scale).take(11)
            &&& command[3] == WorkerArgumentView::Text("--width"@)
            &&& command[4] == WorkerArgumentView::Text(text::decimal(width as nat))
            &&& command[5] == WorkerArgumentView::Text("--height"@)
            &&& command[6] == WorkerArgumentView::Text(text::decimal(height as nat))
            &&& command[7] == WorkerArgumentView::Text("--gpu"@)
            &&& command[8] == WorkerArgumentView::Text(text::signed_decimal(gpu_index))
            &&& command[9] == WorkerArgumentView::Text("--model"@)
            &&& command[10] == WorkerArgumentView::ModelPath
            &&& command[2] == WorkerArgumentView::Program
            &&& use_half_scale ==> command.last() == WorkerArgumentView::Text("--half-scale"@)
            &&& command.len() == 12 <==> use_half_scale
        }),
{
    assert(cuda_worker_command(width, height, gpu_index, use_half_scale).take(11)
        =~= cuda_worker_command(width, height, gpu_index, !use_half_scale).take(11));
}

/// Two workers are started alike exactly where they do the same.
pub proof fn workers_are_told_apart(
    width_one: int,
    height_one: int,
    gpu_index_one: int,
    use_half_scale_one: bool,
    width_other: int,
    height_other: int,
    gpu_index_other: int,
    use_half_scale_other: bool,
)
    requires
        width_one >= 0,
        height_one >= 0,
        width_other >= 0,
        height_other >= 0,
    ensures
        cuda_worker_command(width_one, height_one, gpu_index_one, use_half_scale_one)
            == cuda_worker_command(
            width_other,
            height_other,
            gpu_index_other,
            use_half_scale_other,
        ) <==> width_one == width_other && height_one == height_other && gpu_index_one
            == gpu_index_other && use_half_scale_one == use_half_scale_other,
{
    let one = cuda_worker_command(width_one, height_one, gpu_index_one, use_half_scale_one);
    let other = cuda_worker_command(
        width_other,
        height_other,
        gpu_index_other,
        use_half_scale_other,
    );
    text::different_numbers_are_written_differently(width_one, width_other);
    text::different_numbers_are_written_differently(height_one, height_other);
    text::different_numbers_are_written_differently(gpu_index_one, gpu_index_other);
    if one == other {
        assert(one[4] == other[4] && one[6] == other[6] && one[8] == other[8]);
        assert(one.len() == other.len());
    }
}

/// A worker is ready exactly where it sent the four letters of its version, and nothing
/// else.
pub proof fn workers_greet_with_their_version(greeting: WorkerGreeting)
    ensures
        greeting_check(greeting) is Ok <==> (greeting matches WorkerGreeting::Sent(bytes)
            && bytes@.len() == 4 && bytes@[0] == 'R' as u8 && bytes@[1] == 'I' as u8 && bytes@[2]
            == 'F' as u8 && bytes@[3] == '1' as u8),
        greeting matches WorkerGreeting::Failed(error) ==> text::holds_text(
            greeting_check(greeting)->Err_0,
            error@,
        ),
{
    match greeting {
        WorkerGreeting::Sent(bytes) => {
            assert(bytes@.len() == 4 && bytes@[0] == 82 && bytes@[1] == 73 && bytes@[2] == 70
                && bytes@[3] == 49 ==> bytes@ =~= seq![82u8, 73u8, 70u8, 49u8]);
        },
        WorkerGreeting::Failed(error) => {
            assert(greeting_check(greeting)->Err_0
                == "PyTorch RIFE worker failed during startup: "@ + error@ + Seq::<char>::empty());
        },
        WorkerGreeting::TimedOut => {},
    }
}

/// Without the model nothing else matters to the reason why CUDA inference is not
/// available; with it, the reason holds what the probe said.
pub proof fn reasons_hold_what_the_probe_said(probe: DependencyProbe, other: DependencyProbe)
    ensures
        cuda_reason(false, probe) == cuda_reason(false, other),
        probe matches DependencyProbe::Exited(status) ==> text::holds_text(
            cuda_reason(true, probe),
            status@,
        ),
        probe matches DependencyProbe::Failed(error) ==> text::holds_text(
            cuda_reason(true, probe),
            error@,
        ),
        probe is Available ==> cuda_reason(true, probe) != cuda_reason(false, probe),
{
    reveal_strlit("PyTorch RIFE model is missing at models/rife-v4.25/flownet_v4.25.pkl");
    reveal_strlit("PyTorch CUDA with VapourSynth/vs-rife is available");
    assert("PyTorch RIFE model is missing at models/rife-v4.25/flownet_v4.25.pkl"@.len() != 50);
    assert("PyTorch CUDA with VapourSynth/vs-rife is available"@.len() == 50);
    match probe {
        DependencyProbe::Exited(status) => {
            assert(cuda_reason(true, probe)
                == "Python CUDA dependencies are unavailable (exit status "@ + status@ + ")"@);
        },
        DependencyProbe::Failed(error) => {
            assert(cuda_reason(true, probe) == "failed to probe Python CUDA dependencies: "@
                + error@ + Seq::<char>::empty());
        },
        DependencyProbe::Available => {},
    }
}

/// An optional path is the one with its bytes, and none stands for none.
pub proof fn optional_paths_have_their_bytes(path: PathBuf, bytes: Seq<u8>)
    ensures
        is_option_path(Some(path), Some(bytes)) <==> host::path_buf_bytes(path) == bytes,
        !is_option_path(Some(path), None),
        is_option_path(None, None),
        !is_option_path(None, Some(bytes)),
{
}

/// A worker that could not be stopped has one failure, and one that was has none.
pub proof fn unstopped_workers_have_one_failure(
    stop: WorkerStop,
    message: Seq<char>,
    other: Seq<char>,
)
    requires
        stop.failed_with(message),
    ensures
        stop.failed_with(other) ==> other == message,
        stop is Ended,
        stop != WorkerStop::Ended(Ok(())),
{
}

} // verus!
