# Interpolate

A Linux desktop application that raises the frame rate of videos with RIFE 4.25. The
decisions it takes are a library whose contracts are proved with Verus; the window, the
processes and the files are ordinary Rust around it.

## Layout

- `src/` is the verified library.
  - `cadence` measures how two frames differ, and tells held drawings and scene cuts.
  - `pipeline` holds the jobs: `frames` plans which source spans are interpolated,
    `scheduler` places the output frames on the source timeline, `process` is the frame
    loop, `probe` reads what ffprobe prints, `media` says how FFmpeg is run, by which settings, and stopped,
    `job` is the order of a job's steps, and `paths` names its files.
  - `backend` checks what goes to the inference engines and what comes back.
  - `logging` keeps the log within its limits, and `tray` says what the tray icon shows.
  - `app` is the state behind the window: `settings`, `state`, and the labels in `view`.
  - `text` and `ratio` are the numbers and texts that the contracts speak of.
  - `host` holds what is taken on the documentation of the standard library.
- `tests/` runs the library.
- `app/` is the application: the GPUI window, the tray icon, ffprobe and FFmpeg, the
  native Vulkan library, the CUDA worker and the log files.

## Numbers

The library holds no floating point. Differences, rates and progress are exact fractions.
A duration and an interpolation time are the bits of their floating-point values, which
`app/` computes.

## What the application needs

`ffmpeg` and `ffprobe` in `PATH`, a Vulkan driver with the native RIFE backend linked in,
and the model files in `models/rife-v4.25/`. CUDA inference also needs the bundled Python
runtime and the worker program `scripts/pytorch_rife_worker.py`.
