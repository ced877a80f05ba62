# deepfilter_audio

The core of a noise-suppression recorder: audio is captured, filtered with
the DeepFilterNet networks frame by frame, saved as WAV and played back,
with two filter streams that can be switched on and off at run time.

`src/` is verified with Verus:

- `engine` – the engine's control state machine (recording, playback,
  stream switches) and the status reported to the user interface;
- `recorder`, `player` – capture and playback state driven by the audio
  device callbacks;
- `frames` – cutting a recording into filter frames and joining the
  filtered frames, with fallback to unfiltered audio;
- `stream` – per-stream frame decisions (size check, pass-through,
  warm-up) and the index arithmetic of the deep filter's ring buffer;
- `model` – reading the model archive (gzip + tar, through `flate2` and
  `tar`) and its `config.ini` (through `rust-ini`);
- `metrics` – NNAPI status and the `/proc/stat` CPU counters;
- `wav` – the WAV layouts written and read;
- `text`, `seqs` – decimal parsing and vector helpers.

`app/` holds what Verus does not see: the audio devices (cpal, Oboe), WAV
files (hound), ONNX Runtime sessions, the floating-point signal path and
the process-wide engine API.
