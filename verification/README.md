# qwen3_tts_hip

A Qwen3 text-to-speech runtime for AMD GPUs. `src/` holds what is decided and computed on
plain values, written in Verus and proved; `app/` is the ordinary Rust around it: the ROCm
libraries, device memory, files, sockets and floating-point arithmetic.

## The library

- `generation`: options, rollouts, streams on fixed and on incoming text, audio windows, the
  growing key-value cache and the engine that ties them together.
- `codec`: the weights of the codec and the device plans of its quantiser, transformer,
  upsampling stages and decoder.
- `layer`: the dimensions, shapes and device plans of a talker layer, with and without a cache.
- `device`: device operations, plans made of them, and how each one is launched.
- `gpu`: buffers, matrix products, status codes, library search and profiler ranges.
- `decoder12`: widths, tensors and index arithmetic of the decoder for 12 Hz codes.
- `server`: requests, forms, responses and jobs of the demo server.
- `archive`, `tensor`, `npy`, `fixtures`, `wav`: stored tensors, arrays, codes and audio.
- `numbers`, `scan`, `text`, `lists`, `error`: parsing, searching, copying and building text.

Floating-point numbers occur in the library only as their bits.

A device plan is a list of calls on numbered buffers. The laws about plans say what a run of a
plan leaves in its buffers, whatever the single kernels compute, and that no call touches a
buffer outside its length.

What is taken on trust is what the doc comments of the wrappers in `archive` and `text` claim
of the `safetensors` and `serde_json` crates and of the standard library.
