# ds4

The library of an inference engine for DeepSeek V4 Flash, with its behaviour stated in
contracts that Verus proves.

`src/` holds what the engine decides and computes: the GGUF reader, the check of a model's
configuration and tensors, the vocabulary and the tokenizer, chat prompts and tool calls,
sessions with their caches and checkpoints, sampling, the HTTP server's requests and
answers, the command lines and the interactive prompt. Floating-point numbers stand there
as bit patterns.

`app/` is the program around it: files, sockets, signals, the graphics device, and the
kernels that compute in floating point. `tests/` runs the library on concrete values.

Texts in JSON are read and written by `serde_json`, little-endian numbers by `byteorder`,
and random numbers come from `rand`; each call stands behind an item whose contract says
what is believed of it.
