# bution

BUTION runs GGUF models with llama.cpp on one computer, or on two computers of
a trusted LAN through llama.cpp RPC, with a chat in the terminal.

## Layout

- `src/` is the library, verified with Verus: pairing and trust decisions,
  the encrypted control protocol's framing and request handling, discovery
  records, the LAN routes a network test may use, model checks and memory fit, llama.cpp
  command lines, Hugging Face file selection and resumable downloads, release
  version comparison and archive handling, settings and the trust store, and
  the terminal interface's state machine. Contracts are stated over `Seq`,
  `Map` and the views of the library's types; laws that span several calls
  are public proof functions (`lemma_*`).
- `app/` is the `bution` program around the library: command line, files,
  network, processes, mDNS, the Noise channel, telemetry, llama-bench runs,
  the floating-point route scoring and distribution planner and the ratatui drawing.
- `tests/` runs the library on concrete values.
