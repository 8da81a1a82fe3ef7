# modelhub_windows

A local model inventory for Windows: it finds the models kept in the
Hugging Face cache, in LM Studio's models folder and in Ollama, searches
and downloads from the Hugging Face hub into a cache-compatible layout, and
guards every file action behind path checks.

The library in `src/` is written in Verus. Every function states what it
returns in `requires`/`ensures` contracts over mathematical models
(`Seq`, `Set`, `int`), and Verus proves each body against its contract.

- `models` — the records the app works with, settings patches and their
  privacy invariants.
- `paths` — where models are looked for, and the issues a folder has.
- `scanner` — the Hugging Face cache layout, LM Studio folders, GGUF
  headers, model cards and `config.json`, Ollama's API answers, and the
  combined scan.
- `hf` — Hugging Face search and details requests and answers, and the
  cache layout downloads are installed into.
- `downloads` — download jobs: requests, progress, cancellation, restart
  recovery, and the step-by-step transfer.
- `model_actions` — which paths may be opened or moved to the Recycle Bin.
- `settings`, `errors`, `system_info`, `runtimes` — settings checks, error
  messages, hardware summaries and the Ollama runtime status.
- `text`, `json`, `sort` — the text, JSON and ordering primitives the rest
  is stated over.

Public proof functions state the library's laws, for example that decoding
an encoded cache folder name gives the repository id back, that an accepted
download path cannot leave its folder, that shared blobs are never
deleted, that a transfer stops once its job is asked to stop, that
sanitizing settings twice is sanitizing once, that a settings change keeps
what it leaves out, and that merging metadata with itself changes nothing.

`app/` is the command-line program around the library: it reads the disk,
the network and the machine, and hands plain values to the library.
`tests/` runs the library on concrete inputs.
