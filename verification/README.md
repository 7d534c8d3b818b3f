# byetype

The core of ByeType, a voice and screenshot input tool driven by Markdown
prompts, written in Verus: each public function carries a `requires` /
`ensures` contract, and the library's laws are proof functions that Verus
checks.

## Layout

- `src/` — the verified library.
  - `text` — character-level text operations (`trim`, `lines`, prefixes,
    decimal notation) with their specifications and lemmas.
  - `learning` — the voice-learning document: parsing its `- ` rule lines,
    appending learned rules, applying model output, merging a user's edit
    with a concurrent update, the learning session state.
  - `config`, `models` — settings, their defaults and validation; which
    model a model id resolves to and what it can do.
  - `prompt` — assembling transcription and optimization prompts from the
    Markdown documents.
  - `ai_types`, `providers` — request building and response reading for
    Gemini, DeepSeek, OpenAI-compatible and Qwen Omni endpoints, including
    thinking settings and the server-sent-event stream.
  - `retry` — which failures are retried and the back-off between attempts.
  - `audio` — content types, duration limits, the recorder's state machine,
    FLAC and Base64 encoding through their crates.
  - `local_api` — the localhost HTTP interface: template choice, replies,
    the server's start/keep/stop decisions.
  - `history`, `timing` — the bounded record history and the timing log.
  - `preview`, `bubble` — window bookkeeping: labels that are never reused,
    the active preview slot and pinned windows, bubble hide generations.
  - `backup` — S3 settings, backup keys, ordering of backups, the ZIP
    archive's contents and the restore plan.
  - `commands` — small decisions behind the application's commands.
- `tests/` — tests run against the compiled library.
- `app/` — the program around the library: files, network, audio devices,
  the HTTP server, serde copies of the library's types, and the
  floating-point audio processing.
