# memo_ai

A meeting assistant: it records a meeting, transcribes it, and runs a
seven-stage language-model pipeline (clean, organise speakers, extract
structure, summarise, extract action items, write the report, title) whose
results are stored per meeting. An evaluation program grades the pipeline
against fixtures.

## Layout

- `src/` — the verified library (Verus).
  - `text` — character-level string work: trimming, search, lines, decimals.
  - `llm` — prompt templates, JSON extraction, the client abstraction, a
    scripted client, and the pipeline with its record of exchanges.
  - `asr` — speech-recognition decisions: Aliyun URLs and results, the
    FunASR realtime and batch loops as state machines, Qwen3-ASR chunking,
    the Whisper invocation, the choice of recogniser.
  - `audio` — WAV encoding of 16-bit PCM.
  - `commands` — settings, transcript assembly, report rendering, pipeline
    retries, and the results of the service checks.
  - `db` — stored records and schema migrations.
  - `eval` — fixtures, code grading, the judge prompt, verdicts, the command
    line.
- `tests/` — tests of the library.
- `app/` — the program around it: HTTP and WebSocket clients, the
  database, processes, recording, and the evaluation program's `main`.
