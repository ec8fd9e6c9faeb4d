# mprism

A verified core for a desktop chat client that talks to four wire protocols: OpenAI
Chat Completions, OpenAI Responses, Anthropic Messages and Gemini GenerateContent.
It streams replies, can stop them partway, and sends an API key only when one is set.

The library in `src/` is written in Verus. Every function there carries a
`requires`/`ensures` contract that Verus proves. It covers:

- requests: validation, and the per-protocol URL, JSON body and headers
  (`prepare`, `*_wire`, `headers`, `endpoint`);
- responses: SSE framing, the four event decoders and the stream driver that turns
  body input into stream items (`sse`, `*_events`, `openai_chunk`, `stream_driver`);
- errors: HTTP error mapping, `Retry-After`, secret redaction (`error`, `http_error`);
- storage: the message log, session metadata, settings and log files (`message_log`,
  `session_meta`, `settings_doc`, `files`, `log_redact`);
- state: generation bookkeeping and pending tool calls (`generation`, `registry`,
  `pending`).

Calls into `url`, `http`, `serde_json`, `base64` and `uuid` go through small trusted
wrappers. Each states in its doc comment what it claims of the outside function.
Laws that span several functions are public proof functions named `law_*`.

`app/` is the unverified shell around the library. It holds the async HTTP transport,
file I/O and the command layer, and hands the library plain values. `tests/` runs the
library on concrete inputs.
