# ani_core

The verified core of an anime library manager: the rules behind its remote gateway,
media sessions, model sidecar, automatic episode scan, season discovery, download
bookkeeping and player commands. Every function in `src/` is checked by Verus against
its `requires`/`ensures` contract; the laws the library keeps are public proof
functions next to the code they speak about.

Layout:

- `src/` — the library, one module per concern:
  `text` (character-sequence primitives), `domain` and `contracts` (records shared by
  the other modules), `rpc` and `redaction` (request checks, authorisation and result
  redaction of the remote procedure calls), `gateway` (routing, credentials, rate
  limits, byte ranges, renderer paths), `remote_media`, `playable` and `transcode`
  (playback sessions, FFmpeg arguments, encoder and profile order, HLS start plans),
  `sidecar` (the frame protocol of the model sidecar, bundle and file digests),
  `model_pipeline` (the frame loop of the model HLS pipeline as a state machine), `player`
  (frame queue, enhancement scheduling, command checks, exact frame-time budgets over
  `dyadic`), `media` (FFprobe reports into media records), `downloads` (download
  inputs, task matching and merging), `scan`, `selection` and `automation` (the automatic scan and its run state machine),
  `discovery` (season catalogue detail planning and corrections).
- `tests/` — executable tests of the library.
- `app/` — the host around it: JSON conversion, the RPC service with its handler
  port, the rate limiter over a clock, the automatic scan run loop, the model pipeline frame loop, FFprobe and FFmpeg processes, sidecar file and
  pipe I/O, and player command intake.

Calls into outside crates (`url`, `percent-encoding`, `subtle`, `sha1`, `sha2`,
`chrono`, `base64`, `rand`) go through small trusted wrappers whose contracts say
what the crates document; their doc comments name the function each one calls.
