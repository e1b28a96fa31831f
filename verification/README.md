# temperpaw

Verified decision logic of the TemperPaw transports and setup flow, written
in Verus.

- `src/backoff.rs`, `src/duration.rs`: Discord gateway close-code
  classification, the identify budget, and exponential reconnect backoff,
  with laws on the delay schedule.
- `src/fatal_alert.rs`: classification of fatal transport failures, the
  alert text, dedupe and rate limiting of alerts, and the Discord REST post
  that carries them.
- `src/setup_llm.rs`, `src/jwt.rs`: LLM provider detection, the requests
  each provider takes, the reading of their replies (JSON and
  server-sent-event streams), and the interview and soul texts.
- `src/json.rs`, `src/http.rs`, `src/text.rs`: the JSON model, outgoing
  requests as data, and character-level text handling.

`app/` holds the I/O: HTTP calls, JSON parsing, the host entry point of the
alert, and the floating-point jitter of the reconnect delay.
