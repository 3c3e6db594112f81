# flowgrid

An HTTP client SDK for the OpenAI and Anthropic APIs whose decision-making
core is proved correct with Verus.

## Layout

- `src/` — the verified library. It decides what a client sends and how it
  reads what comes back:
  - `config` — the client builders for OpenAI, Azure OpenAI and Anthropic,
    their defaults, validation and environment settings;
  - `transport` — default headers, user agent, response metadata;
  - `urls`, `resources::paths`, `resources::query` — base URLs, request
    URLs, item paths and form-encoded query strings;
  - `retry` — which outcomes are retried, `Retry-After` parsing, backoff and
    the per-request retry bookkeeping;
  - `error` — API error classification and header reading;
  - `sse` — an incremental server-sent-events decoder whose output does not
    depend on how the body is chunked;
  - `stream_typing`, `stream_typing_clu` — streaming `data:` payloads and
    bounded accumulation of the streamed text;
  - `pagination` — list pages and the bounded walk over cursor pages;
  - `webhooks` — `openai-signature` parsing and HMAC-SHA256 verification;
  - `json`, `numbers`, `text` — the JSON values, numbers and text the above
    work on.
- `tests/` — tests of the library on concrete values.
- `app/` — the async clients over `reqwest` and `tokio`: sending requests,
  sleeping between retries, reading response bodies and streams, and the
  `serde` conversions of the API's JSON into the library's types.

Calls into outside crates (`url`, `hmac`/`sha2`, `subtle`, `hex`,
`httpdate`) and the system clock sit behind small trusted wrappers whose
contracts say what each call returns; everything else in `src/` is verified.
