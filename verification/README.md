# codex_openai_proxy

A proxy that serves an OpenAI-compatible API (chat completions, responses,
images, models, usage) from a ChatGPT/Codex subscription.

- `src/` is the library, verified with Verus: how tokens and requests are read,
  what is sent to the upstream, and what the client is answered, with contracts.
- `app/` is the program around it: the command line, the HTTP server and client,
  the auth file, and the types as they travel over the wire.
- `tests/` runs the library on concrete values.

## The library

| Module | What it holds |
| --- | --- |
| `text`, `bytes`, `encoding`, `clock`, `json`, `json_codec`, `headers` | texts, encodings, time, JSON and headers, with the boundary to `std`, `base64`, `sha2`, `rand`, `urlencoding`, `chrono`, `serde_json` and `axum` |
| `config`, `gate`, `errors` | constants, the auth file's place, the user agent, who is let in, error bodies |
| `auth`, `login` | tokens, their expiry, the auth file, the OAuth and device-code flows |
| `flow` | which account a request is sent with, and when it is tried again |
| `chat`, `chat_reply`, `chat_stream`, `chat_collect` | chat requests and replies, streamed or whole |
| `proxy`, `sse` | Responses requests and server-sent events |
| `images`, `multipart` | image requests, forms and replies |
| `models`, `usage` | the list of models, and rate limits |

Outside calls stand behind items marked `external_body` or
`assume_specification`; the comment above each says what is claimed of the
outside function. The properties that span several functions are the public proof
functions whose names begin with `law_`.
