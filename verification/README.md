# Alpine

One `Request` type, one `Response` type, and interchangeable LLM providers: a small client
library whose logic is verified with [Verus](https://github.com/verus-lang/verus).

- `src/` is the verified library. It decides what is sent to a provider, how a reply or a
  stream is read, which layer of middleware a request meets next, and what a run with tools
  does after each answer. Every function states what it returns, and the laws of the library
  are proved beside the functions they speak of.
- `app/` does the input and output around it: the asynchronous traits, the HTTP client, and
  the types that are serialised or used as `std` errors.
- `tests/` runs the library on concrete values.

## Modules of the library

| Module | What it holds |
|--------|---------------|
| `types` | requests, responses, messages, tool definitions, stream chunks |
| `error` | what can go wrong, and the messages for it |
| `json` | `serde_json` values: what they hold, and how they are read and built |
| `text` | lines, trimming, joining, decimal numerals |
| `transport` | requests to the network and the events that come back |
| `providers::anthropic` | bodies and replies of the Messages API |
| `providers::sse` | server-sent events and the state of a stream |
| `providers::ollama` | bodies, replies and streams of the Ollama API |
| `client` | the middleware chain |
| `tool` | the toolbox and the loop that runs tools |

## Two representations

A sampling temperature is held as the JSON value that is sent, and the components of an
embedding as the bit patterns of their single-precision numbers. `app/` converts both.

## What is trusted

`serde_json::Value`, `serde_json::Error`, `reqwest::Error` and `std::str::Utf8Error` are
opaque to the verifier. The few operations on them that the library calls are specified in
`json` and `text`, and two uses of `format!` in `types`.
