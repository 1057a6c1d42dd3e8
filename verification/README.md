# codex_proxy

A local proxy for codex: it offers the OpenAI Responses API at `/v1/responses`, forwards each
request to an upstream that speaks the Chat Completions API, and logs why the model stopped and
what it used.

The library under `src/` is verified with Verus:

- `json`: JSON values, read and written by `serde_json`
- `convert`: requests into chat requests (`messages`, `tools`, `request`), completions into
  responses (`response`), identifiers and the time (`fresh`)
- `report`: what is logged of a request and of a response
- `headers`: what is sent upstream, and how headers are shown
- `proxy`: the decisions of an exchange, step by step
- `text`: texts, their order, and numbers in decimal
- `convert::laws` and `laws`: what holds of all this as a whole

`app/` is the program around it: the server, the client and the log. It takes the place of the
upstream from `UPSTREAM_URL`, a key for requests without an authorization from `UPSTREAM_API_KEY`,
and the address to listen on from `LISTEN`. Streams are not translated.
