# ente_api

An adapter in front of a single self-hosted photo "museum". It logs in with the
account's credentials (SRP, optional TOTP), keeps the decrypted keys in memory,
and offers a small REST API to list, fetch (decrypted) and delete images.

The library is written in Verus: what is asked of the museum, what its answers
mean, and what the adapter answers is stated in contracts and proved. The server
around it sends the requests and serves the answers.

## Layout

- `src/` is the verified library.
  - `text`, `json`, `doc`, `float`, `text_map`, `tables`, `order`: texts, received
    and sent JSON, doubles by their bits, tables, sorting.
  - `encoding`, `crypto`, `bigint`, `random`, `srp`: base64, keys, boxes and
    streams, big numbers, the SRP client.
  - `config`, `client`: the settings; requests to the museum and their answers.
  - `account`: the login. `files`, `people`, `faces`, `sync`: loading of a library.
  - `sessions`, `api`: the session store; the answers of the REST API.
- `app/` is the axum server.
- `tests/` runs the library with the crates it calls.

A flow that takes several requests (a login, a synchronisation) is a function
from a stage and an answer to the next request or the end. The server runs the
loop.

## What is trusted

Calls into `dryoc`, `base64`, `flate2`, `num-bigint`, `sha2`, `rand`, `serde_json`
and a few functions of the standard library stand behind small wrappers. Each
says above it what it claims of the function it calls. All else in `src/` is
proved from them.
