# mhttpd

A small HTTP/1.1 and HTTP/2 server library, verified with Verus, and the
servers built on it.

## Layout

- `src/` — the library. Every function is verified against its contract.
  - `http/` — methods, versions, schemes, status codes, header fields,
    requests and responses with their builders;
    - `v1/` — the HTTP/1.1 wire format of requests and responses, and the law
      that a written request reads back as itself (`v1/roundtrip.rs`);
    - `v2/` — HTTP/2 frames, SETTINGS parameters, error codes, the connection
      preface, the frame codec with its HPACK state, and the connection state
      machine that turns frames into requests;
    - `codec/` — the `Encode`/`Decode` traits, a line codec and a frame
      encoder over `bytes::BytesMut`.
  - `header_block.rs` — how many bytes each field of an HPACK header block
    takes, so that blocks the `hpack` decoder would not take are refused.
  - `server.rs` — the router that answers requests.
  - `download.rs` — how a download is split into ranged requests.
  - `text.rs`, `wire.rs` — text and byte helpers, and the contracts of the
    outside functions that the library calls (`bytes`, `hpack`, `std`).
- `tests/` — the tests of the library.
- `app/` — the programs: a blocking HTTP/1.1 server, a blocking HTTP/2
  server, an asynchronous HTTP/2 server on `tokio`, a downloader on
  `reqwest` that fetches a file in pieces, and thin wrappers over POSIX calls
  (`app/apue/`).
