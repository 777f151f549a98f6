# hls_stream

Reading media over HTTP, with the decisions proved correct in Verus.

The library decides what to ask a server for, checks what comes back, and says
which bytes go to the reader. It does no input or output itself.

- `src/non_live.rs`: a resource of known length, range by range.
- `src/live.rs`, with its model in `src/live_model.rs` and its steps in
  `src/chunk.rs`: a live stream, segment by segment, from a media playlist.
- `src/media_range.rs`, `src/remote_data.rs`, `src/encryption.rs`,
  `src/resource_url.rs`, `src/playlist.rs`, `src/status.rs`, `src/buffer.rs`,
  `src/hexadecimal.rs`, `src/range.rs`, `src/text.rs`: what both are made of.
- `src/laws/`: what holds of the library as a whole.
- `app/`: streams that do the asking, on top of `reqwest` and `tokio`.

A `Range` header that a server ignores, a reply that is shorter than asked for,
a playlist with a segment that cannot be resolved and a clock that is set back
are all part of the contracts.
