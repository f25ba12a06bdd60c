# iroh_common

Building blocks of an IPFS gateway node, with their behaviour stated in
`requires`/`ensures` contracts and proved by Verus.

- `src/bytes_reader.rs`: a reader that hands out a `bytes::Bytes` buffer in
  chunks; two reads compose into one, and reads hand the buffer out front
  to back.
- `src/error.rs`: the gateway's error value, the response it is answered
  with (empty for `HEAD`, the not-found page for browsers, JSON otherwise)
  and the text it reads as.
- `src/extractor.rs`: whether a `Content-Type` header announces a multipart
  upload.
- `src/config.rs`: the configuration of a node that runs gateway, store and
  p2p service together, and how the shared RPC and metrics settings reach
  every service.
- `src/uploads.rs`: the directory tree built from a list of uploaded files;
  every file lands once at its path and sibling directories keep distinct
  names.

`app/` holds what meets the network and the async runtime: the `AsyncRead`
over a buffer, the axum response and extractor, and the configuration as a
source of the `config` crate.
