# cloud_music

A terminal client for the NetEase Cloud Music web API, with its core verified
by Verus.

- `src/` is the verified library: request parameters (`params`), the requests
  of each endpoint (`api`), URL resolution, headers, bodies and cookie
  handling (`http`), the `weapi` encryption of request bodies (`weapi`: the
  parameters as JSON, AES-128-CBC under a fixed and then a random key, the
  random key under the service's RSA key), the download request
  (`downloader`), the playback task and its cache file (`player`), the QR-code login (`login`), the data model
  (`model`) and the application state with its key handling (`state`).
- `app/` is the program around it: HTTP with `reqwest`, JSON with `serde`,
  audio with `rodio`, the terminal interface with `tui` and `crossterm`.
- `tests/` exercises the library on concrete values.
