# cameras

A verified library for cameras: USB devices, network streams, the frames they deliver and
what a viewer does with them. The library decides and computes; the program beside it talks
to drivers, sockets, threads and windows.

- `src/` is the library. Every function states what it returns, and the statements are
  proved by Verus.
  - `types`, `error`, `source`, `net`, `text`, `buffer`, `channel`: the vocabulary.
  - `convert`, `jpeg`, `analysis`, `bmp`, `picture`, `tiling`: pixels.
  - `negotiation`, `linux`, `macos`, `windows`, `decode`, `monitor`: drivers and decoders.
  - `camera`, `pump`, `backend`, `rtsp`, `streaming`: streams.
  - `wire`, `discover`, `session`: finding cameras on a network.
  - `controls`, `autofocus`, `viewer`: what a user sees and sets.
  - `laws`: what holds across several functions.
- `tests/` runs the library on concrete values.
- `app/` is the program: a command line, a window, and components for a web view. Sharpness
  scores and focus positions are floating-point numbers there.

A few functions of other crates are called through wrappers whose contracts are taken on
trust. Each of them says in its documentation what it claims.
