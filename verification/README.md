# rcdesk_host

The host side of rcdesk, a remote desktop: it captures the screen, encodes it
as H.264, sends it to a viewer over WebRTC, and injects the viewer's mouse and
keyboard input.

`src/` is the library, verified with Verus. It decides; it touches no screen,
no file, no socket and no clock. What the system says comes in as plain values
(instants are nanoseconds, shares and coordinates are fixed-point numbers), and
what is to be done goes out as plain values.

- `adapt`: bitrate and frame rate follow the network and the encoder
- `capture`, `encode`, `pipeline`: frames, pixel formats, encoder backends, pacing
- `input`, `cursor`, `clipboard`: what a session keeps in step with the viewer
- `access`, `opaque`, `dtls_bind`, `crypto`, `device`, `fsutil`: passwords, logins
  and the files that hold secrets
- `agent`, `app`, `bench`, `cli`, `platform`: the tray agent, the command line,
  start at login, and what differs between the platforms
- `proto`, `text`, `arith`: shared vocabulary and helpers

A few functions call other crates (OPAQUE, Argon2, HMAC, base64, the software
H.264 encoder). What is taken from them without proof is stated at each of these
calls, in `opaque`, `crypto`, `encode::convert`, `encode::software`, `text`,
`bench` and `platform::windows::wide`.

`app/` is the program around the library: arguments, files, threads and the
systems' own interfaces. Its macOS and Windows parts need the crates arboard,
enigo, the objc2 family, scap, tray-icon and windows on top of those in
`Cargo.toml`.

`tests/` runs the library, with the other crates linked.
