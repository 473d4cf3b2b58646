# sras-cli

Host-side tools of the connected plant: an emulator of the PCD8544
character display driven by the Arduino over a serial line, an interactive
shell to upload plant settings and water on demand, and a small TCP server
that forwards sensor readings to a client.

Layout:

- `src/` — the verified library (Verus):
  - `glyph.rs`, `charset.rs`, `pcd8544.rs`: glyphs, the default character
    set and the display emulator with its abstract state and laws;
  - `decimal.rs`, `text.rs`, `event.rs`: the serial command protocol
    (parsing, with round-trip laws);
  - `wire.rs`, `server.rs`: 32-bit words on the wire and the TCP protocol;
  - `controller.rs`: the main loop's decisions for each event;
  - `shell.rs`, `completion.rs`: shell commands and line completion;
  - `plant_config.rs`: plant settings.
- `app/` — the program around it: serial port, window, threads, terminal,
  TCP sockets and file reading.
- `tests/` — tests of the library.
