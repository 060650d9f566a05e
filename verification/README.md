# music_controller

Firmware for an ESP32 "cheap yellow display" that shows and controls what
Spotify is playing, with its logic verified by Verus.

- `src/` is the verified library: the Improv Wi-Fi serial protocol (payloads,
  checksums, framing, byte-by-byte recognition and the provisioning answers),
  the Spotify client (every request it sends, the token and player answers it
  reads), the set-up web server's requests, button debouncing and the display
  layout (backlight duties, album-art colour, katakana narrowing, wrapping).
  Proof functions in `improv_laws.rs`, `laws.rs` and `button.rs` state the
  properties that span several functions.
- `app/` is the firmware around it: peripherals, Wi-Fi, HTTP, NVS storage,
  the serial port and drawing, for the `esp-idf` toolchain.
- `tests/` runs the library on concrete inputs.
