# govee

Control Govee LED strips over the local network (LAN API, UDP): discovery,
power, brightness, colour, colour temperature, DreamView per-segment colour,
animated themes, and continuous modes that follow the screen, the sound, the
wallpaper scheme or the time of day.

## Layout

- `src/` — the library, verified with Verus. Each module states its
  behaviour in `requires`/`ensures` and proves it:
  - `protocol` — DreamView packets (framing, checksum), their base64
    payloads, the JSON commands, and the device address check;
  - `address`, `discovery` — IPv4 parsing as `std` reads it, scan replies,
    choice of the target device;
  - `dreamview` — segment counts, mirroring, merging oversampled colours,
    session start/stop commands;
  - `frame` — prominent colour per screen strip (luma histogram, brightest
    fifth);
  - `colors`, `themes`, `ui` — hex colours, scene presets, the theme
    registry (user themes override built-ins), frame delays, and the
    terminal renderings (bars, swatches, theme list);
  - `sunlight` — the day/night phase on a circular clock and `HH:MM` times;
  - `ambient` — the wallpaper-scheme colour and when to resend it;
  - `cli`, `gui`, `gui_state` — command-line values and the decisions of
    the graphical front end as a state machine with effects.
- `tests/` — tests of the library on concrete values.
- `app/` — the command-line program: argument parsing, sockets, screen
  capture, audio analysis, file watching, and the floating-point animation
  and blending code.
