# Gramslator

Firmware for a wearable live-translation display built on the ELECROW
CrowPanel Advance 3.5" (ESP32-S3): it streams microphone audio to Deepgram
for transcription, translates the transcript with Google Translate and shows
both on the 480x320 screen.

## Layout

- `src/` — the hardware-independent logic, verified with Verus:
  - `app_state` — the shared transcript, translation and service statuses;
  - `translation` — request framing and response parsing for Google
    Translate, the transcript helpers and cache, and the debounce decisions
    of the translation task; `translate` is the fixed English-to-Spanish
    variant;
  - `networking` — HTTP header scanning, the connection buffer pool, the
    Deepgram WebSocket handshake and transport settings, frame handling and
    the streaming task's state machine; `net` holds the TLS connection and
    upgrade helpers;
  - `rendering` — geometry, the framebuffer with dirty-region tracking, the
    glyph cache, alpha blending, layout, status texts and the per-frame
    redraw plan;
  - `elecrow_board` — touch mapping and debounce, microphone clocks and
    down-mixing, the display's wire format, the WiFi bring-up state machine;
  - `flash_data` — planning MMU mappings of flash partitions;
  - `scan` — byte-sequence search and trimming shared by the parsers.
- `app/` — the firmware around the library: hardware bring-up, the Embassy
  tasks and their I/O, TLS, and the floating-point font rasterisation.
- `tests/` — tests of the library on concrete values.
