# racer

Firmware logic for the circuit board of a small toy car: an ESP32-C3 with a 72 by 40 pixel
SSD1306 display, a BMI160 accelerometer, two mirrored sets of 32 WS2812B LEDs, a button,
and a web page served over the car's own WiFi network.

`src/` is the library, verified with Verus against the contracts it states. The proofs
rest on the contracts of the items below, which are believed, not proved; each has a doc
comment that says what it claims.

| believed | of |
| --- | --- |
| `buffer`: `ExBoundedString`, `text_16`, `text_32`, `text_1024`, `text_4096` | `heapless::String` and the text it holds |
| `buffer`: `new_16`, `new_32`, `new_1024`, `new_4096`, `push`, `push_str`, `clear`, `as_str` | the methods of `heapless::String` |
| `buffer`: `ExUtf8Error`, the specification of `from_utf8` | `core::str::from_utf8` |
| `http`: `ExBoundedVec`, `held_bytes`, `new_bytes`, `append_bytes`, `bytes_of` | `heapless::Vec`, the bytes it holds, and its methods |
| `http`: `parsed_head`, `parse_head` | `httparse::Request::parse` |
| `display`: `text_bitmap`, `render_text` | `embedded_graphics::text::Text` on a `Framebuffer` |

| module | what it holds |
| --- | --- |
| `color`, `effect`, `pulse` | colours, light effects, and the pulse train to the LEDs |
| `motion`, `race`, `button`, `tick` | sensor readings, the race state machine, the button, the main loop's tick |
| `display`, `frame` | the display's frame and packets, and what display and LEDs show |
| `text`, `status`, `page` | numbers and race times, the status as JSON, the web page |
| `sha1`, `base64`, `websocket` | the handshake key and the frames of a live connection |
| `http`, `server` | requests and replies, and a connection from its first read to its end |
| `buffer` | text buffers of fixed capacity |

Facts about the library as a whole are public proof functions whose names start with
`law_`.

`app/` is the firmware around the library: tasks, buses, pins and sockets.
