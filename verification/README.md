# aurora-lights-proxy

Forwards DMX frames from Aurora core (Socket.IO) to an Art-Net controller over UDP.

- `src/` is the verified library (Verus):
  - `packet.rs`: clamping of wire values into DMX levels and the `OpDmx` frame encoder,
    with the frame layout stated as spec functions and laws about it;
  - `sender.rs`: the sender's DMX buffer and run state, and the frames it hands out;
  - `config.rs`: settings, defaults, number parsing, checks, error messages and the
    redacted text a configuration is logged as;
  - `payload.rs`: decoding of `dmx_packet` payloads into channel levels;
  - `auth.rs`: login URL, session cookie and failure detail;
  - `session.rs`: retry backoff, reconnect watchdog, status-update schedule and fields,
    and latency.
- `app/` is the program: environment, HTTP login, Socket.IO clients, the UDP socket and
  the send loop's thread, logging.
- `tests/` exercise the library.
