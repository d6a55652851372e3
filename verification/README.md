# im-switch

Query, switch and list input methods (fcitx5 or ibus on Linux), run a
loopback daemon that serves these commands over TCP, or forward a command to
such a daemon.

- `src/` is the library, verified with Verus: the daemon's line protocol
  (request parsing, responses, the client's reading of replies, address
  resolution, the loopback-only bind), framework detection, the fcitx5 D-Bus
  backend, the meaning of ibus command runs, Windows KLID formatting, and the
  text operations underneath. `src/cli/laws.rs` holds the protocol's
  round-trip properties.
- `app/` is the `im-switch` command line: argument parsing, the TCP server
  and client, running `ibus`, and the per-process framework cache.
- `tests/` exercises the library on concrete values.
