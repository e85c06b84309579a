# ipc_source

A media source that consumes an already-encoded bitstream, produced by a helper process, over a
Unix domain socket, and sends it on as RTP packets.

- `src/` is the library, verified with Verus: the framing on the socket, the scan for the H.264
  profile, the RTP clock, the packetization around `rtc_rtp`, the connect-read-reconnect loop as a
  state machine, and the handle with its codec parameters. `src/run_laws.rs`, `src/source_laws.rs` and the functions named
  `law_..` state what holds of it as a whole.
- `app/` runs the machine on tokio: it owns the socket, the task and the channels.
- `tests/` exercises the library with the real payloaders.

What is taken on trust of `rtc_rtp` and `rand` stands in `src/rtp.rs`, each item with what is claimed
of it.

A caller asks `Run::can_take` before it hands an event to `step`: some frames are ones that a codec's
payloader cannot be given.
