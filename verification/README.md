# haas_effect

The signal logic of a Haas-effect stereo delay plugin, written in Verus.

- `src/delay_line.rs`: the two-channel delay line (round-robin write position, clamped
  delay taps, per-channel routing) and the laws that a tap reads the frame stored `d`
  frames earlier, that taps reaching further back read the earlier state, and that a reset
  leaves only silence.
- `src/sample_player.rs`: the trigger-driven one-shot sample player and its playback laws.
- `src/haas_buffer.rs`, `src/ring.rs`: a FIFO of samples on an `rtrb` ring buffer, sized
  from a delay in milliseconds, with its first-in first-out laws.
- `src/custom_formatters.rs`: splitting typed time values into number and unit, and
  choosing how to show a time.
- `src/channel.rs`, `src/util.rs`: the stereo channel type and the millisecond-to-sample
  conversion.

Samples are carried as the bit patterns of `f32` values; every floating-point computation
(smoothing, mixing, feedback, limiting, parsing and printing numbers) lives in `app/`,
together with the plugin-framework glue.
