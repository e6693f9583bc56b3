# asterisk_apps

The decision logic of a set of Asterisk-style dialplan applications (Dial,
Queue, Read, Record, Playback, MixMonitor, PinGate, FollowMe and many
smaller ones), written in Verus and proved against its contracts.

Layout:

- `src/` — the verified library. Each application has a module holding
  its argument and option parsers, its status values and the rules it
  decides by, each with a contract. `text.rs`, `opts.rs` and `time.rs`
  hold the shared text, option-argument and duration helpers;
  `call_queue.rs` holds the call queues (members, callers, member
  selection by strategy and penalty, announcements, the queue registry);
  `media_pump.rs` holds the bounded RTP reordering window;
  `dial_teardown.rs` holds what Dial() does once its wait ends.
- `tests/` — tests of the library on concrete values.
- `app/` — ordinary Rust around the library: process-wide state (the
  queue registry and queue log, the PIN secret), file access (DISA
  password files, MiniVM deletion, MP3Player()'s decoder), the
  floating-point tone generator, and the loops that run Queue(), Dial(),
  Read(), PinGate() and Record() against a channel. The loops do the
  channel work; parsing, member selection, each wait step, Dial()'s
  teardown, the checks that end a recording and the variables set are
  library calls, and Read() and PinGate() feed the library one event at
  a time.

Calls into outside crates (`subtle`, `zeroize`, `uuid`, `rand`) and into
the parts of std the verifier has no specification for are made through a
few small trusted wrappers, each documented with what its contract claims.
