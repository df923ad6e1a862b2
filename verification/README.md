# freenet_core

Decisions of a peer-to-peer node, verified with Verus, and the asynchronous code around them.

- `src/contract`: the channel between a node and its contract handler, and the events on it.
- `src/node`: what a node does with its events, and a simulated network in memory: its labels,
  configurations, chain of events and connectivity.
- `src/transport`: a connection to a remote peer: how messages are sent and received, packets
  confirmed and sent again, streams kept apart, and a silent connection closed.
- `src/text.rs`: numbers, hexadecimal digits and the order of texts.
- `app`: channels, tasks, timers, sockets and files; it performs what the library decides.
- `tests`: the library on concrete values.

The library takes no time, no random key and no packet from anywhere by itself: each of its
functions is handed what happened and says what to do next. Times are nanoseconds on one monotonic
clock, addresses and keys are numbers, and places on the ring are the bits of a floating point
number.

Two crates are called from the library: `rand`, for the choice of the peer of an event
(`src/node/random.rs`), and `freenet-stdlib`, for the texts of keys and states
(`src/contract/rendering.rs`). What is claimed of these calls stands there, without proof.
