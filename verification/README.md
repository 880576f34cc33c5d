# SyncPlay

Stream the audio of one machine to others on the same network, and play it at the
same instant everywhere. The logic is written in Verus and proved against its
contracts; the program around it is ordinary Rust.

## Layout

- `src/`: the verified library.
  - `bytes`, `net::codec`, `net::protocol`: the datagrams, byte by byte.
  - `net::sender`, `net::receiver`: who listens, what they are answered, the
    numbering of packets, and what becomes of each datagram that arrives.
  - `net::discovery`: what a sender advertises, and the list of known senders.
  - `sync::clock`: the clock and the estimate of the offset between two clocks.
  - `state::jitter`, `state::gate`: the buffer between network and output, and
    holding playback back until the common start instant.
  - `audio`: captured chunks as stereo, peak levels, devices and their
    configurations, the frames an output plays, and setting up a process tap.
  - `engine`, `engine::plan`: buffer sizes and pacing, and the order in which a
    pipeline is set up and taken down.
  - `state::app`, `ui`, `headless`: the state of the program and what the user's
    actions do to it.
  - `text`: numbers in decimal, and comparing and searching text.
- `tests/`: the library's behaviour on concrete values.
- `app/`: the program: sockets, mDNS, audio streams, threads, the window, and
  everything that computes with floating-point numbers.

Public proof functions named `law_...` state what holds of the library as a whole:
that what is sent is read back, that every endpoint plays audio a fixed delay after
its capture up to half a round trip, that the buffer keeps the order of samples and
drops none but the oldest beyond its cap.
