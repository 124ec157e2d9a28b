# deskunion

A software KVM: one machine captures keyboard and mouse and sends them, over
DTLS, to the machines at the edges of its screen, which may send their audio
back. This crate is the logic of it, with contracts that Verus proves.

- `src/` is the verified library.
  - `wire`, `proto`, `datagram`: what is sent, and how it is read and written
  - `net`, `text`: addresses, texts, and collections of them
  - `ipc`: what frontends and the service tell each other
  - `client`: the clients that are known
  - `listen`, `connect`: the two ends of a connection
  - `capture`, `emulation`: the tasks of a server and of a client
  - `audio`: devices, framing, jitter buffer, playback
  - `service`: the rules that tie these together; its `laws` hold for every
    sequence of requests and events
  - `gui`: what the window shows and asks for
- `tests/` runs the library on concrete values.
- `app/` is the program around it: sockets, DTLS, devices, threads, the window.

Samples, levels and pointer motion are floating-point numbers. The library
carries them as bit patterns and leaves arithmetic on them to `app/`.
