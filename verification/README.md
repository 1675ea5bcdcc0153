# bisc

The verified core of a peer-to-peer voice, video, screen-sharing and
file-sharing application, written in Verus.

`src/` is the library. Its functions carry contracts that Verus proves,
except for a few small trusted wrappers around outside code (the clocks in
`clock`, SHA-256 in `files`, hexadecimal encoding in `protocol`): their
contracts are assumed, and their doc comments say what they claim. It
holds:

- `protocol`: the values peers exchange (media packets, channel messages,
  offers and answers, file manifests and chunks, identities).
- `fragmentation`, `jitter_buffer`, `media_transport`, `control`,
  `congestion`, `negotiation`: the media transport path, from splitting an
  encoded frame into datagrams to reassembling it, ordering packets for
  playout, sequence numbering and loss detection, receiver reports and RTT
  smoothing, bitrate adaptation and codec selection.
- `media`, `pipeline`, `capture`, `codec`: pipeline configuration and
  counters, the send and receive decisions of the voice, camera and
  screen-share pipelines, pixel and sample handling of captured data, and the
  input rules of the codecs.
- `net`: the channel's peer table, which turns gossip messages, connections
  and timeouts into table updates and actions.
- `files`: file manifests, chunking, integrity checks, chunk serving and the
  swarm download plan.
- `settings`, `shell`, `timing`, `sim`: user settings and quality presets,
  screen navigation, test phase timing and the simulated network's routing.

Laws that relate several operations are public proof functions named
`law_*`.

`app/` is the program around the library: reading and writing the settings
file, file transfer over byte streams, and the floating-point parts
(congestion loss rates, jitter averaging, volume, mixing and colour-space
conversion).

`tests/` exercises the library on concrete values.
