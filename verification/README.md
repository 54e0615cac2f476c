# gossip_node

A small libp2p gossip node over QUIC, with its decisions verified by Verus.

- `src/` is the verified library: address texts and the choice of an address
  (`address`, `text`), the preparation of a dial (`dial`), exponential backoff
  (`retry`), commands, events and waiting for replies (`event`), what is done
  about swarm events (`swarm`), the protocols' settings (`config`), the roles
  and the order of their tasks (`role`), and the errors (`error`). What is taken
  on trust of libp2p and of the standard library stands in `outside`.
- `app/` is the program: sockets, the swarm, channels, timers and logging. The
  role of a node is taken from the environment variable `ROLE`: `peer` dials
  `bootstrap`; `sender` dials `peer` and publishes a message; any other node
  listens and forwards.
- `tests/` run the library with the real libp2p.
