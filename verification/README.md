# zmq_broker

A small ZeroMQ pub/sub broker with Rust publishers, subscribers and a web
bridge. The decisions of all four programs live in the verified library
under `src/`; `app/` holds the sockets, threads, clock, and the JSON
encoding of the library's values.

- `src/messages.rs`: the protocol messages and their actions.
- `src/text.rs`: namespaced topics `<publisher_id>:<topic>` and suffix tests.
- `src/broker.rs`: the publisher registry (registration, topic discovery,
  pongs, eviction, pings) and the routing of the broker's sockets.
- `src/subscriber.rs`: topic filters and the subscription bookkeeping.
- `src/publisher.rs`: publisher identity, registration, frames and pongs.
- `src/web.rs`: the web bridge: browser commands, the live feed and the
  topic list handed to the browsers.
- `src/laws.rs`: properties that span several operations: registration
  read-back, eviction, keep-alive over a run of events, that only
  registrations add publishers, ping-round spacing, and topic filtering.

The poll loops themselves stay in `app/`; the library tells them when a
message ends a pass of the broker's loop (`PublisherTraffic::ends_pass`).

`app/main.rs` runs the broker by default, and `publisher <topic>...`,
`subscriber [<topic>...]` or `webserver` as the clients.
