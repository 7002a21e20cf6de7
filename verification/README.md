# sfu

The signalling core of a selective forwarding unit, written and proved in Verus, and a Janus
gateway plugin around it.

Clients connect to the gateway, join rooms as users, publish media, subscribe to the media of
others, block one another and exchange data. The core decides what each message, packet and
connection leads to; everything that the gateway has to do comes out as a list of actions.

- `src/model.rs` says what the switchboard is: sessions, rooms, feeds and blocks.
- `src/switchboard.rs` holds it in memory.
- `src/signalling.rs` and `src/requests.rs` handle messages, session descriptions and requests.
- `src/media.rs` routes packets, `src/lifecycle.rs` begins and ends sessions, `src/delivery.rs`
  picks who is told, `src/negotiation.rs` gives the parameters of session descriptions.
- `src/outbound.rs` and `src/json.rs` are what goes out, and how it is written as JSON.
- `src/invariants.rs`, `src/preservation.rs` and `src/laws.rs` prove what holds of the whole.
- `app/` is the plugin: the gateway's callbacks, its queue, its locks, its JSON and SDP routines.
  The format of the settings file and the way tokens are signed are supplied by the site.
