# iggy_core

The rules of a message-streaming server, written in Verus: executable Rust whose
behaviour is stated in contracts and proved.

## What is here

- `src/send_messages2/`: the batch format. Messages are framed into a blob with a
  checksum each, a 256-byte command header goes in front, and a batch checksum
  covers the header's fields and the message checksums. Encoding, decoding,
  conversion from the older request layout, encryption in place, and stamping for
  persistence.
- `src/index.rs`: the sparse index file of a segment.
- `src/reconciler/`: the partition reconciler. Each pass compares committed
  metadata with what a shard holds and decides what to build, tear down, route,
  answer, trim and purge; `convergence.rs` proves that the shard comes to hold
  what is committed.
- `src/dispatch/`: what a shard does with its clients' requests: queues, routes,
  logins, reads, partition requests, deletes of segments, auto-commits, and
  requests to the metadata owner.
- `src/client.rs`: defaults and options of the client.
- `src/hash.rs`, `src/buffers.rs`, `src/reconciler/collections.rs`: the contracts
  of the `twox-hash`, `bytes` and `ahash` calls that the proofs rest on.
- `app/`: files, sockets, clocks and tasks around the library. It is ordinary Rust
  and not verified; it asks the library for its decisions and carries them out.
- `tests/`: the library run on concrete values.

## How to read a contract

Every flow that waits for something outside (a lookup, a disk, a peer) is a
function from a stage and an event to the next stage and the next step, with a
spec function that is the whole table. Laws that span functions are public proof
functions named `law_...`.
