# streamsync

A verified library for a distributed Solana indexing service: sharding on a
consistent hash ring with replication and shard migration, peer gossip and
discovery, connection and transport state, message codecs with version
negotiation, transport security, program detection and instruction parsing
(SPL Token, Metaplex, Jupiter, Raydium, Orca, Serum, Solend, Marinade,
Anchor) with a cache of parse results, and the storage layer's schema,
queries, caches and compression.

- `src/` is the library, verified by Verus against the contracts its
  functions state; calls into outside crates (hashing, compression, base58 keys,
  concurrent maps, UUIDs, the clock) stand behind small trusted wrappers whose
  doc comments say what is assumed of them. `src/ring_laws.rs` states and
  proves the laws of the hash ring.
- `tests/` runs the library on concrete values.
- `app/` holds the services around the library: the gossip, discovery and
  shard loops (which draw the random values and keep the time), the clock,
  wire formats with serde, and the glue to transport security.
