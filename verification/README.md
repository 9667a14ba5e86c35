# casper_core

Verified core logic of a Casper node, written in Verus. Every function in `src/` carries a
contract that Verus proves; the few calls into outside code (the BLAKE2b digest and UTF-8
decoding) sit behind small trusted wrappers whose contracts say what the outside code
promises.

## Layout

- `src/binary_port/`, `src/bytesrepr.rs`: the binary-port response framing and its byte
  encoding, with decode-of-encode laws.
- `src/chainspec/`, `src/gas.rs`, `src/u512.rs`: host-function and storage cost tables and
  the gas they charge, over 512-bit amounts.
- `src/auction/`, `src/keys.rs`, `src/hashing.rs`: bid records, keys and account hashes.
- `src/consensus/`: vote weights and the validation of equivocation and endorsement
  evidence.
- `src/mint.rs`, `src/ratio.rs`: the mint's token operations over the services its
  implementor provides, and the round reward: a seigniorage rate times the total supply,
  with 512-bit products, quotients and common divisors.
- `src/vm/`: the host functions of the second-generation VM, over an engine interface.
- `src/update_gen/`: the generic global state update: snapshots of seigniorage recipients,
  validator changes and the bids that follow.
- `src/block_synchronizer.rs`: the requests the block synchronizer makes of builders' needs.
- `src/object_pool.rs`, `src/ordered.rs`: the weak-reference object pool and the ordered
  maps on vectors that several modules share.
- `tests/`: executable tests of the library, with in-memory implementations of the engine,
  mint and state-tracker interfaces.
- `app/`: what stays outside verification: printing, bincode payloads, error messages,
  shared-memory handles and the entry-point registry.
