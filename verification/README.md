# haneul_staking

Delegated-stake queries of a Haneul RPC client, verified with Verus.

- `src/` is the verified library: addresses and their text form (`address`),
  little-endian integers (`wire`), the decoding of `StakedSui` objects and the
  assembly of delegated stakes (`stake`), the simulation requests for rewards
  and validator addresses (`ptb`), the decoding of their answers
  (`simulation`), the two-simulation exchange as a state machine
  (`stake_info`), and the paging through an owner's objects (`listing`).
- `app/` is the asynchronous client: it sends the library's requests over a
  `StakingTransport` and hands the answers back to the library.
- `tests/` runs the library on concrete values.
