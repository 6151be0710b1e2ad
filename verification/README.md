# swapd

A swap server that takes bitcoin sent onchain to a swap address and pays it
out over lightning, then claims the onchain funds with the payment's
preimage. Users can take an output back once it has the swap's lock time in
blocks on top of it.

- `src/` is the library, verified with Verus: every function carries a
  contract, and the laws that tie functions together are proof functions
  (`law_*`).
  - `chain`: headers and the in-memory chain (`memchain`), the sync and
    block reading of the chain follower (`monitor`), fee estimates, the
    sender filter (`filter`).
  - `swap`: swaps, their scripts and taproot addresses (`taproot`), claim
    transaction plans and their signing (`claim_tx`), the server's MuSig2
    share of a refund (`refund_tx`), the lock rules of the swap store,
    private keys.
  - `claim`: which outputs are claimable and how a round of claims is split.
  - `public_server`, `internal_server`: the checks of the gRPC requests; a
    payout runs as `PayoutFlow` and a refund as `RefundFlow`, one step per
    thing the server fetched.
  - `lnd`, `cln`, `lightning`: the steps of payments over either node.
  - `postgresql`, `bitcoind`: row and message handling of the stores and of
    bitcoind.
- The lock of a swap counts from the confirmation of each output: its
  refund script holds `OP_CHECKSEQUENCEVERIFY` with the lock time, and a
  payout counts the blocks left from the lowest confirmation height of the
  swap's outputs, so that its delay limit ends before the refund path of
  any of them opens.
- `tests/` runs the library on concrete values, against the outside crates.
- `app/` is the daemon around the library: bitcoind over JSON-RPC, the fee
  table download, and the chain follower loop.
