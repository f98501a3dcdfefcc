# bridges_common

The verified core of a bridge hub router pallet and of the equivocation
detection loop of a bridge relayer.

- `src/fixed.rs`: the fixed point operations of the delivery fee factor,
  performed by `sp_runtime::FixedU128` and stated over its inner value.
- `src/router.rs`: the delivery fee factor (its decay while the channel with
  the bridge hub is uncongested, its growth with every message sent while it
  is congested), the bridge fee of a message, the message size check, and the
  proofs of their laws.
- `src/equivocation.rs`: the block-range state machine of the equivocation
  detection loop.
- `src/bridge.rs`: the bridges that the command line knows of.
- `app/`: the runtime adapter (XCM types, storage), the command line names
  and the async loop driver.
