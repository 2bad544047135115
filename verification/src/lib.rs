//! Verified state-transition logic of three Metaverse.Network runtime pallets:
//! the emergency pallet (call stopping and maintenance mode), the
//! land-minting staking pool pallet (pools, deposits, redemptions and
//! unlock queues) and the auction pallet (bids and settlement).
//!
//! Storage, origins and currency movements belong to the runtime. Here each
//! extrinsic is a function from the pallet state, the call's arguments and
//! what the runtime answered to the new state, the emitted event and the
//! currency and asset operations the runtime has to carry out.

pub mod primitives;
pub mod keyed_map;
pub mod arith;
pub mod emergency;
pub mod land_minting;
pub mod auction;
