//! Verified core of the bridge hub router and the relayer loops: the dynamic
//! delivery fee factor, the bridge fee computation, the message checks done
//! before a message is handed to the sibling bridge hub, and the block-range
//! bookkeeping of the equivocation detection loop.

pub mod fixed;
pub mod router;
pub mod equivocation;
pub mod bridge;
