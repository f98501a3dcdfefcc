//! The bridges that the relayer command line knows of.

use vstd::prelude::*;

verus! {

/// Supported full bridges (headers + messages).
#[derive(Debug, Clone, Copy, PartialEq, Eq, Structural)]
pub enum FullBridge {
    BridgeHubRococoToBridgeHubWestend,
    BridgeHubWestendToBridgeHubRococo,
    BridgeHubKusamaToBridgeHubPolkadot,
    BridgeHubPolkadotToBridgeHubKusama,
    PolkadotBulletinToBridgeHubPolkadot,
    BridgeHubPolkadotToPolkadotBulletin,
}

} // verus!
