use bridges_common::router::{
    exponential_fee_base, message_size_fee_base, minimal_delivery_fee_factor, BridgePayment,
    BridgeRoute, InitialFactor, OnInitializeWeight, Pallet, PaymentAmount, RouterConfig, SendError,
    HARD_MESSAGE_SIZE_LIMIT,
};
use parity_scale_codec::Encode;
use sp_runtime::{FixedPointNumber, FixedU128};
use staging_xcm::v3::prelude::{
    ClearOrigin, GlobalConsensus, Kusama, MultiLocation, NetworkId, Parachain, ParentThen,
    Polkadot, Rococo, Xcm, X1, X2,
};
use staging_xcm::v3::AssetId;

/// HRMP fee.
const HRMP_FEE: u128 = 500;
/// Base bridge fee.
const BASE_FEE: u128 = 1_000_000;
/// Byte bridge fee.
const BYTE_FEE: u128 = 1_000;

fn bridged_network_id() -> NetworkId {
    Kusama
}

fn sibling_bridge_hub_location() -> MultiLocation {
    ParentThen(X1(Parachain(1002))).into()
}

fn bridge_fee_asset() -> AssetId {
    MultiLocation::parent().into()
}

fn test_config() -> RouterConfig {
    RouterConfig {
        bridged_network_id: bridged_network_id().encode(),
        sibling_bridge_hub_location: sibling_bridge_hub_location().encode(),
        fee_asset: bridge_fee_asset().encode(),
        byte_fee: BYTE_FEE,
    }
}

/// The export table of the test runtime: the bridged network is served by the
/// sibling bridge hub, for the base fee.
fn bridge_table(network: &NetworkId) -> Option<BridgeRoute> {
    if *network == bridged_network_id() {
        Some(BridgeRoute {
            bridge_hub_location: sibling_bridge_hub_location().encode(),
            payment: Some(BridgePayment {
                asset_id: bridge_fee_asset().encode(),
                amount: PaymentAmount::Fungible(BASE_FEE),
            }),
        })
    } else {
        None
    }
}

/// The network of a destination `../GlobalConsensus(network)/...`.
fn destination_network(dest: &MultiLocation) -> NetworkId {
    match dest.first_interior() {
        Some(GlobalConsensus(network)) => *network,
        _ => panic!("destination is not remote"),
    }
}

/// The sender to the bridge hub of the test runtime: delivery always succeeds.
fn test_sender_deliver(sent: &mut bool) -> Result<[u8; 32], SendError> {
    *sent = true;
    Ok([0u8; 32])
}

/// The checks and the fee of the router for a message to `dest`: the price of
/// the delivery to the bridge hub plus the bridge fee.
fn validate(
    pallet: &Pallet,
    dest: MultiLocation,
    xcm: &Xcm<()>,
) -> Result<(u32, Option<u128>), SendError> {
    let message_size = Pallet::validate(Some(xcm.encoded_size()))?;
    let network = destination_network(&dest);
    let fee = pallet
        .exporter_for(&network.encode(), bridge_table(&network), xcm.encoded_size())
        .ok_or(SendError::NotApplicable)?;
    Ok((message_size, Some(fee.unwrap_or(0) + HRMP_FEE)))
}

/// Validates and delivers a message, as `send_xcm` does.
fn send_xcm(
    pallet: &mut Pallet,
    dest: MultiLocation,
    xcm: Xcm<()>,
    sent: &mut bool,
    is_congested: bool,
) -> Result<[u8; 32], SendError> {
    let (message_size, _) = validate(pallet, dest, &xcm)?;
    let delivered = test_sender_deliver(sent);
    pallet.deliver(message_size, delivered, is_congested)
}

#[test]
fn initial_fee_factor_is_one() {
    let pallet = Pallet::new(test_config());
    assert_eq!(pallet.delivery_fee_factor(), FixedU128::from_u32(1).into_inner());
    assert_eq!(pallet.delivery_fee_factor(), minimal_delivery_fee_factor());
}

#[test]
fn fee_factor_is_not_decreased_from_on_initialize_when_queue_is_congested() {
    let mut pallet = Pallet::new(test_config());
    pallet.delivery_fee_factor = FixedU128::from_rational(125, 100).into_inner();

    // it should not decrease, because queue is congested
    let old_delivery_fee_factor = pallet.delivery_fee_factor();
    pallet.on_initialize(true);
    assert_eq!(pallet.delivery_fee_factor(), old_delivery_fee_factor);
}

#[test]
fn fee_factor_is_decreased_from_on_initialize_when_queue_is_uncongested() {
    let mut pallet = Pallet::new(test_config());
    pallet.delivery_fee_factor = FixedU128::from_rational(125, 100).into_inner();

    // it should eventually decrease to one
    while pallet.delivery_fee_factor() > minimal_delivery_fee_factor() {
        pallet.on_initialize(false);
    }

    // verify that it doesn't decrease anymore
    pallet.on_initialize(false);
    assert_eq!(pallet.delivery_fee_factor(), minimal_delivery_fee_factor());
}

#[test]
fn not_applicable_if_destination_is_within_other_network() {
    let pallet = Pallet::new(test_config());
    assert_eq!(
        validate(
            &pallet,
            MultiLocation::new(2, X2(GlobalConsensus(Rococo), Parachain(1000))),
            &vec![].into(),
        ),
        Err(SendError::NotApplicable),
    );
}

#[test]
fn exceeds_max_message_size_if_size_is_above_hard_limit() {
    let pallet = Pallet::new(test_config());
    assert_eq!(
        validate(
            &pallet,
            MultiLocation::new(2, X2(GlobalConsensus(Rococo), Parachain(1000))),
            &vec![ClearOrigin; HARD_MESSAGE_SIZE_LIMIT as usize].into(),
        ),
        Err(SendError::ExceedsMaxMessageSize),
    );
}

#[test]
fn returns_proper_delivery_price() {
    let mut pallet = Pallet::new(test_config());
    let dest = MultiLocation::new(2, X1(GlobalConsensus(bridged_network_id())));
    let xcm: Xcm<()> = vec![ClearOrigin].into();
    let msg_size = xcm.encoded_size();

    // initially the base fee is used: `BASE_FEE + BYTE_FEE * msg_size + HRMP_FEE`
    let expected_fee = BASE_FEE + BYTE_FEE * (msg_size as u128) + HRMP_FEE;
    assert_eq!(validate(&pallet, dest, &xcm).unwrap().1, Some(expected_fee));

    // but when factor is larger than one, it increases the fee, so it becomes:
    // `(BASE_FEE + BYTE_FEE * msg_size) * F + HRMP_FEE`
    let factor = FixedU128::from_rational(125, 100);
    pallet.delivery_fee_factor = factor.into_inner();
    let expected_fee = (FixedU128::saturating_from_integer(BASE_FEE + BYTE_FEE * (msg_size as u128))
        * factor)
        .into_inner()
        / FixedU128::DIV
        + HRMP_FEE;
    assert_eq!(validate(&pallet, dest, &xcm).unwrap().1, Some(expected_fee));
}

#[test]
fn sent_message_doesnt_increase_factor_if_queue_is_uncongested() {
    let mut pallet = Pallet::new(test_config());
    let mut sent = false;
    let old_delivery_fee_factor = pallet.delivery_fee_factor();
    assert_eq!(
        send_xcm(
            &mut pallet,
            MultiLocation::new(2, X2(GlobalConsensus(bridged_network_id()), Parachain(1000))),
            vec![ClearOrigin].into(),
            &mut sent,
            false,
        )
        .map(drop),
        Ok(()),
    );

    assert!(sent);
    assert_eq!(old_delivery_fee_factor, pallet.delivery_fee_factor());
}

#[test]
fn sent_message_increases_factor_if_queue_is_congested() {
    let mut pallet = Pallet::new(test_config());
    let mut sent = false;
    let old_delivery_fee_factor = pallet.delivery_fee_factor();
    assert_eq!(
        send_xcm(
            &mut pallet,
            MultiLocation::new(2, X2(GlobalConsensus(bridged_network_id()), Parachain(1000))),
            vec![ClearOrigin].into(),
            &mut sent,
            true,
        )
        .map(drop),
        Ok(()),
    );

    assert!(sent);
    assert!(old_delivery_fee_factor < pallet.delivery_fee_factor());
}

// The tests below are of this library.

#[test]
fn fee_constants_are_exact() {
    assert_eq!(minimal_delivery_fee_factor(), 1_000_000_000_000_000_000);
    assert_eq!(InitialFactor(), 1_000_000_000_000_000_000);
    assert_eq!(exponential_fee_base(), 1_050_000_000_000_000_000);
    assert_eq!(message_size_fee_base(), 1_000_000_000_000_000);
}

#[test]
fn on_initialize_divides_by_exponential_base() {
    let mut pallet = Pallet::new(test_config());
    pallet.delivery_fee_factor = 2_100_000_000_000_000_000;
    assert_eq!(pallet.on_initialize(false), OnInitializeWeight::WhenNonCongested);
    assert_eq!(pallet.delivery_fee_factor(), 2_000_000_000_000_000_000);
}

#[test]
fn on_initialize_never_goes_below_one() {
    let mut pallet = Pallet::new(test_config());
    pallet.delivery_fee_factor = 1_010_000_000_000_000_000;
    assert_eq!(pallet.on_initialize(false), OnInitializeWeight::WhenNonCongested);
    assert_eq!(pallet.delivery_fee_factor(), 1_000_000_000_000_000_000);
    // a factor below one comes back to one
    pallet.delivery_fee_factor = 500;
    pallet.on_initialize(false);
    assert_eq!(pallet.delivery_fee_factor(), 1_000_000_000_000_000_000);
}

#[test]
fn on_initialize_at_minimal_factor_reports_congested_weight() {
    let mut pallet = Pallet::new(test_config());
    assert_eq!(pallet.on_initialize(false), OnInitializeWeight::WhenCongested);
    assert_eq!(pallet.delivery_fee_factor(), 1_000_000_000_000_000_000);
    pallet.delivery_fee_factor = 3_000_000_000_000_000_000;
    assert_eq!(pallet.on_initialize(true), OnInitializeWeight::WhenCongested);
    assert_eq!(pallet.delivery_fee_factor(), 3_000_000_000_000_000_000);
}

#[test]
fn congested_message_grows_factor_by_size() {
    let mut pallet = Pallet::new(test_config());
    // 1.05 + 2 * 0.001 for two full kilobytes
    pallet.on_message_sent_to_bridge(2 * 1024 + 1023, true);
    assert_eq!(pallet.delivery_fee_factor(), 1_052_000_000_000_000_000);
    // and the next message multiplies again: 1.052 * 1.05
    pallet.on_message_sent_to_bridge(10, true);
    assert_eq!(pallet.delivery_fee_factor(), 1_104_600_000_000_000_000);
    // an uncongested channel changes nothing
    pallet.on_message_sent_to_bridge(4096, false);
    assert_eq!(pallet.delivery_fee_factor(), 1_104_600_000_000_000_000);
}

#[test]
fn congested_message_saturates_factor() {
    let mut pallet = Pallet::new(test_config());
    pallet.delivery_fee_factor = u128::MAX - 1;
    pallet.on_message_sent_to_bridge(0, true);
    assert_eq!(pallet.delivery_fee_factor(), u128::MAX);
}

#[test]
fn failed_delivery_keeps_factor() {
    let mut pallet = Pallet::new(test_config());
    assert_eq!(pallet.deliver(100, Err::<[u8; 32], u8>(7), true), Err(7));
    assert_eq!(pallet.delivery_fee_factor(), minimal_delivery_fee_factor());
    assert_eq!(pallet.deliver(100, Ok::<[u8; 32], u8>([1u8; 32]), true), Ok([1u8; 32]));
    assert_eq!(pallet.delivery_fee_factor(), exponential_fee_base());
}

#[test]
fn message_size_limit_is_inclusive() {
    assert_eq!(Pallet::validate(Some(32 * 1024)), Ok(32 * 1024));
    assert_eq!(Pallet::validate(Some(32 * 1024 + 1)), Err(SendError::ExceedsMaxMessageSize));
    assert_eq!(Pallet::validate(None), Err(SendError::MissingArgument));
}

#[test]
fn message_size_is_recorded_as_u32() {
    // the encoded size is cast to `u32` before it is checked
    let size: u64 = (1u64 << 32) + 5;
    if let Ok(size) = usize::try_from(size) {
        assert_eq!(Pallet::validate(Some(size)), Ok(5));
    }
}

#[test]
fn exporter_for_refuses_other_routes() {
    let pallet = Pallet::new(test_config());
    let network = bridged_network_id().encode();
    // no route in the table
    assert_eq!(pallet.exporter_for(&network, None, 10), None);
    // another bridge hub
    let other_hub = BridgeRoute {
        bridge_hub_location: MultiLocation::new(1, X1(Parachain(1003))).encode(),
        payment: None,
    };
    assert_eq!(pallet.exporter_for(&network, Some(other_hub), 10), None);
    // another fee asset
    let other_asset = BridgeRoute {
        bridge_hub_location: sibling_bridge_hub_location().encode(),
        payment: Some(BridgePayment {
            asset_id: AssetId::from(MultiLocation::here()).encode(),
            amount: PaymentAmount::Fungible(BASE_FEE),
        }),
    };
    assert_eq!(pallet.exporter_for(&network, Some(other_asset), 10), None);
    // a non-fungible fee
    let non_fungible = BridgeRoute {
        bridge_hub_location: sibling_bridge_hub_location().encode(),
        payment: Some(BridgePayment {
            asset_id: bridge_fee_asset().encode(),
            amount: PaymentAmount::NonFungible,
        }),
    };
    assert_eq!(pallet.exporter_for(&network, Some(non_fungible), 10), None);
    // another network
    assert_eq!(
        pallet.exporter_for(&Polkadot.encode(), bridge_table(&bridged_network_id()), 10),
        None
    );
}

#[test]
fn exporter_for_without_payment_charges_byte_fees() {
    let mut pallet = Pallet::new(test_config());
    let network = bridged_network_id().encode();
    let route = || BridgeRoute {
        bridge_hub_location: sibling_bridge_hub_location().encode(),
        payment: None,
    };
    assert_eq!(pallet.exporter_for(&network, Some(route()), 10), Some(Some(10 * BYTE_FEE)));
    // a zero fee is no fee
    assert_eq!(pallet.exporter_for(&network, Some(route()), 0), Some(None));
    // the fee is scaled by the factor: 2 * 10 * BYTE_FEE
    pallet.delivery_fee_factor = 2_000_000_000_000_000_000;
    assert_eq!(pallet.exporter_for(&network, Some(route()), 10), Some(Some(20 * BYTE_FEE)));
}

#[test]
fn exporter_for_saturates_fee() {
    let mut config = test_config();
    config.byte_fee = u128::MAX;
    let mut pallet = Pallet::new(config);
    pallet.delivery_fee_factor = 2_000_000_000_000_000_000;
    let network = bridged_network_id().encode();
    assert_eq!(
        pallet.exporter_for(&network, bridge_table(&bridged_network_id()), 3),
        Some(Some(u128::MAX))
    );
}
