//! The bridge hub router: the dynamic delivery fee factor and the bridge fee.
//!
//! The router sends messages to a bridged network through a sibling (or
//! child) bridge hub. The fee of every message is scaled by a fee factor that
//! grows exponentially while the local XCM channel with the bridge hub is
//! congested, and decays back to one while it is not.
//!
//! Locations, network ids and asset ids enter this module as their SCALE
//! encodings: two of them are equal exactly when their encodings are equal.

use crate::fixed::{
    fixed_div, fixed_from_rational, fixed_from_u32, fixed_saturating_add, fixed_saturating_mul,
    fixed_saturating_mul_int, spec_fixed_div, spec_fixed_saturating_add, spec_fixed_saturating_mul,
    spec_fixed_saturating_mul_int, FIXED_DIV,
};
use vstd::prelude::*;

verus! {

/// Maximal size of the XCM message that may be sent over the bridge.
///
/// This is less than the size that the messages pallet allows, because the
/// message itself is wrapped in other structs and is double encoded.
pub const HARD_MESSAGE_SIZE_LIMIT: u32 = 32 * 1024;

/// Inner value of the minimal delivery fee factor, the number one.
pub open spec fn spec_minimal_factor() -> u128 {
    FIXED_DIV
}

/// Inner value of the factor that multiplies the fee factor on every message
/// sent while the bridge is congested: `1.05`.
pub open spec fn spec_exponential_fee_base() -> u128 {
    1_050_000_000_000_000_000
}

/// Inner value of the factor added per sent kilobyte: `0.001`.
pub open spec fn spec_message_size_fee_base() -> u128 {
    1_000_000_000_000_000
}

/// The minimal delivery fee factor: one.
pub fn minimal_delivery_fee_factor() -> (r: u128)
    ensures
        r == spec_minimal_factor(),
{
    fixed_from_u32(1)
}

/// The base of the exponential fee growth: `105 / 100`.
pub fn exponential_fee_base() -> (r: u128)
    ensures
        r == spec_exponential_fee_base(),
{
    fixed_from_rational(105, 100)
}

/// The fee factor added per sent kilobyte: `1 / 1000`.
pub fn message_size_fee_base() -> (r: u128)
    ensures
        r == spec_message_size_fee_base(),
{
    fixed_from_rational(1, 1000)
}

/// Initialization value of the delivery fee factor.
#[allow(non_snake_case)]
pub fn InitialFactor() -> (r: u128)
    ensures
        r == spec_minimal_factor(),
{
    minimal_delivery_fee_factor()
}

/// The factor after one uncongested block, for a factor that is not minimal:
/// divided by the exponential base, but never below one.
pub open spec fn spec_decreased_factor(f: u128) -> u128 {
    let q = spec_fixed_div(f, spec_exponential_fee_base());
    if q > spec_minimal_factor() {
        q as u128
    } else {
        spec_minimal_factor()
    }
}

/// The fee factor after the block initialization hook.
pub open spec fn spec_on_initialize(f: u128, is_congested: bool) -> u128 {
    if is_congested || f == spec_minimal_factor() {
        f
    } else {
        spec_decreased_factor(f)
    }
}

/// The factor by which the fee factor grows when a message of
/// `message_size` bytes is sent over a congested bridge.
pub open spec fn spec_total_factor(message_size: u32) -> u128 {
    let size_factor = spec_fixed_saturating_mul(
        ((message_size / 1024) * FIXED_DIV) as u128,
        spec_message_size_fee_base(),
    );
    spec_fixed_saturating_add(spec_exponential_fee_base(), size_factor)
}

/// The fee factor after a message of `message_size` bytes has been sent.
pub open spec fn spec_on_message_sent(f: u128, is_congested: bool, message_size: u32) -> u128 {
    if is_congested {
        spec_fixed_saturating_mul(f, spec_total_factor(message_size))
    } else {
        f
    }
}

/// The weight that the block initialization hook reports.
#[derive(Debug, Clone, Copy, PartialEq, Eq, Structural)]
pub enum OnInitializeWeight {
    /// Nothing was changed: the channel is congested or the factor is minimal.
    WhenCongested,
    /// The factor was decreased.
    WhenNonCongested,
}

/// Errors of the message checks that the router makes itself.
#[derive(Debug, Clone, Copy, PartialEq, Eq, Structural)]
pub enum SendError {
    /// The message and destination combination was not recognized as being
    /// reachable.
    NotApplicable,
    /// The message exceeds the maximal size that the bridge accepts.
    ExceedsMaxMessageSize,
    /// A needed argument is `None` when it should be `Some`.
    MissingArgument,
}

/// The pallet: its configuration and its single storage value, the delivery
/// fee factor.
///
/// The fee factor is shared by all bridges that this pallet serves, because
/// they all share the same local XCM channel with the sibling bridge hub, and
/// the congestion of that channel is all the pallet can observe.
pub struct Pallet {
    /// What the runtime configures the pallet with.
    pub config: RouterConfig,
    /// The inner value of the `FixedU128` delivery fee factor.
    pub delivery_fee_factor: u128,
}

/// The configuration of the pallet that its logic reads.
pub struct RouterConfig {
    /// Encoded id of the bridged network that this router serves.
    pub bridged_network_id: Vec<u8>,
    /// Encoded location of the sibling bridge hub.
    pub sibling_bridge_hub_location: Vec<u8>,
    /// Encoded id of the asset in which the bridge fee is paid.
    pub fee_asset: Vec<u8>,
    /// Additional fee paid for every byte of the outbound message.
    pub byte_fee: u128,
}

/// How much of an asset a bridge fee offers.
pub enum PaymentAmount {
    /// A fungible amount.
    Fungible(u128),
    /// A non-fungible instance, which cannot pay a fee.
    NonFungible,
}

/// The base fee that the configured bridges table asks for.
pub struct BridgePayment {
    /// Encoded id of the asset.
    pub asset_id: Vec<u8>,
    /// The amount of the asset.
    pub amount: PaymentAmount,
}

/// What the configured bridges table answers for a destination: the bridge
/// hub that exports to it and the base fee of the bridge, if any.
pub struct BridgeRoute {
    /// Encoded location of the bridge hub that exports the message.
    pub bridge_hub_location: Vec<u8>,
    /// The base fee, if the table sets one.
    pub payment: Option<BridgePayment>,
}

/// Whether the route goes through the sibling bridge hub and its payment,
/// if any, is a fungible amount of the fee asset.
pub open spec fn spec_route_accepted(config: RouterConfig, route: BridgeRoute) -> bool {
    &&& route.bridge_hub_location@ == config.sibling_bridge_hub_location@
    &&& match route.payment {
        None => true,
        Some(payment) => payment.asset_id@ == config.fee_asset@ && payment.amount is Fungible,
    }
}

/// Whether the router serves a message to `network` that the bridges table
/// routes as `route`.
pub open spec fn spec_exporter_applies(
    config: RouterConfig,
    network: Seq<u8>,
    route: Option<BridgeRoute>,
) -> bool {
    &&& network == config.bridged_network_id@
    &&& route matches Some(r) && spec_route_accepted(config, r)
}

/// The base fee of an accepted route: its fungible amount, or zero.
pub open spec fn spec_base_fee(route: BridgeRoute) -> u128 {
    match route.payment {
        Some(BridgePayment { amount: PaymentAmount::Fungible(amount), .. }) => amount,
        _ => 0,
    }
}

/// `a * b`, saturated at `u128::MAX`.
pub open spec fn spec_u128_saturating_mul(a: u128, b: u128) -> u128 {
    if a * b > u128::MAX {
        u128::MAX
    } else {
        (a * b) as u128
    }
}

/// The bridge fee of a message of `message_size` bytes: the base fee plus the
/// byte fee of every byte, scaled by the delivery fee factor.
pub open spec fn spec_bridge_fee(
    factor: u128,
    base_fee: u128,
    byte_fee: u128,
    message_size: usize,
) -> u128 {
    let message_fee = spec_u128_saturating_mul(message_size as u128, byte_fee);
    spec_fixed_saturating_mul_int(factor, spec_fixed_saturating_add(base_fee, message_fee))
}

/// Whether two encodings are the same bytes.
pub fn bytes_eq(a: &Vec<u8>, b: &Vec<u8>) -> (r: bool)
    ensures
        r == (a@ == b@),
{
    if a.len() != b.len() {
        return false;
    }
    let mut i: usize = 0;
    while i < a.len()
        invariant
            a.len() == b.len(),
            i <= a.len(),
            forall|j: int| 0 <= j < i ==> a@[j] == b@[j],
        decreases a.len() - i,
    {
        if a[i] != b[i] {
            return false;
        }
        i = i + 1;
    }
    assert(a@ =~= b@);
    true
}

impl Pallet {
    /// The pallet with its storage at the initial value.
    pub fn new(config: RouterConfig) -> (p: Self)
        ensures
            p.config == config,
            p.delivery_fee_factor == spec_minimal_factor(),
    {
        Pallet { config, delivery_fee_factor: InitialFactor() }
    }

    /// The number to multiply the base delivery fee by.
    pub fn delivery_fee_factor(&self) -> (r: u128)
        ensures
            r == self.delivery_fee_factor,
    {
        self.delivery_fee_factor
    }

    /// Block initialization: while the channel with the bridge hub is not
    /// congested, the fee factor decreases towards one.
    pub fn on_initialize(&mut self, is_congested: bool) -> (w: OnInitializeWeight)
        ensures
            final(self).config == old(self).config,
            final(self).delivery_fee_factor == spec_on_initialize(
                old(self).delivery_fee_factor,
                is_congested,
            ),
            w == (if is_congested || old(self).delivery_fee_factor == spec_minimal_factor() {
                OnInitializeWeight::WhenCongested
            } else {
                OnInitializeWeight::WhenNonCongested
            }),
            is_congested ==> final(self).delivery_fee_factor == old(self).delivery_fee_factor,
            !is_congested && old(self).delivery_fee_factor != 1_000_000_000_000_000_000 ==> ({
                let f = old(self).delivery_fee_factor as int;
                let g = final(self).delivery_fee_factor as int;
                &&& g >= 1_000_000_000_000_000_000
                &&& g > 1_000_000_000_000_000_000 ==> g * 1_050_000_000_000_000_000 <= f
                    * 1_000_000_000_000_000_000 < (g + 1) * 1_050_000_000_000_000_000
                &&& g == 1_000_000_000_000_000_000 ==> f * 1_000_000_000_000_000_000 < (
                1_000_000_000_000_000_000 + 1) * 1_050_000_000_000_000_000
            }),
    {
        proof {
            if !is_congested && old(self).delivery_fee_factor != 1_000_000_000_000_000_000 {
                lemma_uncongested_block_divides_by_exponential_base(old(self).delivery_fee_factor);
            }
        }
        // if the channel is still congested, nothing changes
        if is_congested {
            return OnInitializeWeight::WhenCongested;
        }
        // if the factor cannot decrease anymore, nothing changes
        let minimal = minimal_delivery_fee_factor();
        let factor = self.delivery_fee_factor;
        if factor == minimal {
            return OnInitializeWeight::WhenCongested;
        }
        let base = exponential_fee_base();
        proof {
            lemma_div_by_exponential_base_below(factor);
        }
        let decreased = fixed_div(factor, base);
        self.delivery_fee_factor = if decreased > minimal {
            decreased
        } else {
            minimal
        };
        OnInitializeWeight::WhenNonCongested
    }

    /// Called when a message of `message_size` bytes has been sent (queued to
    /// the local outbound XCM queue) over the bridge: while the channel is
    /// congested, the fee factor grows.
    pub fn on_message_sent_to_bridge(&mut self, message_size: u32, is_congested: bool)
        ensures
            final(self).config == old(self).config,
            final(self).delivery_fee_factor == spec_on_message_sent(
                old(self).delivery_fee_factor,
                is_congested,
                message_size,
            ),
            !is_congested ==> final(self).delivery_fee_factor == old(self).delivery_fee_factor,
            is_congested ==> ({
                let p = (old(self).delivery_fee_factor * (1_050_000_000_000_000_000 + (message_size
                    / 1024) as int * 1_000_000_000_000_000)) / 1_000_000_000_000_000_000int;
                final(self).delivery_fee_factor == (if p > u128::MAX {
                    u128::MAX as int
                } else {
                    p
                })
            }),
    {
        proof {
            lemma_congested_send_multiplies_factor(old(self).delivery_fee_factor, message_size);
        }
        // if the outbound channel is not congested, nothing changes
        if !is_congested {
            return;
        }
        let kilobytes = message_size / 1024;
        let message_size_factor = fixed_saturating_mul(
            fixed_from_u32(kilobytes),
            message_size_fee_base(),
        );
        let total_factor = fixed_saturating_add(exponential_fee_base(), message_size_factor);
        self.delivery_fee_factor = fixed_saturating_mul(self.delivery_fee_factor, total_factor);
    }
}

impl Pallet {
    /// The bridge fee of a message to `network`, which the configured bridges
    /// table routes as `route`, and whose encoding is `message_size` bytes.
    ///
    /// `None` when this router does not serve the message: the network is not
    /// the bridged one, the table has no route for it, the route goes through
    /// another bridge hub than the sibling, or the table asks for a fee that is
    /// not a fungible amount of the fee asset. Otherwise `Some(fee)`, where
    /// `fee` is `None` when the computed fee is zero.
    pub fn exporter_for(
        &self,
        network: &Vec<u8>,
        route: Option<BridgeRoute>,
        message_size: usize,
    ) -> (r: Option<Option<u128>>)
        ensures
            r is Some <==> spec_exporter_applies(self.config, network@, route),
            r matches Some(fee) ==> {
                let total = spec_bridge_fee(
                    self.delivery_fee_factor,
                    spec_base_fee(route->0),
                    self.config.byte_fee,
                    message_size,
                );
                fee == (if total > 0 { Some(total) } else { None })
            },
            network@ != self.config.bridged_network_id@ ==> r is None,
            route is None ==> r is None,
            route matches Some(rt) && rt.bridge_hub_location@
                != self.config.sibling_bridge_hub_location@ ==> r is None,
            route matches Some(rt) && rt.payment matches Some(payment) && (payment.asset_id@
                != self.config.fee_asset@ || payment.amount is NonFungible) ==> r is None,
            ({
                let base: int = match route {
                    Some(BridgeRoute { payment: Some(BridgePayment { amount: PaymentAmount::Fungible(a), .. }), .. }) => a as int,
                    _ => 0,
                };
                let sum = base + message_size * self.config.byte_fee;
                let p = (self.delivery_fee_factor * sum) / 1_000_000_000_000_000_000int;
                sum <= u128::MAX && p <= u128::MAX ==> (r matches Some(fee) ==> fee == (if p > 0 {
                    Some(p as u128)
                } else {
                    None
                }))
            }),
    {
        proof {
            lemma_bridge_fee_formula(
                self.delivery_fee_factor,
                if route is Some { spec_base_fee(route->0) } else { 0 },
                self.config.byte_fee,
                message_size,
            );
        }
        // the message must go to the bridged network
        if !bytes_eq(network, &self.config.bridged_network_id) {
            return None;
        }
        // the bridges table must route it
        let route = match route {
            Some(route) => route,
            None => return None,
        };
        // through the expected bridge hub
        if !bytes_eq(&route.bridge_hub_location, &self.config.sibling_bridge_hub_location) {
            return None;
        }
        // the base fee of the table must be paid in the fee asset
        let base_fee: u128 = match &route.payment {
            Some(payment) => match payment.amount {
                PaymentAmount::Fungible(amount) => {
                    if bytes_eq(&payment.asset_id, &self.config.fee_asset) {
                        amount
                    } else {
                        return None;
                    }
                },
                PaymentAmount::NonFungible => return None,
            },
            None => 0,
        };
        // only the bridge fee: the fee of the delivery to the sibling bridge
        // hub is added by the sender to the bridge hub
        let message_fee = match (message_size as u128).checked_mul(self.config.byte_fee) {
            Some(fee) => fee,
            None => u128::MAX,
        };
        let fee_sum = base_fee.saturating_add(message_fee);
        let fee = fixed_saturating_mul_int(self.delivery_fee_factor, fee_sum);
        if fee > 0 {
            Some(Some(fee))
        } else {
            Some(None)
        }
    }

    /// The checks made before a message is handed to the exporter: the
    /// message must be there, and the bridge does not accept oversized
    /// messages. On success, the size of the message as it is recorded in the
    /// ticket.
    pub fn validate(message_size: Option<usize>) -> (r: Result<u32, SendError>)
        ensures
            match message_size {
                None => r == Err::<u32, SendError>(SendError::MissingArgument),
                Some(size) => if (size as u32) > HARD_MESSAGE_SIZE_LIMIT {
                    r == Err::<u32, SendError>(SendError::ExceedsMaxMessageSize)
                } else {
                    r == Ok::<u32, SendError>(size as u32)
                },
            },
    {
        let message_size: u32 = match message_size {
            Some(size) => size as u32,
            None => return Err(SendError::MissingArgument),
        };
        if message_size > HARD_MESSAGE_SIZE_LIMIT {
            return Err(SendError::ExceedsMaxMessageSize);
        }
        Ok(message_size)
    }

    /// After the sender to the bridge hub has tried to deliver a message of
    /// `message_size` bytes: on success the fee factor grows if the channel
    /// is congested. The outcome of the delivery is returned unchanged.
    pub fn deliver<E>(
        &mut self,
        message_size: u32,
        delivered: Result<[u8; 32], E>,
        is_congested: bool,
    ) -> (r: Result<[u8; 32], E>)
        ensures
            r == delivered,
            final(self).config == old(self).config,
            final(self).delivery_fee_factor == (if delivered is Ok {
                spec_on_message_sent(old(self).delivery_fee_factor, is_congested, message_size)
            } else {
                old(self).delivery_fee_factor
            }),
    {
        match delivered {
            Ok(hash) => {
                self.on_message_sent_to_bridge(message_size, is_congested);
                Ok(hash)
            },
            Err(e) => Err(e),
        }
    }
}

/// The fee factor after `n` blocks during which the channel is not
/// congested.
pub open spec fn spec_uncongested_blocks(f: u128, n: nat) -> u128
    decreases n,
{
    if n == 0 {
        f
    } else {
        spec_uncongested_blocks(spec_on_initialize(f, false), (n - 1) as nat)
    }
}

/// Scaling by a factor of at least one never lowers a value, and scaling by
/// a factor of at least `1 + 1 / FIXED_DIV` raises every value of at least
/// one that is not already the largest.
proof fn lemma_scaling_up(f: u128, t: u128)
    requires
        t >= FIXED_DIV,
    ensures
        spec_fixed_saturating_mul(f, t) >= f,
        f < u128::MAX && f * t >= (f + 1) * FIXED_DIV ==> spec_fixed_saturating_mul(f, t) > f,
{
    let d = FIXED_DIV as int;
    let x = f * t;
    assert(f * d <= x) by (nonlinear_arith)
        requires
            x == f * t,
            t >= d,
            f >= 0,
    ;
    vstd::arithmetic::div_mod::lemma_div_is_ordered(f * d, x, d);
    vstd::arithmetic::div_mod::lemma_div_by_multiple(f as int, d);
    if f < u128::MAX && x >= (f + 1) * d {
        vstd::arithmetic::div_mod::lemma_div_is_ordered((f + 1) * d, x, d);
        vstd::arithmetic::div_mod::lemma_div_by_multiple(f + 1, d);
    }
}

/// A block during which the channel is congested leaves the fee factor
/// unchanged.
pub proof fn lemma_congested_block_keeps_factor(f: u128)
    ensures
        spec_on_initialize(f, true) == f,
{
}

/// A block during which the channel is not congested lowers a fee factor
/// above one, but never below one.
pub proof fn lemma_uncongested_block_decreases_factor(f: u128)
    requires
        f > spec_minimal_factor(),
    ensures
        spec_minimal_factor() <= spec_on_initialize(f, false) < f,
{
    lemma_div_by_exponential_base_below(f);
}

/// While the channel is not congested, the fee factor eventually comes back
/// to one, whatever its value.
pub proof fn lemma_fee_factor_decays_to_minimal(f: u128)
    ensures
        exists|n: nat| spec_uncongested_blocks(f, n) == spec_minimal_factor(),
    decreases f,
{
    if f == spec_minimal_factor() {
        assert(spec_uncongested_blocks(f, 0) == spec_minimal_factor());
    } else {
        let g = spec_on_initialize(f, false);
        lemma_div_by_exponential_base_below(f);
        if f < spec_minimal_factor() {
            assert(g == spec_minimal_factor());
            assert(spec_uncongested_blocks(g, 0) == g);
            assert(spec_uncongested_blocks(f, 1) == spec_minimal_factor());
        } else {
            assert(g < f);
            lemma_fee_factor_decays_to_minimal(g);
            let n = choose|n: nat| spec_uncongested_blocks(g, n) == spec_minimal_factor();
            assert(spec_uncongested_blocks(f, n + 1) == spec_uncongested_blocks(g, n));
        }
    }
}

/// A message sent while the channel is not congested leaves the fee factor
/// unchanged.
pub proof fn lemma_uncongested_send_keeps_factor(f: u128, message_size: u32)
    ensures
        spec_on_message_sent(f, false, message_size) == f,
{
}

/// A message sent while the channel is congested raises a fee factor of at
/// least one, unless it is already the largest value.
pub proof fn lemma_congested_send_increases_factor(f: u128, message_size: u32)
    requires
        spec_minimal_factor() <= f < u128::MAX,
    ensures
        spec_on_message_sent(f, true, message_size) > f,
{
    let t = spec_total_factor(message_size);
    assert(t >= spec_exponential_fee_base());
    let e = spec_exponential_fee_base() as int;
    let d = FIXED_DIV as int;
    assert(f * t >= (f + 1) * d) by (nonlinear_arith)
        requires
            t >= e,
            e == 1_050_000_000_000_000_000int,
            d == 1_000_000_000_000_000_000int,
            f >= d,
    ;
    lemma_scaling_up(f, t);
}

/// The fee factor never drops below one: neither a block nor a sent message
/// takes a factor of at least one below one.
pub proof fn lemma_fee_factor_never_below_minimal(f: u128, is_congested: bool, message_size: u32)
    requires
        f >= spec_minimal_factor(),
    ensures
        spec_on_initialize(f, is_congested) >= spec_minimal_factor(),
        spec_on_message_sent(f, is_congested, message_size) >= spec_minimal_factor(),
{
    lemma_scaling_up(f, spec_total_factor(message_size));
}

/// With the minimal fee factor, the bridge fee is the base fee plus the byte
/// fees, unscaled.
pub proof fn lemma_minimal_factor_fee_is_unscaled(base_fee: u128, byte_fee: u128, message_size: usize)
    ensures
        spec_bridge_fee(spec_minimal_factor(), base_fee, byte_fee, message_size)
            == spec_fixed_saturating_add(
            base_fee,
            spec_u128_saturating_mul(message_size as u128, byte_fee),
        ),
{
    let n = spec_fixed_saturating_add(
        base_fee,
        spec_u128_saturating_mul(message_size as u128, byte_fee),
    );
    vstd::arithmetic::div_mod::lemma_div_multiples_vanish(n as int, FIXED_DIV as int);
}

/// A larger fee factor never gives a smaller bridge fee.
pub proof fn lemma_bridge_fee_monotonic_in_factor(
    f1: u128,
    f2: u128,
    base_fee: u128,
    byte_fee: u128,
    message_size: usize,
)
    requires
        f1 <= f2,
    ensures
        spec_bridge_fee(f1, base_fee, byte_fee, message_size) <= spec_bridge_fee(
            f2,
            base_fee,
            byte_fee,
            message_size,
        ),
{
    let n = spec_fixed_saturating_add(
        base_fee,
        spec_u128_saturating_mul(message_size as u128, byte_fee),
    );
    assert(f1 * n <= f2 * n) by (nonlinear_arith)
        requires
            f1 <= f2,
            n >= 0,
    ;
    vstd::arithmetic::div_mod::lemma_div_is_ordered(f1 * n, f2 * n, FIXED_DIV as int);
}

/// On an uncongested block, a fee factor `f` other than one becomes its
/// quotient by `1.05`, rounded down, or one when that quotient is not above
/// one: the new factor `g` is at least one; when it is above one, `g * 1.05`
/// is at most `f` and `(g + 1) * 1.05` is above `f`; and when it is one, the
/// exact quotient `f / 1.05` is below `1 + 10^-18` (the smallest step above
/// one). A factor below one comes back to one.
pub proof fn lemma_uncongested_block_divides_by_exponential_base(f: u128)
    requires
        f != 1_000_000_000_000_000_000,
    ensures
        f < 1_000_000_000_000_000_000 ==> spec_on_initialize(f, false)
            == 1_000_000_000_000_000_000,
        ({
            let g = spec_on_initialize(f, false) as int;
            &&& g >= 1_000_000_000_000_000_000
            &&& g > 1_000_000_000_000_000_000 ==> g * 1_050_000_000_000_000_000 <= f
                * 1_000_000_000_000_000_000 < (g + 1) * 1_050_000_000_000_000_000
            &&& g == 1_000_000_000_000_000_000 ==> f * 1_000_000_000_000_000_000 < (
            1_000_000_000_000_000_000 + 1) * 1_050_000_000_000_000_000
        }),
{
    let e: int = 1_050_000_000_000_000_000;
    let d: int = 1_000_000_000_000_000_000;
    let x: int = f * d;
    let q = x / e;
    assert(spec_exponential_fee_base() == e);
    assert(spec_fixed_div(f, spec_exponential_fee_base()) == q);
    vstd::arithmetic::div_mod::lemma_fundamental_div_mod(x, e);
    vstd::arithmetic::div_mod::lemma_mod_pos_bound(x, e);
    assert(q * e <= x < (q + 1) * e) by (nonlinear_arith)
        requires
            x == e * q + x % e,
            0 <= x % e < e,
    ;
    if f < d {
        lemma_div_by_exponential_base_below(f);
    }
    if q <= d {
        assert(x < (d + 1) * e) by (nonlinear_arith)
            requires
                x < (q + 1) * e,
                q <= d,
                e > 0,
        ;
    }
}

/// On a congested channel, a sent message multiplies the fee factor by
/// `1.05` plus `0.001` for every full kilobyte of the message: the new factor
/// is `f * (1.05 + (message_size / 1024) * 0.001)`, rounded down and
/// saturated at the largest value, for every factor `f`.
pub proof fn lemma_congested_send_multiplies_factor(f: u128, message_size: u32)
    ensures
        ({
            let p = (f * (1_050_000_000_000_000_000 + (message_size / 1024) as int
                * 1_000_000_000_000_000)) / 1_000_000_000_000_000_000int;
            spec_on_message_sent(f, true, message_size) == (if p > u128::MAX {
                u128::MAX as int
            } else {
                p
            })
        }),
{
    let d: int = 1_000_000_000_000_000_000;
    let b: int = 1_000_000_000_000_000;
    let k: int = (message_size / 1024) as int;
    assert(0 <= k <= 4_194_303);
    let x: int = k * d;
    assert(x * b == d * (k * b)) by (nonlinear_arith)
        requires
            x == k * d,
    ;
    assert(0 <= k * b <= 4_194_303 * b) by (nonlinear_arith)
        requires
            0 <= k <= 4_194_303,
            b == 1_000_000_000_000_000,
    ;
    vstd::arithmetic::div_mod::lemma_div_multiples_vanish(k * b, d);
    assert(spec_fixed_saturating_mul(x as u128, spec_message_size_fee_base()) == k * b);
    assert(spec_total_factor(message_size) == 1_050_000_000_000_000_000 + k * b);
}

/// The router serves no network but the bridged one, whatever the bridges
/// table answers.
pub proof fn lemma_exporter_serves_only_bridged_network(
    config: RouterConfig,
    network: Seq<u8>,
    route: Option<BridgeRoute>,
)
    requires
        network != config.bridged_network_id@,
    ensures
        !spec_exporter_applies(config, network, route),
{
}

/// The router serves no route that goes through another bridge hub than the
/// sibling one, whatever the payment of the route.
pub proof fn lemma_exporter_serves_only_sibling_hub(
    config: RouterConfig,
    network: Seq<u8>,
    route: BridgeRoute,
)
    requires
        route.bridge_hub_location@ != config.sibling_bridge_hub_location@,
    ensures
        !spec_exporter_applies(config, network, Some(route)),
{
}

/// The router serves no route whose base fee is not a fungible amount of the
/// fee asset.
pub proof fn lemma_exporter_fee_only_in_fee_asset(
    config: RouterConfig,
    network: Seq<u8>,
    route: BridgeRoute,
)
    requires
        route.payment matches Some(payment) && (payment.asset_id@ != config.fee_asset@
            || payment.amount is NonFungible),
    ensures
        !spec_exporter_applies(config, network, Some(route)),
{
}

/// The router serves every message to the bridged network that the bridges
/// table routes through the sibling bridge hub, without a base fee or with a
/// fungible base fee in the fee asset.
pub proof fn lemma_exporter_serves_configured_route(
    config: RouterConfig,
    route: BridgeRoute,
)
    requires
        route.bridge_hub_location@ == config.sibling_bridge_hub_location@,
        route.payment matches Some(payment) ==> payment.asset_id@ == config.fee_asset@
            && payment.amount is Fungible,
    ensures
        spec_exporter_applies(config, config.bridged_network_id@, Some(route)),
{
}

/// The base fee of a served route is its fungible amount, or zero without a
/// payment.
pub proof fn lemma_base_fee_of_route(route: BridgeRoute)
    ensures
        route.payment is None ==> spec_base_fee(route) == 0,
        match route.payment {
            Some(BridgePayment { amount: PaymentAmount::Fungible(amount), .. }) => spec_base_fee(
                route,
            ) == amount,
            _ => true,
        },
{
}

/// The bridge fee is the factor times the base fee plus the byte fee of every
/// byte, `factor * (base_fee + message_size * byte_fee) / 10^18` rounded
/// down, saturated at the largest value when the sum or the product does not
/// fit.
pub proof fn lemma_bridge_fee_formula(
    factor: u128,
    base_fee: u128,
    byte_fee: u128,
    message_size: usize,
)
    ensures
        ({
            let sum = base_fee + message_size * byte_fee;
            let p = (factor * sum) / 1_000_000_000_000_000_000int;
            &&& sum <= u128::MAX && p <= u128::MAX ==> spec_bridge_fee(
                factor,
                base_fee,
                byte_fee,
                message_size,
            ) == p
            &&& sum <= u128::MAX && p > u128::MAX ==> spec_bridge_fee(
                factor,
                base_fee,
                byte_fee,
                message_size,
            ) == u128::MAX
        }),
{
    assert(message_size * byte_fee >= 0) by (nonlinear_arith)
        requires
            message_size >= 0,
            byte_fee >= 0,
    ;
}

/// Dividing a factor by the exponential base never overflows: the quotient is
/// below the factor.
proof fn lemma_div_by_exponential_base_below(f: u128)
    ensures
        spec_fixed_div(f, spec_exponential_fee_base()) <= f,
        f > 0 ==> spec_fixed_div(f, spec_exponential_fee_base()) < f,
{
    let e = spec_exponential_fee_base() as int;
    let a = f * FIXED_DIV;
    assert(a <= e * f) by (nonlinear_arith)
        requires
            a == f * FIXED_DIV,
            e == 1_050_000_000_000_000_000int,
            f >= 0,
    ;
    vstd::arithmetic::div_mod::lemma_multiply_divide_le(a, e, f as int);
    if f > 0 {
        assert(a < e * f) by (nonlinear_arith)
            requires
                a == f * FIXED_DIV,
                e == 1_050_000_000_000_000_000int,
                f > 0,
        ;
        vstd::arithmetic::div_mod::lemma_multiply_divide_lt(a, e, f as int);
    }
}

} // verus!
