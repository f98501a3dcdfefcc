//! Decisions of the equivocation detection loop.
//!
//! The loop watches the headers that the target chain has finalized, and
//! checks every block of a range for equivocations reported by the source
//! chain. The waiting, the client calls and the checks themselves are outside
//! work; this module holds the block-range bookkeeping that decides which
//! block is checked next.
//!
//! The loop is generic over the block number type of the target chain.

use vstd::prelude::*;

verus! {

/// The value after `v`, saturated at `max`.
pub open spec fn spec_saturating_next(v: int, max: int) -> int {
    if v >= max {
        max
    } else {
        v + 1
    }
}

/// A block number of the target chain: an unsigned integer type.
pub trait BlockNumber: Copy + Sized {
    /// The number as an integer.
    spec fn spec_value(self) -> int;

    /// The largest block number.
    spec fn spec_max() -> int;

    /// The block number after this one, saturated at the largest one.
    spec fn spec_next(self) -> Self;

    /// Block numbers are the integers from zero to the largest one, each
    /// given by one value, and the next one counts up by one until it
    /// saturates.
    proof fn lemma_block_number(a: Self, b: Self)
        ensures
            0 <= a.spec_value() <= Self::spec_max(),
            a.spec_value() == b.spec_value() ==> a == b,
            a.spec_next().spec_value() == spec_saturating_next(a.spec_value(), Self::spec_max()),
    ;

    /// Whether this block number is at most `other`.
    fn le(&self, other: &Self) -> (r: bool)
        ensures
            r == (self.spec_value() <= other.spec_value()),
    ;

    /// The block number after this one, saturated at the largest one.
    fn saturating_next(&self) -> (r: Self)
        ensures
            r == self.spec_next(),
    ;
}

/// `num_traits::Saturating::saturating_add` on a `u32` block number: the
/// sum, saturated at the largest value.
#[verifier::external_body]
fn u32_saturating_add(n: u32, m: u32) -> (r: u32)
    ensures
        r == (if n + m > u32::MAX {
            u32::MAX
        } else {
            (n + m) as u32
        }),
{
    num_traits::Saturating::saturating_add(n, m)
}

/// `num_traits::Saturating::saturating_add` on a `u64` block number: the
/// sum, saturated at the largest value.
#[verifier::external_body]
fn u64_saturating_add(n: u64, m: u64) -> (r: u64)
    ensures
        r == (if n + m > u64::MAX {
            u64::MAX
        } else {
            (n + m) as u64
        }),
{
    num_traits::Saturating::saturating_add(n, m)
}

impl BlockNumber for u32 {
    open spec fn spec_value(self) -> int {
        self as int
    }

    open spec fn spec_max() -> int {
        u32::MAX as int
    }

    open spec fn spec_next(self) -> Self {
        if self == u32::MAX {
            self
        } else {
            (self + 1) as u32
        }
    }

    proof fn lemma_block_number(a: Self, b: Self) {
    }

    fn le(&self, other: &Self) -> (r: bool) {
        *self <= *other
    }

    fn saturating_next(&self) -> (r: Self) {
        u32_saturating_add(*self, 1)
    }
}

impl BlockNumber for u64 {
    open spec fn spec_value(self) -> int {
        self as int
    }

    open spec fn spec_max() -> int {
        u64::MAX as int
    }

    open spec fn spec_next(self) -> Self {
        if self == u64::MAX {
            self
        } else {
            (self + 1) as u64
        }
    }

    proof fn lemma_block_number(a: Self, b: Self) {
    }

    fn le(&self, other: &Self) -> (r: bool) {
        *self <= *other
    }

    fn saturating_next(&self) -> (r: Self) {
        u64_saturating_add(*self, 1)
    }
}

/// What the loop does next.
#[derive(Debug, Clone, Copy, PartialEq, Eq)]
pub enum LoopAction<N> {
    /// No range of blocks is known yet: start the next iteration at once.
    Restart,
    /// Check the block `block`; the current pass ends after the block `until`.
    CheckBlock { block: N, until: N },
    /// The pass is over: wait for the next tick or for the exit signal.
    Sleep,
}

/// The blocks range of the equivocation detection loop.
#[derive(Debug, Clone, Copy, PartialEq, Eq)]
pub struct EquivocationDetectionLoop<N> {
    /// The first block to check: the best finalized target block when the
    /// loop first learned of one. It never changes afterwards.
    pub from_block_num: Option<N>,
    /// The last block to check in the current pass; after a pass, the block
    /// after the last one checked.
    pub until_block_num: Option<N>,
}

/// The range of blocks before a pass starts, once the best finalized target
/// block is known (or not).
pub open spec fn spec_updated_range<N>(
    s: EquivocationDetectionLoop<N>,
    best_finalized: Option<N>,
) -> EquivocationDetectionLoop<N> {
    match best_finalized {
        Some(b) => EquivocationDetectionLoop {
            from_block_num: if s.from_block_num is Some { s.from_block_num } else { Some(b) },
            until_block_num: Some(b),
        },
        None => s,
    }
}

/// The action after the block `block` of a pass that ends after `until`
/// has been checked.
pub open spec fn spec_after_block_checked<N: BlockNumber>(block: N, until: N) -> LoopAction<N> {
    let next = block.spec_next();
    if next.spec_value() <= until.spec_value() {
        LoopAction::CheckBlock { block: next, until }
    } else {
        LoopAction::Sleep
    }
}

/// The action of a pass that started with checking the block `from` and
/// has since checked `k` blocks.
pub open spec fn spec_pass_action<N: BlockNumber>(from: N, until: N, k: nat) -> LoopAction<N>
    decreases k,
{
    if k == 0 {
        LoopAction::CheckBlock { block: from, until }
    } else {
        match spec_pass_action(from, until, (k - 1) as nat) {
            LoopAction::CheckBlock { block, until } => spec_after_block_checked(block, until),
            other => other,
        }
    }
}

impl<N: BlockNumber> EquivocationDetectionLoop<N> {
    /// The loop as it starts: no range of blocks known.
    pub fn new() -> (s: Self)
        ensures
            s.from_block_num is None,
            s.until_block_num is None,
    {
        EquivocationDetectionLoop { from_block_num: None, until_block_num: None }
    }

    /// Starts a pass once the best finalized target block is read, `None`
    /// when reading it failed: the first block of the loop is set once, the
    /// last block of the pass is the best finalized one. The pass checks the
    /// blocks from the first to the last, in order.
    pub fn update_blocks_range(&mut self, best_finalized: Option<N>) -> (a: LoopAction<N>)
        ensures
            ({
                let r = spec_updated_range(*old(self), best_finalized);
                &&& final(self).from_block_num == r.from_block_num
                &&& match (r.from_block_num, r.until_block_num) {
                    (Some(from), Some(until)) => if from.spec_value() <= until.spec_value() {
                        &&& a == (LoopAction::CheckBlock { block: from, until })
                        &&& final(self).until_block_num == Some(until)
                    } else {
                        &&& a == LoopAction::<N>::Sleep
                        &&& final(self).until_block_num == Some(from)
                    },
                    _ => a == LoopAction::<N>::Restart && final(self).until_block_num
                        == r.until_block_num,
                }
            }),
    {
        if let Some(block_number) = best_finalized {
            if self.from_block_num.is_none() {
                self.from_block_num = Some(block_number);
            }
            self.until_block_num = Some(block_number);
        }
        let (from, until) = match (self.from_block_num, self.until_block_num) {
            (Some(from), Some(until)) => (from, until),
            _ => return LoopAction::Restart,
        };
        if from.le(&until) {
            LoopAction::CheckBlock { block: from, until }
        } else {
            self.until_block_num = Some(from);
            LoopAction::Sleep
        }
    }

    /// After the block `block` of a pass that ends after `until` has been
    /// checked: the next block is checked, or the pass is over and the block
    /// after the last checked one is recorded.
    pub fn on_block_checked(&mut self, block: N, until: N) -> (a: LoopAction<N>)
        ensures
            final(self).from_block_num == old(self).from_block_num,
            a == spec_after_block_checked(block, until),
            final(self).until_block_num == (if a is Sleep {
                Some(block.spec_next())
            } else {
                old(self).until_block_num
            }),
    {
        let next = block.saturating_next();
        if next.le(&until) {
            LoopAction::CheckBlock { block: next, until }
        } else {
            self.until_block_num = Some(next);
            LoopAction::Sleep
        }
    }
}

/// Once the first block of the loop is known, it never changes: neither
/// starting a pass nor checking a block moves it.
pub proof fn lemma_first_block_never_changes<N>(
    s: EquivocationDetectionLoop<N>,
    best_finalized: Option<N>,
)
    requires
        s.from_block_num is Some,
    ensures
        spec_updated_range(s, best_finalized).from_block_num == s.from_block_num,
{
}

/// A pass from the block `from` to the block `until` checks every block of
/// the range once, in increasing order, and ends right after `until`.
pub proof fn lemma_pass_checks_range_in_order<N: BlockNumber>(from: N, until: N, k: nat)
    requires
        from.spec_value() <= until.spec_value() < N::spec_max(),
        k <= until.spec_value() - from.spec_value() + 1,
    ensures
        k <= until.spec_value() - from.spec_value() ==> (spec_pass_action(from, until, k) matches
            LoopAction::CheckBlock { block, until: u } && block.spec_value() == from.spec_value()
            + k && u == until),
        k == until.spec_value() - from.spec_value() + 1 ==> spec_pass_action(from, until, k)
            == LoopAction::<N>::Sleep,
    decreases k,
{
    if k > 0 {
        lemma_pass_checks_range_in_order(from, until, (k - 1) as nat);
        if let LoopAction::CheckBlock { block, until: u } = spec_pass_action(
            from,
            until,
            (k - 1) as nat,
        ) {
            N::lemma_block_number(block, until);
        }
    }
}

/// At the largest block number the pass never ends: the next block number
/// saturates and the last block is checked again and again.
pub proof fn lemma_pass_at_largest_block_never_ends<N: BlockNumber>(last: N, k: nat)
    requires
        last.spec_value() == N::spec_max(),
    ensures
        spec_pass_action(last, last, k) == (LoopAction::CheckBlock { block: last, until: last }),
    decreases k,
{
    if k > 0 {
        lemma_pass_at_largest_block_never_ends(last, (k - 1) as nat);
        N::lemma_block_number(last, last.spec_next());
    }
}

} // verus!
