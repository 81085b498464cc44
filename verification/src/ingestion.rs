//! Planning of event ingestion: which blocks a batch of filters needs, in what
//! order blocks are processed, which block a finality policy targets, and how
//! provider calls are retried.
use vstd::prelude::*;
use crate::events::Event;
use crate::text::string_views;
use std::collections::HashMap;
use crate::chain_reorg::{Execution, MinConfirmationCount};
use vstd::arithmetic::power::pow;
use vstd::arithmetic::power2::{lemma_pow2, lemma_pow2_pos, lemma_pow2_strictly_increases, lemma_pow2_unfold, pow2};
use vstd::arithmetic::mul::{lemma_mul_increases, lemma_mul_inequality, lemma_mul_is_commutative};

verus! {

/// One contract's log query over a block range, for the events whose first topic is
/// one of `topics` (event signature hashes as hex text).
#[derive(Clone, Debug)]
pub struct Filter {
    pub contract_address_id: i64,
    pub address: String,
    pub from_block: u64,
    pub to_block: u64,
    pub topics: Vec<String>,
}

/// The `(from, to)` block ranges of filters.
pub open spec fn filter_ranges(filters: Seq<Filter>) -> Seq<(u64, u64)> {
    filters.map_values(|f: Filter| (f.from_block, f.to_block))
}

/// The first block a filter needs, reaching `lookback` blocks back (never below zero).
pub open spec fn range_start(range: (u64, u64), lookback: u64) -> int {
    if range.0 < lookback { 0 } else { range.0 - lookback }
}

/// The last block a filter needs: its end, but not past the current block.
pub open spec fn range_end(range: (u64, u64), current: u64) -> int {
    if range.1 < current { range.1 as int } else { current as int }
}

/// Whether a filter with block range `range` needs block `n`.
pub open spec fn covers(range: (u64, u64), current: u64, lookback: u64, n: int) -> bool {
    range_start(range, lookback) <= n <= range_end(range, current)
}

/// Whether some filter needs block `n`.
pub open spec fn needed_by(ranges: Seq<(u64, u64)>, current: u64, lookback: u64, n: int) -> bool {
    exists|i: int| 0 <= i < ranges.len() && #[trigger] covers(ranges[i], current, lookback, n)
}

/// Whether a sequence is strictly increasing.
pub open spec fn strictly_increasing(s: Seq<u64>) -> bool {
    forall|i: int, j: int| 0 <= i < j < s.len() ==> s[i] < s[j]
}

/// The smallest block above `after` that some filter needs (or the smallest needed
/// block at all when `after` is `None`), if any.
fn next_needed_block(filters: &[Filter], current: u64, lookback: u64, after: Option<u64>) -> (next: Option<u64>)
    requires
        after matches Some(a) ==> a < u64::MAX,
    ensures
        next matches Some(n) ==> needed_by(filter_ranges(filters@), current, lookback, n as int) && (
        after matches Some(a) ==> a < n) && forall|m: int|
            needed_by(filter_ranges(filters@), current, lookback, m) && (after matches Some(a) ==> a
                < m) ==> n <= m,
        next is None ==> forall|m: int|
            needed_by(filter_ranges(filters@), current, lookback, m) ==> (after matches Some(a) && m
                <= a),
{
    let ghost ranges = filter_ranges(filters@);
    let mut best: Option<u64> = None;
    let mut i: usize = 0;
    while i < filters.len()
        invariant
            i <= filters@.len(),
            ranges == filter_ranges(filters@),
            after matches Some(a) ==> a < u64::MAX,
            best matches Some(b) ==> needed_by(ranges, current, lookback, b as int) && (after matches Some(
                a,
            ) ==> a < b),
            forall|j: int, m: int|
                0 <= j < i && #[trigger] covers(ranges[j], current, lookback, m) && (after matches Some(
                    a,
                ) ==> a < m) ==> (best matches Some(b) && b <= m),
        decreases filters.len() - i,
    {
        let f = &filters[i];
        assert(ranges[i as int] == (f.from_block, f.to_block));
        let lo = f.from_block.saturating_sub(lookback);
        let hi = if f.to_block < current { f.to_block } else { current };
        let start = match after {
            Some(a) => if lo > a + 1 { lo } else { a + 1 },
            None => lo,
        };
        if start <= hi {
            assert(covers(ranges[i as int], current, lookback, start as int));
            let better = match best {
                Some(b) => start < b,
                None => true,
            };
            if better {
                best = Some(start);
            }
        }
        i = i + 1;
    }
    best
}

/// The blocks a batch of filters needs: every block from a filter's start, reaching
/// `lookback_block_count` blocks back, to its end, capped at the current block;
/// each block once, in ascending order.
pub fn block_numbers_for_filters(
    filters: &[Filter],
    current_block_number: u64,
    lookback_block_count: u64,
) -> (blocks: Vec<u64>)
    ensures
        strictly_increasing(blocks@),
        forall|k: int|
            0 <= k < blocks@.len() ==> needed_by(
                filter_ranges(filters@),
                current_block_number,
                lookback_block_count,
                #[trigger] blocks@[k] as int,
            ),
        forall|n: int|
            needed_by(filter_ranges(filters@), current_block_number, lookback_block_count, n)
                ==> 0 <= n <= u64::MAX && blocks@.contains(n as u64),
{
    let ghost ranges = filter_ranges(filters@);
    let mut blocks: Vec<u64> = Vec::new();
    let mut after: Option<u64> = None;
    loop
        invariant
            ranges == filter_ranges(filters@),
            strictly_increasing(blocks@),
            after is None <==> blocks@.len() == 0,
            after matches Some(a) ==> a == blocks@.last(),
            forall|k: int| 0 <= k < blocks@.len() ==> needed_by(
                ranges,
                current_block_number,
                lookback_block_count,
                #[trigger] blocks@[k] as int,
            ),
            forall|m: int|
                needed_by(ranges, current_block_number, lookback_block_count, m) && (after matches Some(
                    a,
                ) ==> m <= a) && after is Some ==> blocks@.contains(m as u64),
            forall|m: int| needed_by(ranges, current_block_number, lookback_block_count, m) ==> 0 <= m <= u64::MAX,
        ensures
            forall|m: int|
                needed_by(ranges, current_block_number, lookback_block_count, m) ==> blocks@.contains(
                    m as u64,
                ),
        decreases (if after is Some { u64::MAX - after->0 } else { u64::MAX + 1 }),
    {
        if let Some(a) = after {
            if a == u64::MAX {
                break;
            }
        }
        match next_needed_block(filters, current_block_number, lookback_block_count, after) {
            None => break,
            Some(n) => {
                let ghost old_blocks = blocks@;
                blocks.push(n);
                proof {
                    assert forall|m: int|
                        needed_by(ranges, current_block_number, lookback_block_count, m) && m <= n
                            implies blocks@.contains(m as u64) by {
                        if m == n {
                            assert(blocks@[old_blocks.len() as int] == n);
                        } else {
                            assert(old_blocks.contains(m as u64));
                            let k = choose|k: int| 0 <= k < old_blocks.len() && old_blocks[k] == m as u64;
                            assert(blocks@[k] == m as u64);
                        }
                    }
                }
                after = Some(n);
            },
        }
    }
    blocks
}

} // verus!

verus! {

/// `2^e`, saturating at `u64::MAX`.
pub open spec fn saturating_pow2(e: nat) -> int {
    if pow2(e) > u64::MAX { u64::MAX as int } else { pow2(e) as int }
}

/// The delay before the next attempt after `retries_so_far` failed retries:
/// `base * 2^retries`, saturating at `u64::MAX`, and capped at `max`.
pub open spec fn backoff_delay_ms(retries_so_far: nat, base_backoff_ms: u64, max_backoff_ms: u64) -> int {
    let grown = base_backoff_ms * pow2(retries_so_far);
    let saturated = if grown > u64::MAX { u64::MAX as int } else { grown };
    if saturated < max_backoff_ms { saturated } else { max_backoff_ms as int }
}

fn pow2_saturating(e: u32) -> (p: u64)
    ensures
        p == saturating_pow2(e as nat),
{
    let mut p: u64 = 1;
    let mut i: u32 = 0;
    proof {
        reveal(pow);
        lemma_pow2(0);
    }
    while i < e
        invariant
            i <= e,
            p == saturating_pow2(i as nat),
        decreases e - i,
    {
        proof {
            lemma_pow2_unfold((i + 1) as nat);
        }
        if p > u64::MAX / 2 {
            p = u64::MAX;
        } else {
            p = p * 2;
        }
        i = i + 1;
    }
    p
}

/// The capped exponential backoff after `retries_so_far` retries:
/// `min(base * 2^retries, max)`, with the product saturating.
pub fn backoff_delay(retries_so_far: u32, base_backoff_ms: u64, max_backoff_ms: u64) -> (delay_ms: u64)
    ensures
        delay_ms == backoff_delay_ms(retries_so_far as nat, base_backoff_ms, max_backoff_ms),
{
    let p = pow2_saturating(retries_so_far);
    let ghost e = retries_so_far as nat;
    proof {
        lemma_pow2_pos(e);
        if base_backoff_ms > 0 {
            lemma_mul_increases(base_backoff_ms as int, pow2(e) as int);
        }
    }
    let grown: u64 = match base_backoff_ms.checked_mul(p) {
        Some(product) => {
            proof {
                if pow2(e) > u64::MAX {
                    assert(base_backoff_ms <= 1) by (nonlinear_arith)
                        requires
                            product == base_backoff_ms * p,
                            p == u64::MAX,
                            product <= u64::MAX,
                    ;
                }
            }
            product
        },
        None => {
            proof {
                if pow2(e) <= u64::MAX {
                    assert(p == pow2(e));
                } else {
                    assert(base_backoff_ms * pow2(e) >= pow2(e));
                }
            }
            u64::MAX
        },
    };
    if grown < max_backoff_ms {
        grown
    } else {
        max_backoff_ms
    }
}

/// How often and how patiently a provider call is retried.
#[derive(Clone, Copy, Debug, PartialEq, Eq, Structural)]
pub struct RetryPolicy {
    pub max_attempts: u32,
    pub base_backoff_ms: u64,
    pub max_backoff_ms: u64,
}

impl RetryPolicy {
    /// A policy that is usable as given: at least one attempt, a backoff of at least
    /// one millisecond, and a cap no lower than the base.
    pub open spec fn is_normalized(self) -> bool {
        &&& self.max_attempts >= 1
        &&& self.base_backoff_ms >= 1
        &&& self.max_backoff_ms >= self.base_backoff_ms
    }

    /// Raises each limit to its floor: `max_attempts.max(1)`, `base.max(1)`,
    /// and `max.max(base)`.
    pub fn normalized(max_attempts: u32, base_backoff_ms: u64, max_backoff_ms: u64) -> (policy: Self)
        ensures
            policy.is_normalized(),
            policy.max_attempts == if max_attempts < 1 { 1 } else { max_attempts },
            policy.base_backoff_ms == if base_backoff_ms < 1 { 1 } else { base_backoff_ms },
            policy.max_backoff_ms == if max_backoff_ms < policy.base_backoff_ms {
                policy.base_backoff_ms
            } else {
                max_backoff_ms
            },
    {
        let attempts = if max_attempts < 1 { 1 } else { max_attempts };
        let base = if base_backoff_ms < 1 { 1 } else { base_backoff_ms };
        let max = if max_backoff_ms < base { base } else { max_backoff_ms };
        RetryPolicy { max_attempts: attempts, base_backoff_ms: base, max_backoff_ms: max }
    }

    /// The policy of plain provider calls: five attempts, one second doubling up to
    /// thirty seconds.
    pub fn provider_default() -> (policy: Self)
        ensures
            policy == (RetryPolicy { max_attempts: 5, base_backoff_ms: 1_000, max_backoff_ms: 30_000 }),
    {
        Self::normalized(5, 1_000, 30_000)
    }

    /// What to do after attempt number `attempts` failed: `None` when the attempts are
    /// used up (the error is returned), otherwise the delay before the next attempt.
    pub fn after_failure(&self, attempts: u32) -> (delay_ms: Option<u64>)
        requires
            attempts >= 1,
        ensures
            attempts >= self.max_attempts ==> delay_ms is None,
            attempts < self.max_attempts ==> delay_ms == Some(
                backoff_delay_ms((attempts - 1) as nat, self.base_backoff_ms, self.max_backoff_ms) as u64,
            ),
    {
        if attempts >= self.max_attempts {
            None
        } else {
            Some(backoff_delay(attempts - 1, self.base_backoff_ms, self.max_backoff_ms))
        }
    }
}

/// A later retry never waits less than an earlier one, and no wait exceeds the cap.
pub proof fn lemma_backoff_monotone_and_capped(r1: nat, r2: nat, base_backoff_ms: u64, max_backoff_ms: u64)
    requires
        r1 <= r2,
    ensures
        backoff_delay_ms(r1, base_backoff_ms, max_backoff_ms) <= backoff_delay_ms(
            r2,
            base_backoff_ms,
            max_backoff_ms,
        ),
        backoff_delay_ms(r2, base_backoff_ms, max_backoff_ms) <= max_backoff_ms,
{
    if r1 < r2 {
        lemma_pow2_strictly_increases(r1, r2);
        lemma_mul_inequality(pow2(r1) as int, pow2(r2) as int, base_backoff_ms as int);
        lemma_mul_is_commutative(pow2(r1) as int, base_backoff_ms as int);
        lemma_mul_is_commutative(pow2(r2) as int, base_backoff_ms as int);
    }
}

/// Which block a policy indexes up to.
#[derive(Clone, Copy, Debug, PartialEq, Eq, Structural)]
pub enum IndexingFinality {
    /// The current block minus this many confirmations.
    LatestWithConfirmations(u64),
    /// The provider's `safe` block.
    Safe,
    /// The provider's `finalized` block.
    Finalized,
}

/// A block tag a provider resolves.
#[derive(Clone, Copy, Debug, PartialEq, Eq, Structural)]
pub enum BlockTag {
    Safe,
    Finalized,
}

/// The tag to ask the provider for, if the policy needs one.
pub fn finality_tag(finality: IndexingFinality) -> (tag: Option<BlockTag>)
    ensures
        tag == match finality {
            IndexingFinality::LatestWithConfirmations(_) => None::<BlockTag>,
            IndexingFinality::Safe => Some(BlockTag::Safe),
            IndexingFinality::Finalized => Some(BlockTag::Finalized),
        },
{
    match finality {
        IndexingFinality::LatestWithConfirmations(_) => None,
        IndexingFinality::Safe => Some(BlockTag::Safe),
        IndexingFinality::Finalized => Some(BlockTag::Finalized),
    }
}

/// The block to index up to: `current - confirmations` (never below zero), or the
/// block the provider reported for the tag, falling back to the current block when
/// it reported none.
pub fn target_block_number(current_block_number: u64, finality: IndexingFinality, tagged_block: Option<u64>) -> (target: u64)
    ensures
        target == match finality {
            IndexingFinality::LatestWithConfirmations(c) => if c <= current_block_number {
                (current_block_number - c) as u64
            } else {
                0u64
            },
            _ => match tagged_block {
                Some(b) => b,
                None => current_block_number,
            },
        },
{
    match finality {
        IndexingFinality::LatestWithConfirmations(confirmations) => current_block_number.saturating_sub(
            confirmations,
        ),
        _ => match tagged_block {
            Some(b) => b,
            None => current_block_number,
        },
    }
}

} // verus!

verus! {

impl Filter {
    /// A copy of the filter.
    pub fn duplicate(&self) -> (copy: Filter)
        ensures
            filter_view(copy) == filter_view(*self),
            copy.contract_address_id == self.contract_address_id,
            copy.address == self.address,
            copy.from_block == self.from_block,
            copy.to_block == self.to_block,
    {
        Filter {
            contract_address_id: self.contract_address_id,
            address: self.address.clone(),
            from_block: self.from_block,
            to_block: self.to_block,
            topics: copy_strings(&self.topics),
        }
    }
}

proof fn lemma_push_contains<T>(s: Seq<T>, x: T)
    ensures
        forall|y: T| #[trigger] s.push(x).contains(y) <==> (s.contains(y) || y == x),
{
    assert forall|y: T| #[trigger] s.push(x).contains(y) <==> (s.contains(y) || y == x) by {
        if s.push(x).contains(y) {
            let k = choose|k: int| 0 <= k < s.push(x).len() && s.push(x)[k] == y;
            if k < s.len() {
                assert(s[k] == y);
            }
        }
        if s.contains(y) {
            let k = choose|k: int| 0 <= k < s.len() && s[k] == y;
            assert(s.push(x)[k] == y);
        }
        if y == x {
            assert(s.push(x)[s.len() as int] == y);
        }
    }
}

proof fn lemma_insert_contains(before: Seq<u64>, p: int, x: u64)
    requires
        0 <= p <= before.len(),
    ensures
        forall|y: u64| #[trigger] before.insert(p, x).contains(y) <==> (before.contains(y) || y == x),
{
    let after = before.insert(p, x);
    assert forall|y: u64| #[trigger] after.contains(y) <==> (before.contains(y) || y == x) by {
        if after.contains(y) {
            let k = choose|k: int| 0 <= k < after.len() && after[k] == y;
            if k < p {
                assert(before[k] == y);
            } else if k > p {
                assert(before[k - 1] == y);
            }
        }
        if before.contains(y) {
            let k = choose|k: int| 0 <= k < before.len() && before[k] == y;
            if k < p {
                assert(after[k] == y);
            } else {
                assert(after[k + 1] == y);
            }
        }
        if y == x {
            assert(after[p] == x);
        }
    }
}

proof fn lemma_insert_sorted(before: Seq<u64>, p: int, x: u64)
    requires
        0 <= p <= before.len(),
        strictly_increasing(before),
        forall|k: int| 0 <= k < p ==> before[k] < x,
        p < before.len() ==> before[p] > x,
    ensures
        strictly_increasing(before.insert(p, x)),
{
    let after = before.insert(p, x);
    assert forall|i: int, j: int| 0 <= i < j < after.len() implies after[i] < after[j] by {
        if j < p {
        } else if j == p {
        } else if i < p {
            if j - 1 > p {
                assert(before[p] < before[j - 1]);
            }
        } else if i == p {
            if j - 1 > p {
                assert(before[p] < before[j - 1]);
            }
        } else {
            assert(before[i - 1] < before[j - 1]);
        }
    }
}

/// Inserts `x` into a strictly increasing vector, unless it is already there.
fn insert_sorted(v: &mut Vec<u64>, x: u64)
    requires
        strictly_increasing(old(v)@),
    ensures
        strictly_increasing(final(v)@),
        forall|y: u64| final(v)@.contains(y) <==> (old(v)@.contains(y) || y == x),
{
    let mut p: usize = 0;
    while p < v.len() && v[p] < x
        invariant
            p <= v@.len(),
            v@ == old(v)@,
            forall|k: int| 0 <= k < p ==> v@[k] < x,
        decreases v@.len() - p,
    {
        p = p + 1;
    }
    if p < v.len() && v[p] == x {
        assert(old(v)@[p as int] == x);
        assert(old(v)@.contains(x));
        return;
    }
    let ghost before = v@;
    proof {
        lemma_insert_contains(before, p as int, x);
        lemma_insert_sorted(before, p as int, x);
    }
    v.insert(p, x);
}

/// The distinct values of `values`, in ascending order.
pub fn sorted_distinct(values: &[u64]) -> (sorted: Vec<u64>)
    ensures
        strictly_increasing(sorted@),
        forall|y: u64| sorted@.contains(y) <==> values@.contains(y),
{
    let mut out: Vec<u64> = Vec::new();
    let mut i: usize = 0;
    while i < values.len()
        invariant
            i <= values@.len(),
            strictly_increasing(out@),
            forall|y: u64| out@.contains(y) <==> values@.take(i as int).contains(y),
        decreases values@.len() - i,
    {
        let ghost prefix = values@.take(i as int);
        insert_sorted(&mut out, values[i]);
        proof {
            let next = values@.take(i + 1);
            assert(next == prefix.push(values@[i as int]));
            assert forall|y: u64| next.contains(y) <==> (prefix.contains(y) || y == values@[i as int]) by {
                if next.contains(y) {
                    let k = choose|k: int| 0 <= k < next.len() && next[k] == y;
                    if k < prefix.len() {
                        assert(prefix[k] == y);
                    }
                }
                if prefix.contains(y) {
                    let k = choose|k: int| 0 <= k < prefix.len() && prefix[k] == y;
                    assert(next[k] == y);
                }
                if y == values@[i as int] {
                    assert(next[i as int] == y);
                }
            }
        }
        i = i + 1;
    }
    assert(values@.take(values@.len() as int) == values@);
    out
}

/// Whether some filter's own range (without lookback) holds block `n`.
pub open spec fn in_some_filter(filters: Seq<Filter>, n: u64) -> bool {
    exists|i: int|
        0 <= i < filters.len() && (#[trigger] filters[i]).from_block <= n && n <= filters[i].to_block
}

/// Of the fetched blocks, those inside some filter's own range (the lookback blocks
/// fetched for reorg detection are left out), in ascending order.
pub fn blocks_for_filters(filters: &[Filter], fetched_block_numbers: &[u64]) -> (blocks: Vec<u64>)
    ensures
        strictly_increasing(blocks@),
        forall|n: u64| blocks@.contains(n) <==> fetched_block_numbers@.contains(n) && in_some_filter(filters@, n),
{
    let mut chosen: Vec<u64> = Vec::new();
    let mut i: usize = 0;
    while i < fetched_block_numbers.len()
        invariant
            i <= fetched_block_numbers@.len(),
            forall|n: u64|
                chosen@.contains(n) <==> fetched_block_numbers@.take(i as int).contains(n) && in_some_filter(
                    filters@,
                    n,
                ),
        decreases fetched_block_numbers@.len() - i,
    {
        let n = fetched_block_numbers[i];
        let mut hit = false;
        let mut j: usize = 0;
        while j < filters.len()
            invariant
                j <= filters@.len(),
                hit == exists|k: int|
                    0 <= k < j && (#[trigger] filters@[k]).from_block <= n && n <= filters@[k].to_block,
            decreases filters@.len() - j,
        {
            if filters[j].from_block <= n && n <= filters[j].to_block {
                hit = true;
            }
            j = j + 1;
        }
        let ghost prefix = fetched_block_numbers@.take(i as int);
        let ghost before = chosen@;
        assert(hit == in_some_filter(filters@, n));
        if hit {
            chosen.push(n);
        }
        proof {
            let next = fetched_block_numbers@.take(i + 1);
            assert(next == prefix.push(n));
            assert forall|m: u64| chosen@.contains(m) <==> next.contains(m) && in_some_filter(filters@, m) by {
                if chosen@.contains(m) {
                    let k = choose|k: int| 0 <= k < chosen@.len() && chosen@[k] == m;
                    if k < before.len() {
                        assert(before[k] == m);
                        assert(before.contains(m));
                        assert(prefix.contains(m));
                        let q = choose|q: int| 0 <= q < prefix.len() && prefix[q] == m;
                        assert(next[q] == m);
                    } else {
                        assert(next[i as int] == m);
                    }
                }
                if next.contains(m) && in_some_filter(filters@, m) {
                    let q = choose|q: int| 0 <= q < next.len() && next[q] == m;
                    if q < prefix.len() {
                        assert(prefix[q] == m);
                        assert(before.contains(m));
                        let k = choose|k: int| 0 <= k < before.len() && before[k] == m;
                        assert(chosen@[k] == m);
                    } else {
                        assert(m == n);
                        assert(chosen@[chosen@.len() - 1] == m);
                    }
                }
            }
        }
        i = i + 1;
    }
    assert(fetched_block_numbers@.take(fetched_block_numbers@.len() as int) == fetched_block_numbers@);
    sorted_distinct(chosen.as_slice())
}

/// Whether block `n` is at or after the fork point, as a signed block number.
pub open spec fn at_or_after(n: u64, fork_point: i64) -> bool {
    n <= i64::MAX && n >= fork_point
}

/// Of the fetched blocks, those at or after the fork point (a block number that does
/// not fit in `i64` never is), in ascending order.
pub fn blocks_from_fork_point(fetched_block_numbers: &[u64], fork_point: i64) -> (blocks: Vec<u64>)
    ensures
        strictly_increasing(blocks@),
        forall|n: u64|
            #![trigger blocks@.contains(n)]
            #![trigger fetched_block_numbers@.contains(n)]
            blocks@.contains(n) <==> fetched_block_numbers@.contains(n) && at_or_after(n, fork_point),
{
    let mut chosen: Vec<u64> = Vec::new();
    let mut i: usize = 0;
    while i < fetched_block_numbers.len()
        invariant
            i <= fetched_block_numbers@.len(),
            forall|n: u64|
                #![trigger chosen@.contains(n)]
                #![trigger fetched_block_numbers@.take(i as int).contains(n)]
                chosen@.contains(n) <==> fetched_block_numbers@.take(i as int).contains(n) && at_or_after(n, fork_point),
        decreases fetched_block_numbers@.len() - i,
    {
        let n = fetched_block_numbers[i];
        let ghost prefix = fetched_block_numbers@.take(i as int);
        let ghost before = chosen@;
        let keep = n <= i64::MAX as u64 && n as i64 >= fork_point;
        assert(keep == (at_or_after(n, fork_point)));
        if keep {
            chosen.push(n);
        }
        proof {
            let next = fetched_block_numbers@.take(i + 1);
            assert(next == prefix.push(n));
            assert forall|m: u64|
                chosen@.contains(m) <==> next.contains(m) && at_or_after(m, fork_point) by {
                if chosen@.contains(m) {
                    let k = choose|k: int| 0 <= k < chosen@.len() && chosen@[k] == m;
                    if k < before.len() {
                        assert(before[k] == m);
                        assert(before.contains(m));
                        assert(prefix.contains(m));
                        let q = choose|q: int| 0 <= q < prefix.len() && prefix[q] == m;
                        assert(next[q] == m);
                    } else {
                        assert(next[i as int] == m);
                    }
                }
                if next.contains(m) && at_or_after(m, fork_point) {
                    let q = choose|q: int| 0 <= q < next.len() && next[q] == m;
                    if q < prefix.len() {
                        assert(prefix[q] == m);
                        assert(before.contains(m));
                        let k = choose|k: int| 0 <= k < before.len() && before[k] == m;
                        assert(chosen@[k] == m);
                    } else {
                        assert(m == n);
                        assert(chosen@[chosen@.len() - 1] == m);
                    }
                }
            }
        }
        i = i + 1;
    }
    assert(fetched_block_numbers@.take(fetched_block_numbers@.len() as int) == fetched_block_numbers@);
    sorted_distinct(chosen.as_slice())
}

} // verus!

verus! {

/// The filter with the highest end block; of several, the last one.
pub fn get_latest(filters: &[Filter]) -> (latest: Option<Filter>)
    ensures
        latest is None <==> filters@.len() == 0,
        latest matches Some(f) ==> exists|i: int|
            0 <= i < filters@.len() && filter_view(filters@[i]) == filter_view(f) && (forall|j: int|
                0 <= j < filters@.len() ==> #[trigger] filters@[j].to_block <= f.to_block) && (forall|j: int|
                i < j < filters@.len() ==> #[trigger] filters@[j].to_block < f.to_block),
{
    if filters.len() == 0 {
        return None;
    }
    let mut best: usize = 0;
    let mut i: usize = 1;
    while i < filters.len()
        invariant
            1 <= i <= filters@.len(),
            best < i,
            forall|j: int| 0 <= j < i ==> #[trigger] filters@[j].to_block <= filters@[best as int].to_block,
            forall|j: int| best < j < i ==> #[trigger] filters@[j].to_block < filters@[best as int].to_block,
        decreases filters@.len() - i,
    {
        if filters[i].to_block >= filters[best].to_block {
            best = i;
        }
        i = i + 1;
    }
    Some(filters[best].duplicate())
}

/// The highest end block among the filters of one contract address, if it has any.
pub open spec fn latest_to_block(filters: Seq<Filter>, contract_address_id: i64) -> Option<u64>
    decreases filters.len(),
{
    if filters.len() == 0 {
        None
    } else {
        let rest = latest_to_block(filters.drop_last(), contract_address_id);
        let last = filters.last();
        if last.contract_address_id == contract_address_id {
            match rest {
                Some(r) => Some(if r < last.to_block { last.to_block } else { r }),
                None => Some(last.to_block),
            }
        } else {
            rest
        }
    }
}

/// The block each contract address ingests from after a batch: one past the highest
/// end block of its filters, or `None` when the batch had no filter for it.
pub fn next_block_numbers_to_ingest_from(contract_address_ids: &[i64], filters: &[Filter]) -> (next: Vec<Option<u64>>)
    requires
        forall|j: int| 0 <= j < filters@.len() ==> #[trigger] filters@[j].to_block < u64::MAX,
    ensures
        next@.len() == contract_address_ids@.len(),
        forall|k: int|
            0 <= k < contract_address_ids@.len() ==> #[trigger] next@[k] == match latest_to_block(
                filters@,
                contract_address_ids@[k],
            ) {
                Some(b) => Some((b + 1) as u64),
                None => None::<u64>,
            },
{
    let mut next: Vec<Option<u64>> = Vec::new();
    let mut k: usize = 0;
    while k < contract_address_ids.len()
        invariant
            k <= contract_address_ids@.len(),
            next@.len() == k,
            forall|j: int| 0 <= j < filters@.len() ==> #[trigger] filters@[j].to_block < u64::MAX,
            forall|q: int|
                0 <= q < k ==> #[trigger] next@[q] == match latest_to_block(filters@, contract_address_ids@[q]) {
                    Some(b) => Some((b + 1) as u64),
                    None => None::<u64>,
                },
        decreases contract_address_ids@.len() - k,
    {
        let id = contract_address_ids[k];
        let mut latest: Option<u64> = None;
        let mut i: usize = 0;
        while i < filters.len()
            invariant
                i <= filters@.len(),
                latest == latest_to_block(filters@.take(i as int), id),
                latest matches Some(b) ==> exists|j: int| 0 <= j < i && filters@[j].to_block == b,
            decreases filters@.len() - i,
        {
            proof {
                assert(filters@.take(i + 1).drop_last() == filters@.take(i as int));
            }
            if filters[i].contract_address_id == id {
                latest = match latest {
                    Some(r) => Some(if r < filters[i].to_block { filters[i].to_block } else { r }),
                    None => Some(filters[i].to_block),
                };
            }
            i = i + 1;
        }
        assert(filters@.take(filters@.len() as int) == filters@);
        let entry = match latest {
            Some(b) => {
                proof {
                    let j = choose|j: int| 0 <= j < filters@.len() && filters@[j].to_block == b;
                    assert(filters@[j].to_block < u64::MAX);
                }
                Some(b + 1)
            },
            None => None,
        };
        next.push(entry);
        k = k + 1;
    }
    next
}

/// Whether a filter covers a single block (its range starts where it ends).
pub open spec fn is_current_block_filter(f: Filter) -> bool {
    f.from_block == f.to_block
}

/// The block of the last event ingested for a contract address, as the latest
/// events list them (a later entry for the same address wins).
pub open spec fn latest_event_block(events: Seq<Event>, contract_address: Seq<char>) -> Option<i64>
    decreases events.len(),
{
    if events.len() == 0 {
        None
    } else if events.last().contract_address@ == contract_address {
        Some(events.last().block_number)
    } else {
        latest_event_block(events.drop_last(), contract_address)
    }
}

/// A single-block filter whose block already holds the latest ingested event of
/// its contract address.
pub open spec fn already_ingested(f: Filter, latest_events: Seq<Event>) -> bool {
    &&& is_current_block_filter(f)
    &&& latest_event_block(latest_events, f.address@) matches Some(b)
    &&& b as u64 == f.to_block
}

/// Whether some already-ingested filter belongs to this contract address.
pub open spec fn has_already_ingested(filters: Seq<Filter>, latest_events: Seq<Event>, contract_address_id: i64) -> bool {
    exists|j: int|
        0 <= j < filters.len() && (#[trigger] filters[j]).contract_address_id == contract_address_id
            && already_ingested(filters[j], latest_events)
}

/// Whether the batch has a single-block filter, so that the latest ingested events
/// must be loaded before [`remove_already_ingested_filters`].
pub fn has_current_block_filters(filters: &[Filter]) -> (has: bool)
    ensures
        has == exists|j: int| 0 <= j < filters@.len() && is_current_block_filter(#[trigger] filters@[j]),
{
    let mut i: usize = 0;
    while i < filters.len()
        invariant
            i <= filters@.len(),
            forall|j: int| 0 <= j < i ==> !is_current_block_filter(#[trigger] filters@[j]),
        decreases filters@.len() - i,
    {
        if filters[i].from_block == filters[i].to_block {
            return true;
        }
        i = i + 1;
    }
    false
}

fn latest_event_block_of(latest_events: &[Event], contract_address: &String) -> (block: Option<i64>)
    ensures
        block == latest_event_block(latest_events@, contract_address@),
{
    let mut block: Option<i64> = None;
    let mut i: usize = 0;
    while i < latest_events.len()
        invariant
            i <= latest_events@.len(),
            block == latest_event_block(latest_events@.take(i as int), contract_address@),
        decreases latest_events@.len() - i,
    {
        proof {
            assert(latest_events@.take(i + 1).drop_last() == latest_events@.take(i as int));
        }
        if latest_events[i].contract_address == *contract_address {
            block = Some(latest_events[i].block_number);
        } else {
            proof {
                let t = latest_events@.take(i + 1);
                assert(t.last() == latest_events@[i as int]);
                assert(latest_event_block(latest_events@.take(i as int), contract_address@)
                    == latest_event_block(t, contract_address@));
            }
        }
        i = i + 1;
    }
    assert(latest_events@.take(latest_events@.len() as int) == latest_events@);
    block
}

/// Drops the filters of every contract address that has a single-block filter whose
/// block already holds its latest ingested event, keeping the others in order.
pub fn remove_already_ingested_filters(filters: &[Filter], latest_events: &[Event]) -> (kept: Vec<Filter>)
    ensures
        filter_views(kept@) == filter_views(filters@.filter(
            |f: Filter| !has_already_ingested(filters@, latest_events@, f.contract_address_id),
        )),
{
    let mut stale_ids: Vec<i64> = Vec::new();
    let mut i: usize = 0;
    while i < filters.len()
        invariant
            i <= filters@.len(),
            forall|id: i64|
                #[trigger] stale_ids@.contains(id) <==> has_already_ingested(
                    filters@.take(i as int),
                    latest_events@,
                    id,
                ),
        decreases filters@.len() - i,
    {
        let f = &filters[i];
        let ghost before_ids = stale_ids@;
        let ghost prefix = filters@.take(i as int);
        let ghost next = filters@.take(i + 1);
        if f.from_block == f.to_block {
            match latest_event_block_of(latest_events, &f.address) {
                Some(b) => {
                    if b as u64 == f.to_block {
                        stale_ids.push(f.contract_address_id);
                    }
                },
                None => {},
            }
        }
        proof {
            assert(next == prefix.push(filters@[i as int]));
            let pushed = already_ingested(filters@[i as int], latest_events@);
            assert(pushed ==> stale_ids@ == before_ids.push(filters@[i as int].contract_address_id));
            assert(!pushed ==> stale_ids@ == before_ids);
            lemma_push_contains(before_ids, filters@[i as int].contract_address_id);
            assert(next[i as int] == filters@[i as int]);
            assert forall|id: i64| #[trigger] stale_ids@.contains(id) <==> has_already_ingested(
                next,
                latest_events@,
                id,
            ) by {
                if pushed && id == filters@[i as int].contract_address_id {
                    assert(has_already_ingested(next, latest_events@, id));
                }
                if has_already_ingested(next, latest_events@, id) {
                    let j = choose|j: int|
                        0 <= j < next.len() && (#[trigger] next[j]).contract_address_id == id
                            && already_ingested(next[j], latest_events@);
                    if j < prefix.len() {
                        assert(prefix[j] == next[j]);
                        assert(has_already_ingested(prefix, latest_events@, id));
                    }
                }
                if has_already_ingested(prefix, latest_events@, id) {
                    let j = choose|j: int|
                        0 <= j < prefix.len() && (#[trigger] prefix[j]).contract_address_id == id
                            && already_ingested(prefix[j], latest_events@);
                    assert(next[j] == prefix[j]);
                }
            }
        }
        i = i + 1;
    }
    assert(filters@.take(filters@.len() as int) == filters@);
    let ghost pred = |f: Filter| !has_already_ingested(filters@, latest_events@, f.contract_address_id);
    let mut kept: Vec<Filter> = Vec::new();
    let mut i: usize = 0;
    while i < filters.len()
        invariant
            i <= filters@.len(),
            forall|id: i64| stale_ids@.contains(id) <==> has_already_ingested(filters@, latest_events@, id),
            pred == (|f: Filter| !has_already_ingested(filters@, latest_events@, f.contract_address_id)),
            filter_views(kept@) == filter_views(filters@.take(i as int).filter(pred)),
        decreases filters@.len() - i,
    {
        let id = filters[i].contract_address_id;
        let mut stale = false;
        let mut k: usize = 0;
        while k < stale_ids.len()
            invariant
                k <= stale_ids@.len(),
                stale == exists|q: int| 0 <= q < k && stale_ids@[q] == id,
            decreases stale_ids@.len() - k,
        {
            if stale_ids[k] == id {
                stale = true;
            }
            k = k + 1;
        }
        proof {
            assert(stale == stale_ids@.contains(id));
            let t = filters@.take(i + 1);
            assert(t.drop_last() == filters@.take(i as int));
            assert(t.last() == filters@[i as int]);
            reveal(Seq::filter);
        }
        if !stale {
            let ghost before = kept@;
            let copy = filters[i].duplicate();
            kept.push(copy);
            proof {
                let t = filters@.take(i + 1);
                assert(t.filter(pred) == filters@.take(i as int).filter(pred).push(filters@[i as int]));
                assert(filter_views(kept@) == filter_views(before).push(filter_view(copy)));
                assert(filter_views(filters@.take(i as int).filter(pred).push(filters@[i as int]))
                    == filter_views(filters@.take(i as int).filter(pred)).push(filter_view(filters@[i as int])));
            }
        } else {
            proof {
                let t = filters@.take(i + 1);
                assert(t.filter(pred) == filters@.take(i as int).filter(pred));
            }
        }
        i = i + 1;
    }
    assert(filters@.take(filters@.len() as int) == filters@);
    kept
}

} // verus!

verus! {

/// The batches in which `count` requests go out when at most `max_in_flight` run at
/// once (a limit of zero counts as one): consecutive half-open index ranges, all full
/// but the last.
pub fn request_batches(count: usize, max_in_flight: usize) -> (batches: Vec<(usize, usize)>)
    ensures
        batches@.len() == 0 <==> count == 0,
        batches@.len() > 0 ==> batches@[0].0 == 0 && batches@.last().1 == count,
        forall|k: int| 0 <= k < batches@.len() ==> (#[trigger] batches@[k]).1 <= count,
        forall|k: int|
            0 <= k < batches@.len() ==> 0 < (#[trigger] batches@[k]).1 - batches@[k].0 <= (if max_in_flight
                < 1 { 1 } else { max_in_flight }),
        forall|k: int|
            0 <= k < batches@.len() - 1 ==> (#[trigger] batches@[k]).1 == batches@[k + 1].0 && batches@[k].1
                - batches@[k].0 == (if max_in_flight < 1 { 1 } else { max_in_flight }),
{
    let size: usize = if max_in_flight < 1 { 1 } else { max_in_flight };
    let mut batches: Vec<(usize, usize)> = Vec::new();
    let mut start: usize = 0;
    while start < count
        invariant
            size == (if max_in_flight < 1 { 1 } else { max_in_flight }),
            start <= count,
            batches@.len() == 0 <==> start == 0,
            batches@.len() > 0 ==> batches@[0].0 == 0 && batches@.last().1 == start,
            forall|k: int| 0 <= k < batches@.len() ==> (#[trigger] batches@[k]).1 <= start,
            forall|k: int| 0 <= k < batches@.len() ==> 0 < (#[trigger] batches@[k]).1 - batches@[k].0 <= size,
            forall|k: int|
                0 <= k < batches@.len() - 1 ==> (#[trigger] batches@[k]).1 == batches@[k + 1].0 && batches@[k].1
                    - batches@[k].0 == size,
            batches@.len() > 0 && start < count ==> batches@.last().1 - batches@.last().0 == size,
        decreases count - start,
    {
        let end = if count - start > size { start + size } else { count };
        batches.push((start, end));
        start = end;
    }
    batches
}

/// The distinct block numbers that a list of logs carries (a log without one is
/// skipped), in ascending order.
pub fn distinct_log_block_numbers(log_block_numbers: &[Option<u64>]) -> (blocks: Vec<u64>)
    ensures
        strictly_increasing(blocks@),
        forall|n: u64| blocks@.contains(n) <==> log_block_numbers@.contains(Some(n)),
{
    let mut present: Vec<u64> = Vec::new();
    let mut i: usize = 0;
    while i < log_block_numbers.len()
        invariant
            i <= log_block_numbers@.len(),
            forall|n: u64| #[trigger] present@.contains(n) <==> log_block_numbers@.take(i as int).contains(Some(n)),
        decreases log_block_numbers@.len() - i,
    {
        let ghost before = present@;
        let ghost prefix = log_block_numbers@.take(i as int);
        let ghost next = log_block_numbers@.take(i + 1);
        proof {
            assert(next == prefix.push(log_block_numbers@[i as int]));
            lemma_push_contains(prefix, log_block_numbers@[i as int]);
        }
        match log_block_numbers[i] {
            Some(n) => {
                present.push(n);
                proof {
                    lemma_push_contains(before, n);
                }
            },
            None => {},
        }
        i = i + 1;
    }
    assert(log_block_numbers@.take(log_block_numbers@.len() as int) == log_block_numbers@);
    sorted_distinct(present.as_slice())
}

} // verus!

verus! {

/// Of the fetched blocks, those inside one filter's range, in ascending order.
pub fn blocks_for_filter(filter: &Filter, fetched_block_numbers: &[u64]) -> (blocks: Vec<u64>)
    ensures
        strictly_increasing(blocks@),
        forall|n: u64|
            blocks@.contains(n) <==> fetched_block_numbers@.contains(n) && filter.from_block <= n && n
                <= filter.to_block,
{
    let mut one: Vec<Filter> = Vec::new();
    one.push(filter.duplicate());
    let blocks = blocks_for_filters(one.as_slice(), fetched_block_numbers);
    proof {
        assert forall|n: u64| in_some_filter(one@, n) <==> (filter.from_block <= n && n <= filter.to_block) by {
            if filter.from_block <= n && n <= filter.to_block {
                assert(one@[0].from_block == filter.from_block && one@[0].to_block == filter.to_block);
            }
        }
    }
    blocks
}

/// How many logs belong to the block with the given hash (a log without a block
/// hash belongs to none).
pub open spec fn logs_in_block(log_block_hashes: Seq<Option<String>>, block_hash: Seq<char>) -> nat
    decreases log_block_hashes.len(),
{
    if log_block_hashes.len() == 0 {
        0
    } else {
        logs_in_block(log_block_hashes.drop_last(), block_hash) + match log_block_hashes.last() {
            Some(h) => if h@ == block_hash { 1nat } else { 0nat },
            None => 0nat,
        }
    }
}

/// The number of logs that belong to the block with the given hash.
pub fn count_logs_in_block(log_block_hashes: &[Option<String>], block_hash: &str) -> (count: usize)
    ensures
        count == logs_in_block(log_block_hashes@, block_hash@),
{
    let mut count: usize = 0;
    let mut i: usize = 0;
    while i < log_block_hashes.len()
        invariant
            i <= log_block_hashes@.len(),
            count == logs_in_block(log_block_hashes@.take(i as int), block_hash@),
            count <= i,
        decreases log_block_hashes@.len() - i,
    {
        assert(log_block_hashes@.take(i + 1).drop_last() =~= log_block_hashes@.take(i as int));
        match &log_block_hashes[i] {
            Some(h) => {
                if crate::text::str_equals(h.as_str(), block_hash) {
                    count = count + 1;
                }
            },
            None => {},
        }
        i = i + 1;
    }
    assert(log_block_hashes@.take(log_block_hashes@.len() as int) =~= log_block_hashes@);
    count
}

} // verus!

verus! {

/// A contract address as the ingester reads it: its id, its address and the blocks
/// its ingestion started from and continues from.
#[derive(Clone, Debug)]
pub struct ContractAddressCursor {
    pub id: i64,
    pub address: String,
    pub next_block_number_to_ingest_from: u64,
    pub start_block_number: u64,
}

/// A filter as plain values: contract address id, address, first and last block, and
/// the event topics it matches.
pub open spec fn filter_view(f: Filter) -> FilterView {
    (f.contract_address_id, f.address@, f.from_block, f.to_block, string_views(f.topics@))
}

/// The plain values of a filter (see [`filter_view`]).
pub type FilterView = (i64, Seq<char>, u64, u64, Seq<Seq<char>>);

/// The views of filters, in order.
pub open spec fn filter_views(filters: Seq<Filter>) -> Seq<FilterView> {
    filters.map_values(|f: Filter| filter_view(f))
}

/// The block range of a contract address's next filter, if it gets one. The main run
/// reads a batch from the next block, not past the current block. The confirmation
/// run only reads while the next block is inside the confirmation window, from the
/// next block moved back by the confirmation count (not below the start block), to a
/// batch past the next block.
pub open spec fn maybe_filter_range(
    next_block_number_to_ingest_from: u64,
    start_block_number: u64,
    current_block_number: u64,
    blocks_per_batch: u64,
    execution: Execution,
) -> Option<(u64, u64)> {
    match execution {
        Execution::Main => Some((
            next_block_number_to_ingest_from,
            if next_block_number_to_ingest_from + blocks_per_batch < current_block_number {
                (next_block_number_to_ingest_from + blocks_per_batch) as u64
            } else {
                current_block_number
            },
        )),
        Execution::Confirmation(count) => if count.in_window(next_block_number_to_ingest_from, current_block_number) {
            Some((
                count.deducted(next_block_number_to_ingest_from, start_block_number),
                (next_block_number_to_ingest_from + blocks_per_batch) as u64,
            ))
        } else {
            None
        },
    }
}

/// The view of the filter a contract address gets, if any (see [`maybe_filter_range`]).
pub open spec fn maybe_filter_spec(
    contract_address_id: i64,
    address: Seq<char>,
    topics: Seq<Seq<char>>,
    next_block_number_to_ingest_from: u64,
    start_block_number: u64,
    current_block_number: u64,
    blocks_per_batch: u64,
    execution: Execution,
) -> Option<FilterView> {
    match maybe_filter_range(
        next_block_number_to_ingest_from,
        start_block_number,
        current_block_number,
        blocks_per_batch,
        execution,
    ) {
        Some((from, to)) => Some((contract_address_id, address, from, to, topics)),
        None => None,
    }
}

/// A copy of a list of strings.
fn copy_strings(v: &Vec<String>) -> (copy: Vec<String>)
    ensures
        copy@ == v@,
{
    let copy = v.clone();
    assert(copy@ =~= v@);
    copy
}

/// The filter a contract address gets in a run, if any (see [`maybe_filter_range`]);
/// it matches the event topics of the address's contract.
pub fn maybe_filter(
    contract_address_id: i64,
    address: &String,
    topics: &Vec<String>,
    next_block_number_to_ingest_from: u64,
    start_block_number: u64,
    current_block_number: u64,
    blocks_per_batch: u64,
    execution: Execution,
) -> (filter: Option<Filter>)
    requires
        next_block_number_to_ingest_from + blocks_per_batch <= u64::MAX,
    ensures
        match filter {
            Some(f) => Some(filter_view(f)),
            None => None::<FilterView>,
        } == maybe_filter_spec(
            contract_address_id,
            address@,
            string_views(topics@),
            next_block_number_to_ingest_from,
            start_block_number,
            current_block_number,
            blocks_per_batch,
            execution,
        ),
{
    let range = match execution {
        Execution::Main => {
            let end = next_block_number_to_ingest_from + blocks_per_batch;
            Some((next_block_number_to_ingest_from, if end < current_block_number { end } else { current_block_number }))
        },
        Execution::Confirmation(count) => {
            if count.is_in_confirmation_window(next_block_number_to_ingest_from, current_block_number) {
                Some((
                    count.deduct_from(next_block_number_to_ingest_from, start_block_number),
                    next_block_number_to_ingest_from + blocks_per_batch,
                ))
            } else {
                None
            }
        },
    };
    match range {
        Some((from_block, to_block)) => Some(Filter {
            contract_address_id,
            address: address.clone(),
            from_block,
            to_block,
            topics: copy_strings(topics),
        }),
        None => None,
    }
}

/// A main run reads from the contract address's cursor, at most a batch of blocks,
/// and never past the current block (an empty range where the cursor is past it).
pub proof fn lemma_main_filter_within_batch(
    next_block_number_to_ingest_from: u64,
    start_block_number: u64,
    current_block_number: u64,
    blocks_per_batch: u64,
)
    requires
        next_block_number_to_ingest_from + blocks_per_batch <= u64::MAX,
    ensures
        maybe_filter_range(
            next_block_number_to_ingest_from,
            start_block_number,
            current_block_number,
            blocks_per_batch,
            Execution::Main,
        ) matches Some((from, to)) && from == next_block_number_to_ingest_from && to <= current_block_number
            && to <= next_block_number_to_ingest_from + blocks_per_batch,
{
}

/// A confirmation run reads only while the cursor is inside the confirmation window,
/// and then from no earlier than the start block and no later than the cursor.
pub proof fn lemma_confirmation_filter_in_window(
    next_block_number_to_ingest_from: u64,
    start_block_number: u64,
    current_block_number: u64,
    blocks_per_batch: u64,
    count: MinConfirmationCount,
)
    requires
        next_block_number_to_ingest_from + blocks_per_batch <= u64::MAX,
    ensures
        maybe_filter_range(
            next_block_number_to_ingest_from,
            start_block_number,
            current_block_number,
            blocks_per_batch,
            Execution::Confirmation(count),
        ) is Some <==> next_block_number_to_ingest_from + count.value >= current_block_number,
        maybe_filter_range(
            next_block_number_to_ingest_from,
            start_block_number,
            current_block_number,
            blocks_per_batch,
            Execution::Confirmation(count),
        ) matches Some((from, to)) ==> start_block_number <= from && (start_block_number
            <= next_block_number_to_ingest_from ==> from <= next_block_number_to_ingest_from) && to
            == next_block_number_to_ingest_from + blocks_per_batch,
{
}

/// The filters of a run: the contract addresses in order, each with its filter, up to
/// the first address whose contract has no event topics or that gets no filter.
pub open spec fn run_filters(
    contract_addresses: Seq<ContractAddressCursor>,
    topics: Seq<Option<Seq<Seq<char>>>>,
    current_block_number: u64,
    blocks_per_batch: u64,
    execution: Execution,
) -> Seq<FilterView>
    decreases contract_addresses.len(),
{
    if contract_addresses.len() == 0 || topics.len() == 0 {
        Seq::empty()
    } else {
        match topics[0] {
            None => Seq::empty(),
            Some(t) => {
                let ca = contract_addresses[0];
                match maybe_filter_spec(
                    ca.id,
                    ca.address@,
                    t,
                    ca.next_block_number_to_ingest_from,
                    ca.start_block_number,
                    current_block_number,
                    blocks_per_batch,
                    execution,
                ) {
                    Some(f) => seq![f] + run_filters(
                        contract_addresses.drop_first(),
                        topics.drop_first(),
                        current_block_number,
                        blocks_per_batch,
                        execution,
                    ),
                    None => Seq::empty(),
                }
            },
        }
    }
}

/// The views of each contract's topics, where it has them.
pub open spec fn topics_views(topics: Seq<Option<Vec<String>>>) -> Seq<Option<Seq<Seq<char>>>> {
    topics.map_values(|t: Option<Vec<String>>| match t {
        Some(v) => Some(string_views(v@)),
        None => None,
    })
}

/// The filters of a run over `contract_addresses` (see [`run_filters`]);
/// `topics[i]` holds the event topics of the `i`-th address's contract, or `None`
/// where that contract has none.
pub fn filters_for(
    contract_addresses: &[ContractAddressCursor],
    topics: &[Option<Vec<String>>],
    current_block_number: u64,
    blocks_per_batch: u64,
    execution: Execution,
) -> (filters: Vec<Filter>)
    requires
        topics@.len() == contract_addresses@.len(),
        forall|i: int|
            0 <= i < contract_addresses@.len() ==> #[trigger] contract_addresses@[i].next_block_number_to_ingest_from
                + blocks_per_batch <= u64::MAX,
    ensures
        filter_views(filters@) == run_filters(
            contract_addresses@,
            topics_views(topics@),
            current_block_number,
            blocks_per_batch,
            execution,
        ),
{
    let ghost tv = topics_views(topics@);
    let mut filters: Vec<Filter> = Vec::new();
    let mut i: usize = 0;
    assert(contract_addresses@.skip(0) == contract_addresses@);
    assert(tv.skip(0) == tv);
    assert(filter_views(filters@) + run_filters(contract_addresses@, tv, current_block_number, blocks_per_batch, execution)
        == run_filters(contract_addresses@, tv, current_block_number, blocks_per_batch, execution));
    while i < contract_addresses.len()
        invariant
            i <= contract_addresses@.len(),
            topics@.len() == contract_addresses@.len(),
            tv == topics_views(topics@),
            forall|k: int|
                0 <= k < contract_addresses@.len() ==> #[trigger] contract_addresses@[k].next_block_number_to_ingest_from
                    + blocks_per_batch <= u64::MAX,
            filter_views(filters@) + run_filters(
                contract_addresses@.skip(i as int),
                tv.skip(i as int),
                current_block_number,
                blocks_per_batch,
                execution,
            ) == run_filters(contract_addresses@, tv, current_block_number, blocks_per_batch, execution),
        decreases contract_addresses@.len() - i,
    {
        let ghost rest_cas = contract_addresses@.skip(i as int);
        let ghost rest_topics = tv.skip(i as int);
        assert(rest_cas[0] == contract_addresses@[i as int]);
        assert(rest_topics[0] == tv[i as int]);
        assert(rest_cas.drop_first() == contract_addresses@.skip(i + 1));
        assert(rest_topics.drop_first() == tv.skip(i + 1));
        match &topics[i] {
            None => {
                return filters;
            },
            Some(t) => {
                let ca = &contract_addresses[i];
                match maybe_filter(
                    ca.id,
                    &ca.address,
                    t,
                    ca.next_block_number_to_ingest_from,
                    ca.start_block_number,
                    current_block_number,
                    blocks_per_batch,
                    execution,
                ) {
                    Some(f) => {
                        let ghost before = filters@;
                        filters.push(f);
                        assert(filter_views(filters@) == filter_views(before) + seq![filter_view(f)]);
                    },
                    None => {
                        return filters;
                    },
                }
            },
        }
        i = i + 1;
    }
    assert(contract_addresses@.skip(i as int).len() == 0);
    assert(filter_views(filters@) + Seq::empty() == filter_views(filters@));
    filters
}

/// The block a contract address continues from after a batch of `filters` was written:
/// one past its latest filter's end, or `None` when the batch had no filter for it.
pub open spec fn advanced_cursor(filters: Seq<Filter>, contract_address_id: i64) -> Option<u64> {
    match latest_to_block(filters, contract_address_id) {
        Some(b) => Some((b + 1) as u64),
        None => None::<u64>,
    }
}

/// What the ingester does with a fetched batch.
#[derive(Debug)]
pub enum IngestAction {
    /// No filter was left: nothing is fetched or written.
    Idle,
    /// Syncing the batch's blocks found a fork at this block: record it as reorged,
    /// delete the events from it on, and rewind every contract address to it.
    RepairReorg(i64),
    /// Write the batch, then move each contract address (in the order given) to the
    /// block after its latest filter; `None` leaves it where it is.
    Commit(Vec<Option<u64>>),
}

/// The ingester's decision for one batch of filters, given the fork block (if any)
/// that syncing the batch's blocks reported.
pub fn ingest_step(fork_block: Option<i64>, contract_address_ids: &[i64], filters: &[Filter]) -> (action: IngestAction)
    requires
        forall|j: int| 0 <= j < filters@.len() ==> #[trigger] filters@[j].to_block < u64::MAX,
    ensures
        filters@.len() == 0 ==> action is Idle,
        filters@.len() > 0 && fork_block is Some ==> action == IngestAction::RepairReorg(fork_block->0),
        filters@.len() > 0 && fork_block is None ==> (action matches IngestAction::Commit(next) && next@.len()
            == contract_address_ids@.len() && forall|k: int|
            0 <= k < contract_address_ids@.len() ==> #[trigger] next@[k] == advanced_cursor(
                filters@,
                contract_address_ids@[k],
            )),
{
    if filters.len() == 0 {
        return IngestAction::Idle;
    }
    match fork_block {
        Some(block_number) => IngestAction::RepairReorg(block_number),
        None => {
            let next = next_block_numbers_to_ingest_from(contract_address_ids, filters);
            IngestAction::Commit(next)
        },
    }
}

/// Whether a block hash is all zeros (a block without a real hash).
pub open spec fn is_zero_hash(hash: Seq<u8>) -> bool {
    forall|k: int| 0 <= k < hash.len() ==> hash[k] == 0
}

/// The positions of the blocks whose hash is not all zeros, in order: the blocks
/// whose call traces can be fetched.
pub open spec fn traceable_indices(hashes: Seq<Seq<u8>>) -> Seq<int>
    decreases hashes.len(),
{
    if hashes.len() == 0 {
        Seq::empty()
    } else {
        let rest = traceable_indices(hashes.drop_last());
        if is_zero_hash(hashes.last()) {
            rest
        } else {
            rest.push(hashes.len() - 1)
        }
    }
}

/// The views of block hashes.
pub open spec fn hash_views(hashes: Seq<[u8; 32]>) -> Seq<Seq<u8>> {
    hashes.map_values(|h: [u8; 32]| h@)
}

/// Positions as integers.
pub open spec fn positions(v: Seq<usize>) -> Seq<int> {
    v.map_values(|i: usize| i as int)
}

/// What a batch captures of its blocks besides their events.
#[derive(Debug)]
pub struct IndexedDataSelection {
    /// Whether the blocks' raw transactions are captured.
    pub transactions: bool,
    /// The positions, among the blocks, of those whose call traces are fetched.
    pub traced_blocks: Vec<usize>,
}

/// Whether a block hash is all zeros.
fn zero_hash(hash: &[u8; 32]) -> (zero: bool)
    ensures
        zero == is_zero_hash(hash@),
{
    let mut k: usize = 0;
    while k < 32
        invariant
            k <= 32,
            hash@.len() == 32,
            forall|j: int| 0 <= j < k ==> hash@[j] == 0,
        decreases 32 - k,
    {
        if hash[k] != 0 {
            return false;
        }
        k = k + 1;
    }
    true
}

/// The indexed data to capture for a batch's blocks (given by their hashes, in
/// order): the raw transactions when they are configured, and the call traces, when
/// configured, of the blocks whose hash is not all zeros.
pub fn select_indexed_data(raw_transactions: bool, call_traces: bool, block_hashes: &[[u8; 32]]) -> (selection: IndexedDataSelection)
    ensures
        selection.transactions == raw_transactions,
        positions(selection.traced_blocks@) == if call_traces {
            traceable_indices(hash_views(block_hashes@))
        } else {
            Seq::empty()
        },
{
    let mut traced: Vec<usize> = Vec::new();
    if call_traces {
        let mut i: usize = 0;
        while i < block_hashes.len()
            invariant
                i <= block_hashes@.len(),
                positions(traced@) == traceable_indices(hash_views(block_hashes@.take(i as int))),
            decreases block_hashes@.len() - i,
        {
            proof {
                let t = block_hashes@.take(i + 1);
                assert(hash_views(t).drop_last() == hash_views(block_hashes@.take(i as int)));
                assert(hash_views(t).last() == block_hashes@[i as int]@);
                assert(hash_views(t).len() == i + 1);
            }
            let ghost before = traced@;
            if !zero_hash(&block_hashes[i]) {
                traced.push(i);
                assert(positions(traced@) == positions(before).push(i as int));
            }
            i = i + 1;
        }
        assert(block_hashes@.take(block_hashes@.len() as int) == block_hashes@);
    }
    IndexedDataSelection { transactions: raw_transactions, traced_blocks: traced }
}

/// The filters of one contract address, in order.
pub open spec fn filters_of(filters: Seq<Filter>, contract_address_id: i64) -> Seq<Filter> {
    filters.filter(|f: Filter| f.contract_address_id == contract_address_id)
}

/// Whether some filter belongs to the contract address.
pub open spec fn has_filter_for(filters: Seq<Filter>, contract_address_id: i64) -> bool {
    exists|j: int| 0 <= j < filters.len() && (#[trigger] filters[j]).contract_address_id == contract_address_id
}

/// The filters grouped by contract address: each contract address that has a filter
/// maps to its filters, in their order.
pub fn group_by_contract_address_id(filters: &[Filter]) -> (groups: HashMap<i64, Vec<Filter>>)
    ensures
        forall|id: i64| #[trigger] groups@.contains_key(id) <==> has_filter_for(filters@, id),
        forall|id: i64|
            #[trigger] groups@.contains_key(id) ==> filter_views(groups@[id]@) == filter_views(
                filters_of(filters@, id),
            ),
{
    broadcast use vstd::std_specs::hash::group_hash_axioms;
    let mut groups: HashMap<i64, Vec<Filter>> = HashMap::new();
    let mut i: usize = 0;
    while i < filters.len()
        invariant
            i <= filters@.len(),
            forall|id: i64| #[trigger] groups@.contains_key(id) <==> has_filter_for(filters@.take(i as int), id),
            forall|id: i64|
                #[trigger] groups@.contains_key(id) ==> filter_views(groups@[id]@) == filter_views(
                    filters_of(filters@.take(i as int), id),
                ),
        decreases filters@.len() - i,
    {
        let id = filters[i].contract_address_id;
        let ghost prefix = filters@.take(i as int);
        let ghost next = filters@.take(i + 1);
        let ghost old_groups = groups@;
        let mut group = match groups.remove(&id) {
            Some(g) => g,
            None => Vec::new(),
        };
        let ghost before = group@;
        let copy = filters[i].duplicate();
        group.push(copy);
        groups.insert(id, group);
        proof {
            assert(next.drop_last() == prefix);
            assert(next.last() == filters@[i as int]);
            reveal(Seq::filter);
            assert(filters_of(next, id) == filters_of(prefix, id).push(filters@[i as int]));
            if old_groups.contains_key(id) {
                assert(before == old_groups[id]@);
            } else {
                assert(!has_filter_for(prefix, id));
                assert forall|j: int| 0 <= j < prefix.len() implies (#[trigger] prefix[j]).contract_address_id != id by {}
                assert(filters_of(prefix, id).len() == 0) by {
                    prefix.lemma_all_neg_filter_empty(|f: Filter| f.contract_address_id == id);
                }
            }
            assert(filter_views(before.push(copy)) == filter_views(before).push(filter_view(copy)));
            assert(filter_views(filters_of(prefix, id).push(filters@[i as int])) == filter_views(
                filters_of(prefix, id),
            ).push(filter_view(filters@[i as int])));
            assert(next[i as int] == filters@[i as int]);
            assert forall|other: i64| #[trigger] groups@.contains_key(other) <==> has_filter_for(next, other) by {
                if has_filter_for(prefix, other) {
                    let j = choose|j: int| 0 <= j < prefix.len() && (#[trigger] prefix[j]).contract_address_id == other;
                    assert(next[j] == prefix[j]);
                }
                if has_filter_for(next, other) && other != id {
                    let j = choose|j: int| 0 <= j < next.len() && (#[trigger] next[j]).contract_address_id == other;
                    assert(prefix[j] == next[j]);
                }
            }
            assert forall|other: i64| #[trigger] groups@.contains_key(other) && other != id implies filters_of(next, other)
                == filters_of(prefix, other) by {}
        }
        i = i + 1;
    }
    assert(filters@.take(filters@.len() as int) == filters@);
    groups
}

} // verus!
