//! When the fetcher visits a feed again.
//!
//! How stale a fetched channel was is weighed in floating point, outside this
//! library; the rules around that weighing are here: a feed that gave nothing
//! datable waits an hour longer each time, and every wait lies between an hour
//! and a day.

use vstd::prelude::*;
use crate::collect::FetchCounts;
use crate::models::{same_feed_but_schedule, Feed};

verus! {

/// The shortest wait between two visits of a feed, in seconds.
pub const MIN_INTERVAL: u32 = 3600;

/// The longest wait between two visits of a feed, in seconds.
pub const MAX_INTERVAL: u32 = 86400;

/// `x` brought into the range of allowed waits.
pub open spec fn clamp_interval(x: int) -> int {
    if x < MIN_INTERVAL {
        MIN_INTERVAL as int
    } else if x > MAX_INTERVAL {
        MAX_INTERVAL as int
    } else {
        x
    }
}

/// The next wait after a visit that saw `total` dated items, of which the
/// weighing made the estimate `weighted`: with nothing dated, one hour more
/// than the previous wait, at most a day; else the estimate, kept between an
/// hour and a day.
pub open spec fn next_interval(prev: u32, total: u32, weighted: u32) -> int {
    if total == 0 {
        if prev + MIN_INTERVAL < MAX_INTERVAL {
            prev + MIN_INTERVAL
        } else {
            MAX_INTERVAL as int
        }
    } else {
        clamp_interval(weighted as int)
    }
}

/// The wait before the next visit of a feed that waited `prev` seconds and
/// showed `total` dated items, `new` of them unseen; `weighted` is the
/// floating-point estimate made of these three, truncated to `u32`. It is not
/// read where `total` is zero.
pub fn estimate_interval(prev: u32, total: u32, new: u32, weighted: u32) -> (r: u32)
    requires
        total == 0 ==> prev + MIN_INTERVAL <= u32::MAX,
        total != 0 ==> new <= total,
    ensures
        r == next_interval(prev, total, weighted),
        MIN_INTERVAL <= r <= MAX_INTERVAL,
{
    if total == 0 {
        let grown = prev + MIN_INTERVAL;
        return if grown < MAX_INTERVAL {
            grown
        } else {
            MAX_INTERVAL
        };
    }
    if weighted < MIN_INTERVAL {
        MIN_INTERVAL
    } else if weighted > MAX_INTERVAL {
        MAX_INTERVAL
    } else {
        weighted
    }
}

/// The waits after `n` visits in a row that saw nothing dated, starting from
/// a wait of `prev`.
pub open spec fn wait_after_failures(prev: u32, n: nat) -> int
    decreases n,
{
    if n == 0 {
        prev as int
    } else {
        let before = wait_after_failures(prev, (n - 1) as nat);
        if before + MIN_INTERVAL < MAX_INTERVAL {
            before + MIN_INTERVAL
        } else {
            MAX_INTERVAL as int
        }
    }
}

/// A feed that keeps giving nothing dated backs off an hour per visit until
/// it is visited once a day: after `n` such visits the wait is the previous
/// wait plus `n` hours, at most a day.
pub proof fn lemma_back_off(prev: u32, n: nat)
    requires
        prev <= MAX_INTERVAL,
        n > 0,
    ensures
        wait_after_failures(prev, n) == if prev + n * MIN_INTERVAL < MAX_INTERVAL {
            prev + n * MIN_INTERVAL
        } else {
            MAX_INTERVAL as int
        },
        forall|k: nat| 0 < k <= n ==> next_interval(
            #[trigger] wait_after_failures(prev, (k - 1) as nat) as u32,
            0,
            0,
        ) == wait_after_failures(prev, k),
    decreases n,
{
    if n > 1 {
        lemma_back_off(prev, (n - 1) as nat);
    }
    assert(((n - 1) as nat) * MIN_INTERVAL + MIN_INTERVAL == n * MIN_INTERVAL) by (nonlinear_arith)
        requires
            n > 0,
    ;
    assert(wait_after_failures(prev, n) == {
        let before = wait_after_failures(prev, (n - 1) as nat);
        if before + MIN_INTERVAL < MAX_INTERVAL { before + MIN_INTERVAL } else { MAX_INTERVAL as int }
    });
    lemma_wait_bounded(prev, n);
    assert forall|k: nat| 0 < k <= n implies next_interval(
        #[trigger] wait_after_failures(prev, (k - 1) as nat) as u32,
        0,
        0,
    ) == wait_after_failures(prev, k) by {
        lemma_wait_bounded(prev, (k - 1) as nat);
    }
}

proof fn lemma_wait_bounded(prev: u32, n: nat)
    requires
        prev <= MAX_INTERVAL,
    ensures
        0 <= wait_after_failures(prev, n) <= MAX_INTERVAL,
    decreases n,
{
    if n > 0 {
        lemma_wait_bounded(prev, (n - 1) as nat);
    }
}

/// The wait a feed had before this visit, as the fetcher reads it.
pub open spec fn previous_wait(feed: Feed) -> u32 {
    (feed.interval->0) as u32
}

/// The feed's next wait after a visit with the given counts, written into
/// the feed; `weighted` is the floating-point estimate for these counts.
pub fn schedule_next_visit(feed: &mut Feed, counts: FetchCounts, weighted: u32)
    requires
        old(feed).interval is Some,
        counts.total == 0 ==> previous_wait(*old(feed)) + MIN_INTERVAL <= u32::MAX,
        counts.new <= counts.total,
    ensures
        final(feed).interval == Some(
            next_interval(previous_wait(*old(feed)), counts.total, weighted) as i32,
        ),
        MIN_INTERVAL <= final(feed).interval->0 <= MAX_INTERVAL,
        same_feed_but_schedule(*final(feed), *old(feed)),
        final(feed).augmented == old(feed).augmented,
{
    let prev: u32 = match feed.interval {
        Some(i) => i as u32,
        None => 0,
    };
    let next = estimate_interval(prev, counts.total, counts.new, weighted);
    feed.interval = Some(next as i32);
}

/// A failed visit: the feed waits an hour longer, at most a day.
pub fn record_failed_fetch(feed: &mut Feed)
    requires
        old(feed).interval is Some,
        previous_wait(*old(feed)) + MIN_INTERVAL <= u32::MAX,
    ensures
        final(feed).interval == Some(next_interval(previous_wait(*old(feed)), 0, 0) as i32),
        MIN_INTERVAL <= final(feed).interval->0 <= MAX_INTERVAL,
        same_feed_but_schedule(*final(feed), *old(feed)),
        final(feed).augmented == old(feed).augmented,
{
    schedule_next_visit(feed, FetchCounts { total: 0, new: 0 }, 0);
}

/// The delay in milliseconds before visiting a feed that waits `interval`
/// seconds, as a signed product taken as unsigned.
pub open spec fn delay_ms(interval: i32) -> u64 {
    (interval * 1000) as u64
}

/// The delay before the next visit of a feed, in milliseconds.
pub fn visit_delay(interval: i32) -> (r: u64)
    requires
        i32::MIN <= interval * 1000 <= i32::MAX,
    ensures
        r == delay_ms(interval),
{
    let ms: i32 = interval * 1000;
    #[verifier::truncate]
    let r: u64 = ms as u64;
    r
}

/// A feed loaded when the fetcher starts: one without a wait gets none, and
/// it is visited after its wait.
pub fn first_visit_delay(feed: &mut Feed) -> (r: u64)
    requires
        old(feed).interval matches Some(i) ==> i32::MIN <= i * 1000 <= i32::MAX,
    ensures
        final(feed).interval == Some(
            match old(feed).interval {
                Some(i) => i,
                None => 0,
            },
        ),
        r == delay_ms(final(feed).interval->0),
        same_feed_but_schedule(*final(feed), *old(feed)),
        final(feed).augmented == old(feed).augmented,
{
    let timeout = match feed.interval {
        Some(i) => i,
        None => 0,
    };
    feed.interval = Some(timeout);
    visit_delay(timeout)
}

/// A feed that the server announced: it is visited at once.
pub fn prompt_visit_delay(feed: &mut Feed) -> (r: u64)
    ensures
        final(feed).interval == Some(0i32),
        r == 0,
        same_feed_but_schedule(*final(feed), *old(feed)),
        final(feed).augmented == old(feed).augmented,
{
    feed.interval = Some(0);
    0
}

} // verus!
