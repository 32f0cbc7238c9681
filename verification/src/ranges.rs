//! How a download is divided: the byte ranges that the workers of a parallel download take, one
//! after the other, from a shared start position.

use vstd::prelude::*;

verus! {

/// From this size on a download is worth dividing.
pub const LAUNCHER_UPDATE_MIN_PARALLEL_BYTES: u64 = 4194304;

/// The largest range that a worker takes at once.
pub const LAUNCHER_UPDATE_MAX_CHUNK_BYTES: u64 = 512000;

/// The smallest range that a worker takes, but for the last one.
pub const LAUNCHER_UPDATE_MIN_CHUNK_BYTES: u64 = 65536;

/// `a / b`, rounded up.
pub open spec fn ceil_div(a: int, b: int) -> int {
    if a % b == 0 {
        a / b
    } else {
        a / b + 1
    }
}

/// `n`, or the bound that it lies beyond.
pub open spec fn clamp(n: int, low: int, high: int) -> int {
    if n < low {
        low
    } else if n > high {
        high
    } else {
        n
    }
}

/// What is left of `total` beyond `used`.
pub open spec fn left_over(total: int, used: int) -> int {
    if total > used {
        total - used
    } else {
        0
    }
}

/// The length of the next range: what no worker has taken yet, where that is little; else the
/// bytes still to come shared out twice over among the workers, within the two chunk bounds and
/// within what no worker has taken yet.
pub open spec fn chunk_size(total: int, next_start: int, downloaded: int, workers: int) -> int {
    let unassigned = left_over(total, next_start);
    if unassigned <= LAUNCHER_UPDATE_MIN_CHUNK_BYTES {
        clamp(unassigned, 1, LAUNCHER_UPDATE_MIN_CHUNK_BYTES as int)
    } else {
        let shares = clamp(2 * workers, 1, u64::MAX as int);
        let share = clamp(
            ceil_div(left_over(total, downloaded), shares),
            LAUNCHER_UPDATE_MIN_CHUNK_BYTES as int,
            LAUNCHER_UPDATE_MAX_CHUNK_BYTES as int,
        );
        clamp(share, 1, unassigned)
    }
}

/// The first and last byte of the next range, if anything is left to take.
pub open spec fn next_range(
    total: int,
    workers: int,
    next_start: int,
    downloaded: int,
) -> Option<(int, int)> {
    if next_start >= total {
        None
    } else {
        Some((next_start, next_start + chunk_size(total, next_start, downloaded, workers) - 1))
    }
}

fn rounded_up(a: u64, b: u64) -> (r: u64)
    requires
        b > 0,
    ensures
        r == ceil_div(a as int, b as int),
{
    let q: u64 = a / b;
    if a % b == 0 {
        q
    } else {
        proof {
            vstd::arithmetic::div_mod::lemma_fundamental_div_mod(a as int, b as int);
            assert(q < u64::MAX) by (nonlinear_arith)
                requires
                    a == b * q + a % b,
                    a % b != 0,
                    a % b >= 0,
                    b > 0,
                    a <= u64::MAX,
                    q >= 0,
            ;
        }
        q + 1
    }
}

fn within(n: u64, low: u64, high: u64) -> (r: u64)
    ensures
        r == clamp(n as int, low as int, high as int),
{
    if n < low {
        low
    } else if n > high {
        high
    } else {
        n
    }
}

/// The length of the next range that a worker takes.
pub fn launcher_update_chunk_size(
    total_bytes: u64,
    next_start: u64,
    downloaded: u64,
    worker_count: usize,
) -> (r: u64)
    ensures
        r == chunk_size(
            total_bytes as int,
            next_start as int,
            downloaded as int,
            worker_count as int,
        ),
        1 <= r <= LAUNCHER_UPDATE_MAX_CHUNK_BYTES,
        next_start < total_bytes ==> next_start + r <= total_bytes,
{
    let remaining_unassigned: u64 = total_bytes.saturating_sub(next_start);
    if remaining_unassigned <= LAUNCHER_UPDATE_MIN_CHUNK_BYTES {
        return within(remaining_unassigned, 1, LAUNCHER_UPDATE_MIN_CHUNK_BYTES);
    }
    let remaining_download: u64 = total_bytes.saturating_sub(downloaded);
    let workers: u64 = worker_count as u64;
    let doubled: u64 = if workers > u64::MAX / 2 {
        u64::MAX
    } else {
        workers * 2
    };
    let target_chunks: u64 = within(doubled, 1, u64::MAX);
    let adaptive: u64 = within(
        rounded_up(remaining_download, target_chunks),
        LAUNCHER_UPDATE_MIN_CHUNK_BYTES,
        LAUNCHER_UPDATE_MAX_CHUNK_BYTES,
    );
    within(adaptive, 1, remaining_unassigned)
}

/// The first and last byte of the range that a worker takes when it finds the shared start
/// position at `next_start`. The range is taken once the position has moved from there to the byte
/// after the range's last.
pub fn launcher_update_next_range(
    total_bytes: u64,
    worker_count: usize,
    next_start: u64,
    downloaded: u64,
) -> (r: Option<(u64, u64)>)
    ensures
        match r {
            Some((start, end)) => next_range(
                total_bytes as int,
                worker_count as int,
                next_start as int,
                downloaded as int,
            ) == Some((start as int, end as int)),
            None => next_range(
                total_bytes as int,
                worker_count as int,
                next_start as int,
                downloaded as int,
            ) is None,
        },
        r is Some <==> next_start < total_bytes,
        r matches Some((start, end)) ==> start == next_start && start <= end < total_bytes,
{
    if next_start >= total_bytes {
        return None;
    }
    let size: u64 = launcher_update_chunk_size(total_bytes, next_start, downloaded, worker_count);
    Some((next_start, next_start + (size - 1)))
}

/// The number of workers for a download: no more than there are smallest ranges in it, and no more
/// than `max_workers`.
pub open spec fn worker_count(total: int, max_workers: int) -> int {
    let ranges = ceil_div(total, LAUNCHER_UPDATE_MIN_CHUNK_BYTES as int);
    let wanted = if ranges < 1 {
        1
    } else {
        ranges
    };
    if wanted < max_workers {
        wanted
    } else {
        max_workers
    }
}

/// The number of workers for a download of `total_bytes`.
pub fn launcher_update_worker_count(total_bytes: u64, max_workers: usize) -> (r: usize)
    ensures
        r == worker_count(total_bytes as int, max_workers as int),
        r <= max_workers,
        max_workers >= 1 ==> r >= 1,
{
    let ranges: u64 = within(
        rounded_up(total_bytes, LAUNCHER_UPDATE_MIN_CHUNK_BYTES),
        1,
        u64::MAX,
    );
    if ranges < (max_workers as u64) {
        ranges as usize
    } else {
        max_workers
    }
}

/// The most workers for a machine that runs `available` threads at once, if that is known.
pub open spec fn parallel_threads(available: Option<int>) -> int {
    match available {
        Some(n) => clamp(2 * n, 16, 128),
        None => 16,
    }
}

/// There are from 16 to 128 workers at most: twice as many as the machine runs at once, where that
/// lies between, and never fewer on a larger machine.
pub proof fn a_larger_machine_has_no_fewer_workers(n: int, more: int)
    requires
        0 <= n <= more,
    ensures
        16 <= parallel_threads(Some(n)) <= parallel_threads(Some(more)) <= 128,
        8 <= n <= 64 ==> parallel_threads(Some(n)) == n + n,
        parallel_threads(None) == parallel_threads(Some(0)),
{
}

/// The most workers for a machine that runs `available` threads at once, if that is known: twice
/// as many, from 16 to 128.
pub fn launcher_update_parallel_threads(available: Option<usize>) -> (r: usize)
    ensures
        r == parallel_threads(
            match available {
                Some(n) => Some(n as int),
                None => None,
            },
        ),
{
    match available {
        Some(n) => if n < 8 {
            16
        } else if n > 64 {
            128
        } else {
            n * 2
        },
        None => 16,
    }
}

/// A row of ranges of which each was taken where the one before it ended, from the first byte on,
/// whatever number of bytes had come in each time.
pub open spec fn taken_in_turn(
    total: int,
    workers: int,
    downloaded: Seq<int>,
    ranges: Seq<(int, int)>,
) -> bool {
    &&& downloaded.len() == ranges.len()
    &&& forall|i: int|
        0 <= i < ranges.len() ==> #[trigger] next_range(
            total,
            workers,
            position_after(ranges, i),
            downloaded[i],
        ) == Some(ranges[i])
}

/// The shared start position once the first `n` of `ranges` are taken.
pub open spec fn position_after(ranges: Seq<(int, int)>, n: int) -> int {
    if n <= 0 {
        0
    } else {
        ranges[n - 1].1 + 1
    }
}

/// One of `ranges` holds the byte `b`.
pub open spec fn lies_in(ranges: Seq<(int, int)>, b: int) -> bool {
    exists|i: int| 0 <= i < ranges.len() && (#[trigger] ranges[i]).0 <= b <= ranges[i].1
}

/// The number of bytes in `ranges`.
pub open spec fn bytes_in(ranges: Seq<(int, int)>) -> int
    decreases ranges.len(),
{
    if ranges.len() == 0 {
        0
    } else {
        bytes_in(ranges.drop_last()) + (ranges.last().1 - ranges.last().0 + 1)
    }
}

/// A range that is taken starts at the position, ends within the file and holds from one byte to
/// the largest chunk.
pub proof fn lemma_next_range(total: int, workers: int, next_start: int, downloaded: int)
    requires
        0 <= next_start < total,
    ensures
        next_range(total, workers, next_start, downloaded) matches Some((start, end)) && start
            == next_start && start <= end < total && end - start < LAUNCHER_UPDATE_MAX_CHUNK_BYTES,
{
}

/// Ranges taken in turn never overlap and leave no gap: each byte before the position reached lies
/// in exactly one of them, and together they hold just as many bytes.
pub proof fn ranges_taken_in_turn_share_out_the_file(
    total: int,
    workers: int,
    downloaded: Seq<int>,
    ranges: Seq<(int, int)>,
)
    requires
        0 <= total,
        taken_in_turn(total, workers, downloaded, ranges),
    ensures
        0 <= position_after(ranges, ranges.len() as int) <= total,
        bytes_in(ranges) == position_after(ranges, ranges.len() as int),
        forall|b: int|
            0 <= b < position_after(ranges, ranges.len() as int) ==> #[trigger] lies_in(ranges, b),
        forall|i: int, j: int|
            0 <= i < j < ranges.len() ==> (#[trigger] ranges[i]).1 < (#[trigger] ranges[j]).0,
        forall|i: int|
            0 <= i < ranges.len() ==> 0 <= (#[trigger] ranges[i]).0 <= ranges[i].1 < position_after(
                ranges,
                ranges.len() as int,
            ),
    decreases ranges.len(),
{
    if ranges.len() > 0 {
        let front = ranges.drop_last();
        let n = front.len() as int;
        assert forall|i: int| 0 <= i < front.len() implies #[trigger] next_range(
            total,
            workers,
            position_after(front, i),
            downloaded.drop_last()[i],
        ) == Some(front[i]) by {
            assert(position_after(front, i) == position_after(ranges, i));
            assert(next_range(total, workers, position_after(ranges, i), downloaded[i]) == Some(
                ranges[i],
            ));
        }
        ranges_taken_in_turn_share_out_the_file(total, workers, downloaded.drop_last(), front);
        let start = position_after(ranges, n);
        assert(position_after(front, n) == start);
        assert(next_range(total, workers, start, downloaded[n]) == Some(ranges[n]));
        lemma_next_range(total, workers, start, downloaded[n]);
        assert(ranges.last() == ranges[n]);
        assert forall|b: int| 0 <= b < position_after(ranges, n + 1) implies #[trigger] lies_in(
            ranges,
            b,
        ) by {
            if b < start {
                assert(lies_in(front, b));
                let i = choose|i: int|
                    0 <= i < front.len() && (#[trigger] front[i]).0 <= b <= front[i].1;
                assert(ranges[i] == front[i]);
            } else {
                assert(ranges[n].0 <= b <= ranges[n].1);
            }
        }
        assert forall|i: int, j: int| 0 <= i < j < ranges.len() implies (
        #[trigger] ranges[i]).1 < (#[trigger] ranges[j]).0 by {
            assert(front[i] == ranges[i]);
            if j < n {
                assert(front[j] == ranges[j]);
            }
        }
        assert forall|i: int| 0 <= i < ranges.len() implies 0 <= (
        #[trigger] ranges[i]).0 <= ranges[i].1 < position_after(ranges, n + 1) by {
            if i < n {
                assert(front[i] == ranges[i]);
            }
        }
    }
}

/// When no range is left to take, the ranges taken in turn hold the whole file: every byte lies in
/// exactly one of them, and their lengths add up to the file's.
pub proof fn ranges_taken_to_the_end_are_the_file(
    total: int,
    workers: int,
    downloaded: Seq<int>,
    ranges: Seq<(int, int)>,
    downloaded_at_end: int,
)
    requires
        0 <= total,
        taken_in_turn(total, workers, downloaded, ranges),
        next_range(
            total,
            workers,
            position_after(ranges, ranges.len() as int),
            downloaded_at_end,
        ) is None,
    ensures
        bytes_in(ranges) == total,
        forall|b: int| 0 <= b < total ==> #[trigger] lies_in(ranges, b),
        forall|i: int, j: int|
            0 <= i < j < ranges.len() ==> (#[trigger] ranges[i]).1 < (#[trigger] ranges[j]).0,
{
    ranges_taken_in_turn_share_out_the_file(total, workers, downloaded, ranges);
}

/// A range holds from 64 KiB to 512000 bytes, but for the last one, which may hold less. The fewer
/// bytes are still to come, and the more workers there are to share them, the smaller it is; no
/// range is smaller because more of the file is free.
pub proof fn ranges_shrink_towards_the_end(
    total: int,
    next_start: int,
    downloaded: int,
    more_downloaded: int,
    workers: int,
    more_workers: int,
)
    requires
        0 <= next_start < total,
        0 <= downloaded <= more_downloaded,
        1 <= workers <= more_workers <= usize::MAX,
        2 * more_workers <= u64::MAX,
    ensures
        chunk_size(total, next_start, downloaded, workers) <= 512000,
        chunk_size(total, next_start, downloaded, workers) >= 65536 || chunk_size(
            total,
            next_start,
            downloaded,
            workers,
        ) == total - next_start,
        chunk_size(total, next_start, more_downloaded, workers) <= chunk_size(
            total,
            next_start,
            downloaded,
            workers,
        ),
        chunk_size(total, next_start, downloaded, more_workers) <= chunk_size(
            total,
            next_start,
            downloaded,
            workers,
        ),
{
    let s = 2 * workers;
    let t = 2 * more_workers;
    lemma_ceil_div_grows(left_over(total, more_downloaded), left_over(total, downloaded), s);
    lemma_ceil_div_shrinks(left_over(total, downloaded), s, t);
}

/// Twice as many ranges as there are workers are enough for what is still to come, where neither
/// bound applies: such a range is the smallest one that so many of cover it.
pub proof fn a_range_is_half_a_share(total: int, next_start: int, downloaded: int, workers: int)
    requires
        0 <= next_start < total,
        0 <= downloaded <= total,
        1 <= workers,
        2 * workers <= u64::MAX,
        65536 < chunk_size(total, next_start, downloaded, workers) < 512000,
        chunk_size(total, next_start, downloaded, workers) < total - next_start,
    ensures
        chunk_size(total, next_start, downloaded, workers) * (2 * workers) >= total - downloaded,
        (chunk_size(total, next_start, downloaded, workers) - 1) * (2 * workers) < total - downloaded,
{
    lemma_ceil_div(total - downloaded, 2 * workers);
}

/// `a / b` rounded up is the smallest number of which `b` reach `a`.
proof fn lemma_ceil_div(a: int, b: int)
    requires
        0 <= a,
        0 < b,
    ensures
        ceil_div(a, b) * b >= a,
        (ceil_div(a, b) - 1) * b < a,
        ceil_div(a, b) >= 0,
{
    vstd::arithmetic::div_mod::lemma_fundamental_div_mod(a, b);
    let (q, r) = (a / b, a % b);
    assert(q >= 0) by (nonlinear_arith)
        requires
            a == b * q + r,
            0 <= r < b,
            0 <= a,
    ;
    assert((q + 1) * b >= a && q * b <= a && (q - 1) * b < a) by (nonlinear_arith)
        requires
            a == b * q + r,
            0 <= r < b,
    ;
    assert(r == 0 ==> q * b == a) by (nonlinear_arith)
        requires
            a == b * q + r,
    ;
    assert(r > 0 ==> q * b < a) by (nonlinear_arith)
        requires
            a == b * q + r,
    ;
}

proof fn lemma_ceil_div_grows(a: int, b: int, n: int)
    requires
        0 <= a <= b,
        0 < n,
    ensures
        ceil_div(a, n) <= ceil_div(b, n),
{
    lemma_ceil_div(a, n);
    lemma_ceil_div(b, n);
    let (x, y) = (ceil_div(a, n), ceil_div(b, n));
    assert(x <= y) by (nonlinear_arith)
        requires
            (x - 1) * n < a,
            a <= b,
            b <= y * n,
            0 < n,
    ;
}

proof fn lemma_ceil_div_shrinks(a: int, m: int, n: int)
    requires
        0 <= a,
        0 < m <= n,
    ensures
        ceil_div(a, n) <= ceil_div(a, m),
{
    lemma_ceil_div(a, m);
    lemma_ceil_div(a, n);
    let (x, y) = (ceil_div(a, n), ceil_div(a, m));
    assert(x <= y) by (nonlinear_arith)
        requires
            (x - 1) * n < a,
            a <= y * m,
            0 < m <= n,
            y >= 0,
    ;
}

/// There are as many workers as are allowed, or else as many as there are ranges of 64 KiB to start
/// with, and one at least.
pub proof fn workers_have_something_to_do(total: int, max_workers: int)
    requires
        0 <= total,
        1 <= max_workers,
    ensures
        1 <= worker_count(total, max_workers) <= max_workers,
        (worker_count(total, max_workers) - 1) * 65536 <= total,
        worker_count(total, max_workers) < max_workers ==> worker_count(total, max_workers) * 65536
            >= total,
{
    lemma_ceil_div(total, 65536);
}

} // verus!
