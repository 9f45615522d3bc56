//! Utilisation arithmetic: the mean load over the cores and the share of
//! memory in use, both in thousandths of a percent.

use vstd::prelude::*;

verus! {

/// One hundred percent, in thousandths of a percent.
pub const FULL_SCALE: u32 = 100_000;

/// Bytes in one mebibyte.
pub const MEBIBYTE: u64 = 1_048_576;

/// Bytes in one gibibyte.
pub const GIBIBYTE: u64 = 1_073_741_824;

/// The sum of a sequence of samples.
pub open spec fn total(samples: Seq<u32>) -> int
    decreases samples.len(),
{
    if samples.len() == 0 {
        0
    } else {
        total(samples.drop_last()) + samples.last()
    }
}

/// The arithmetic mean of the samples, rounded down; zero when there are none.
pub open spec fn mean_of(samples: Seq<u32>) -> int {
    if samples.len() == 0 {
        0
    } else {
        total(samples) / (samples.len() as int)
    }
}

/// The share of `total_bytes` that `used_bytes` makes up, in thousandths of
/// a percent and rounded down; zero when `total_bytes` is zero.
pub open spec fn memory_share(used_bytes: u64, total_bytes: u64) -> int {
    if total_bytes == 0 {
        0
    } else {
        (used_bytes * FULL_SCALE) / (total_bytes as int)
    }
}

/// Every sample lies between `low` and `high`.
pub open spec fn all_between(samples: Seq<u32>, low: int, high: int) -> bool {
    forall|i: int| 0 <= i < samples.len() ==> low <= #[trigger] samples[i] <= high
}

/// The sum of `n` samples between `low` and `high` lies between `n * low`
/// and `n * high`.
pub proof fn lemma_total_bounds(samples: Seq<u32>, low: int, high: int)
    requires
        all_between(samples, low, high),
    ensures
        samples.len() * low <= total(samples) <= samples.len() * high,
    decreases samples.len(),
{
    if samples.len() > 0 {
        let front = samples.drop_last();
        assert(all_between(front, low, high)) by {
            assert forall|i: int| 0 <= i < front.len() implies low <= #[trigger] front[i] <= high by {
                assert(front[i] == samples[i]);
            }
        }
        lemma_total_bounds(front, low, high);
        assert(low <= samples.last() <= high);
        assert(samples.len() * low == front.len() * low + low) by (nonlinear_arith)
            requires
                samples.len() == front.len() + 1,
        ;
        assert(samples.len() * high == front.len() * high + high) by (nonlinear_arith)
            requires
                samples.len() == front.len() + 1,
        ;
    } else {
        assert(samples.len() * low == 0 && samples.len() * high == 0) by (nonlinear_arith)
            requires
                samples.len() == 0,
        ;
    }
}

/// The mean of samples that all lie between `low` and `high` lies between
/// them too. In particular the mean load of cores that are each between
/// idle and [`FULL_SCALE`] is between idle and [`FULL_SCALE`].
pub proof fn lemma_mean_bounds(samples: Seq<u32>, low: int, high: int)
    requires
        samples.len() > 0,
        all_between(samples, low, high),
    ensures
        low <= mean_of(samples) <= high,
{
    lemma_total_bounds(samples, low, high);
    let n = samples.len() as int;
    let t = total(samples);
    assert(low <= t / n <= high) by (nonlinear_arith)
        requires
            n > 0,
            n * low <= t <= n * high,
    ;
}

/// No more memory in use than there is means a share between nothing and
/// [`FULL_SCALE`]; and without memory the share is zero.
pub proof fn lemma_memory_share_bounds(used_bytes: u64, total_bytes: u64)
    ensures
        0 <= memory_share(used_bytes, total_bytes),
        used_bytes <= total_bytes ==> memory_share(used_bytes, total_bytes) <= FULL_SCALE,
        total_bytes == 0 ==> memory_share(used_bytes, total_bytes) == 0,
{
    if total_bytes > 0 {
        assert(0 <= (used_bytes * FULL_SCALE) / (total_bytes as int)) by (nonlinear_arith)
            requires
                0 <= used_bytes,
                total_bytes > 0,
                FULL_SCALE == 100_000,
        ;
        if used_bytes <= total_bytes {
            assert((used_bytes * FULL_SCALE) / (total_bytes as int) <= FULL_SCALE)
                by (nonlinear_arith)
                requires
                    0 <= used_bytes <= total_bytes,
                    total_bytes > 0,
                    FULL_SCALE == 100_000,
            ;
        }
    }
}

/// Mean utilisation over the cores, in thousandths of a percent.
///
/// An empty list of cores gives zero. When no core reports more than
/// [`FULL_SCALE`], neither does the mean.
pub fn mean_usage(cores: &Vec<u32>) -> (mean: u32)
    ensures
        mean == mean_of(cores@),
        cores@.len() == 0 ==> mean == 0,
        all_between(cores@, 0, FULL_SCALE as int) ==> mean <= FULL_SCALE,
{
    let n: usize = cores.len();
    if n == 0 {
        return 0;
    }
    let mut sum: u128 = 0;
    let mut i: usize = 0;
    while i < n
        invariant
            n == cores@.len(),
            i <= n,
            sum == total(cores@.take(i as int)),
            sum <= i * 0xffff_ffff,
        decreases n - i,
    {
        proof {
            let next = cores@.take(i + 1);
            assert(next.drop_last() =~= cores@.take(i as int));
            assert(next.last() == cores@[i as int]);
            assert((i + 1) * 0xffff_ffff == i * 0xffff_ffff + 0xffff_ffff) by (nonlinear_arith);
            assert(i * 0xffff_ffff <= 0xffff_ffff_ffff_ffff * 0xffff_ffff) by (nonlinear_arith)
                requires
                    i <= 0xffff_ffff_ffff_ffff,
            ;
        }
        sum = sum + cores[i] as u128;
        i = i + 1;
    }
    proof {
        assert(cores@.take(n as int) =~= cores@);
        assert(sum / (n as u128) <= 0xffff_ffff) by (nonlinear_arith)
            requires
                n > 0,
                sum <= n * 0xffff_ffff,
        ;
        if all_between(cores@, 0, FULL_SCALE as int) {
            lemma_mean_bounds(cores@, 0, FULL_SCALE as int);
        }
    }
    (sum / n as u128) as u32
}

/// Memory utilisation in thousandths of a percent.
///
/// Zero when the total is zero; at most [`FULL_SCALE`] whenever no more is
/// used than there is.
pub fn memory_usage(used_bytes: u64, total_bytes: u64) -> (share: u128)
    ensures
        share == memory_share(used_bytes, total_bytes),
        total_bytes == 0 ==> share == 0,
        used_bytes <= total_bytes ==> share <= FULL_SCALE,
{
    if total_bytes == 0 {
        return 0;
    }
    assert(used_bytes * FULL_SCALE <= 0xffff_ffff_ffff_ffff * 100_000) by (nonlinear_arith)
        requires
            used_bytes <= 0xffff_ffff_ffff_ffff,
            FULL_SCALE == 100_000,
    ;
    let scaled: u128 = used_bytes as u128 * FULL_SCALE as u128;
    proof {
        lemma_memory_share_bounds(used_bytes, total_bytes);
    }
    scaled / total_bytes as u128
}

/// Whole mebibytes in `bytes`.
pub fn whole_mebibytes(bytes: u64) -> (mib: u64)
    ensures
        mib == bytes / MEBIBYTE,
{
    bytes / MEBIBYTE
}

/// Thousandths of a gibibyte in `bytes`, rounded down.
pub fn milli_gibibytes(bytes: u64) -> (size: u64)
    ensures
        size == (bytes * 1000) / (GIBIBYTE as int),
{
    let scaled: u128 = bytes as u128 * 1000;
    (scaled / GIBIBYTE as u128) as u64
}

} // verus!
