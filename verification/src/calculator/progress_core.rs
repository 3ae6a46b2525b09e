//! Pure calculation functions for progress computations.
//!
//! Percentages are carried in tenths of a percent: `333` stands for 33.3%.

use vstd::prelude::*;

verus! {

/// Progress percentage result.
///
/// `value_tenths` holds the percentage in tenths of a percent (0..=1000), or
/// `None` when the total is unknown.
#[derive(Debug, Clone, Copy, PartialEq, Eq)]
pub struct ProgressPercentage {
    /// Percentage in tenths of a percent (1000 is 100.0%), `None` if indeterminate.
    pub value_tenths: Option<u64>,
    /// Whether progress is complete (100%).
    pub is_complete: bool,
    /// Whether progress is indeterminate (unknown total).
    pub is_indeterminate: bool,
}

/// `1000 * downloaded / total` rounded to the nearest integer, halves rounded up,
/// for an incomplete download (`downloaded < total`).
pub open spec fn rounded_tenths(downloaded: nat, total: nat) -> nat
    recommends
        total > 0,
{
    (2000 * downloaded + total) / (2 * total)
}

/// The percentage that `calculate_percentage` reports for the given byte counts.
pub open spec fn percentage_of(downloaded: u64, total: u64) -> ProgressPercentage {
    if total == 0 {
        ProgressPercentage { value_tenths: None, is_complete: false, is_indeterminate: true }
    } else if downloaded >= total {
        ProgressPercentage { value_tenths: Some(1000), is_complete: true, is_indeterminate: false }
    } else {
        ProgressPercentage {
            value_tenths: Some(rounded_tenths(downloaded as nat, total as nat) as u64),
            is_complete: false,
            is_indeterminate: false,
        }
    }
}

/// An incomplete download never rounds above 100.0%.
pub proof fn lemma_rounded_tenths_bound(downloaded: nat, total: nat)
    requires
        downloaded < total,
    ensures
        rounded_tenths(downloaded, total) <= 1000,
{
    assert((2000 * downloaded + total) / (2 * total) <= 1000) by (nonlinear_arith)
        requires
            downloaded < total,
    {
        assert(2000 * downloaded + total < 2001 * total);
        assert(2000 * downloaded + total < 1001 * (2 * total));
    }
}

/// Rounding is monotone in the downloaded byte count.
pub proof fn lemma_rounded_tenths_monotone(d1: nat, d2: nat, total: nat)
    requires
        d1 <= d2,
        total > 0,
    ensures
        rounded_tenths(d1, total) <= rounded_tenths(d2, total),
{
    assert((2000 * d1 + total) / (2 * total) <= (2000 * d2 + total) / (2 * total)) by (nonlinear_arith)
        requires
            d1 <= d2,
            total > 0,
    {
        vstd::arithmetic::div_mod::lemma_div_is_ordered(
            (2000 * d1 + total) as int,
            (2000 * d2 + total) as int,
            (2 * total) as int,
        );
    }
}

/// Calculate the progress percentage from bytes downloaded and total bytes.
///
/// The value is `downloaded / total * 1000` rounded (halves up) and read in
/// tenths of a percent; a download with `downloaded >= total > 0` is exactly
/// 100.0% and complete; a zero total is indeterminate.
pub fn calculate_percentage(downloaded: u64, total: u64) -> (p: ProgressPercentage)
    ensures
        p == percentage_of(downloaded, total),
{
    if total == 0 {
        return ProgressPercentage { value_tenths: None, is_complete: false, is_indeterminate: true };
    }
    if downloaded >= total {
        return ProgressPercentage {
            value_tenths: Some(1000),
            is_complete: true,
            is_indeterminate: false,
        };
    }
    proof {
        lemma_rounded_tenths_bound(downloaded as nat, total as nat);
    }
    let num: u128 = 2000u128 * (downloaded as u128) + (total as u128);
    let den: u128 = 2u128 * (total as u128);
    let tenths: u128 = num / den;
    assert(tenths == rounded_tenths(downloaded as nat, total as nat));
    ProgressPercentage {
        value_tenths: Some(tenths as u64),
        is_complete: false,
        is_indeterminate: false,
    }
}

impl ProgressPercentage {
    /// Whether the progress is exactly 0%.
    pub fn is_zero(&self) -> (b: bool)
        ensures
            b == (self.value_tenths == Some(0u64)),
    {
        match self.value_tenths {
            Some(t) => t == 0,
            None => false,
        }
    }

    /// The percentage formatted for display, e.g. " 76.4%", "100.0%", "  ---".
    pub fn formatted(&self) -> (s: String)
        ensures
            s@ == crate::calculator::formatter::percentage_display(*self),
    {
        crate::calculator::formatter::format_percentage(self)
    }
}

/// Check whether progress is complete: a positive total fully downloaded.
pub fn is_progress_complete(downloaded: u64, total: u64) -> (b: bool)
    ensures
        b == (total > 0 && downloaded >= total),
{
    total > 0 && downloaded >= total
}

/// Sum of the downloaded components of `(downloaded, total)` pairs.
pub open spec fn sum_downloaded(items: Seq<(u64, u64)>) -> nat
    decreases items.len(),
{
    if items.len() == 0 {
        0
    } else {
        sum_downloaded(items.drop_last()) + items.last().0 as nat
    }
}

/// Sum of the total components of `(downloaded, total)` pairs.
pub open spec fn sum_totals(items: Seq<(u64, u64)>) -> nat
    decreases items.len(),
{
    if items.len() == 0 {
        0
    } else {
        sum_totals(items.drop_last()) + items.last().1 as nat
    }
}

/// Partial sums never exceed the full sums.
proof fn lemma_sums_prefix(items: Seq<(u64, u64)>, i: int)
    requires
        0 <= i <= items.len(),
    ensures
        sum_downloaded(items.take(i)) <= sum_downloaded(items),
        sum_totals(items.take(i)) <= sum_totals(items),
    decreases items.len() - i,
{
    if i < items.len() {
        lemma_sums_prefix(items, i + 1);
        assert(items.take(i + 1).drop_last() =~= items.take(i));
    } else {
        assert(items.take(i) =~= items);
    }
}

/// Aggregate bytes from `(bytes_downloaded, total_bytes)` pairs.
///
/// Returns `(sum of downloaded, sum of totals)`; both sums must fit in `u64`.
pub fn aggregate_bytes(items: &[(u64, u64)]) -> (r: (u64, u64))
    requires
        sum_downloaded(items@) <= u64::MAX,
        sum_totals(items@) <= u64::MAX,
    ensures
        r.0 == sum_downloaded(items@),
        r.1 == sum_totals(items@),
{
    let mut acc_down: u64 = 0;
    let mut acc_total: u64 = 0;
    let mut i: usize = 0;
    while i < items.len()
        invariant
            0 <= i <= items@.len(),
            acc_down == sum_downloaded(items@.take(i as int)),
            acc_total == sum_totals(items@.take(i as int)),
            sum_downloaded(items@) <= u64::MAX,
            sum_totals(items@) <= u64::MAX,
        decreases items@.len() - i,
    {
        proof {
            lemma_sums_prefix(items@, i + 1);
            assert(items@.take(i + 1).drop_last() =~= items@.take(i as int));
        }
        let (down, total) = items[i];
        acc_down = acc_down + down;
        acc_total = acc_total + total;
        i = i + 1;
    }
    assert(items@.take(i as int) =~= items@);
    (acc_down, acc_total)
}

} // verus!
