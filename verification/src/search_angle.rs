use vstd::prelude::*;

verus! {

/// The histogram bin that an angle index counts in: the index `80`, which
/// stands for the angle `2π`, wraps round to the bin of `0`.
pub open spec fn bin_of(index: usize) -> int {
    if index == 80 {
        0
    } else {
        index as int
    }
}

/// How many of `indices` count in bin `j`.
pub open spec fn bin_count(indices: Seq<usize>, j: int) -> nat
    decreases indices.len(),
{
    if indices.len() == 0 {
        0
    } else {
        bin_count(indices.drop_last(), j) + if bin_of(indices.last()) == j {
            1nat
        } else {
            0nat
        }
    }
}

/// Every index names an angle in `[0, 2π]`, that is lies in `0..=80`.
pub open spec fn indices_in_range(indices: Seq<usize>) -> bool {
    forall|i: int| 0 <= i < indices.len() ==> #[trigger] indices[i] <= 80
}

/// No bin overflows when `indices` are added to `info`.
pub open spec fn counts_fit(info: Seq<usize>, indices: Seq<usize>) -> bool {
    forall|j: int| 0 <= j < 80 ==> info[j] + #[trigger] bin_count(indices, j) <= usize::MAX
}

/// Adds one generation to the search-angle histogram: each particle's angle,
/// given as its index among 80 bins of width `2π / 80` (the index `80` of the
/// angle `2π` counting in bin `0`), adds one to its bin.
pub fn update_search_angle(search_angle_info: &mut [usize; 80], indices: &Vec<usize>)
    requires
        indices_in_range(indices@),
        counts_fit(old(search_angle_info)@, indices@),
    ensures
        forall|j: int|
            0 <= j < 80 ==> #[trigger] final(search_angle_info)@[j] == old(search_angle_info)@[j]
                + bin_count(indices@, j),
        forall|j: int|
            1 <= j < 80 ==> #[trigger] final(search_angle_info)@[j] == old(search_angle_info)@[j]
                + count_equal(indices@, j),
        final(search_angle_info)@[0] == old(search_angle_info)@[0] + count_equal(indices@, 0)
            + count_equal(indices@, 80),
{
    let ghost start = search_angle_info@;
    let mut n: usize = 0;
    while n < indices.len()
        invariant
            n <= indices@.len(),
            indices_in_range(indices@),
            counts_fit(start, indices@),
            search_angle_info@.len() == 80,
            forall|j: int|
                0 <= j < 80 ==> #[trigger] search_angle_info@[j] == start[j] + bin_count(
                    indices@.take(n as int),
                    j,
                ),
        decreases indices@.len() - n,
    {
        let index: usize = indices[n];
        proof {
            assert(indices@.take(n + 1).drop_last() =~= indices@.take(n as int));
            lemma_bin_count_prefix(indices@, n + 1, bin_of(index));
        }
        if index != 80 {
            search_angle_info[index] = search_angle_info[index] + 1;
        } else {
            search_angle_info[0] = search_angle_info[0] + 1;
        }
        n = n + 1;
    }
    proof {
        assert(indices@.take(indices@.len() as int) =~= indices@);
        lemma_bins_hold_equal_indices(indices@);
    }
}

/// How many of `values` equal `v`.
pub open spec fn count_equal(values: Seq<usize>, v: int) -> nat
    decreases values.len(),
{
    if values.len() == 0 {
        0
    } else {
        count_equal(values.drop_last(), v) + if values.last() == v {
            1nat
        } else {
            0nat
        }
    }
}

/// Each bar holds the angles of its own index: bar `j` in `1..80` counts the
/// indices equal to `j`, and bar `0` those equal to `0` or to `80`, the same
/// angle `2π` taken once round.
pub proof fn lemma_bins_hold_equal_indices(indices: Seq<usize>)
    ensures
        forall|j: int| 1 <= j < 80 ==> #[trigger] bin_count(indices, j) == count_equal(indices, j),
        bin_count(indices, 0) == count_equal(indices, 0) + count_equal(indices, 80),
    decreases indices.len(),
{
    if indices.len() > 0 {
        lemma_bins_hold_equal_indices(indices.drop_last());
    }
    assert forall|j: int| 1 <= j < 80 implies #[trigger] bin_count(indices, j) == count_equal(
        indices,
        j,
    ) by {
        if indices.len() > 0 {
            assert(bin_count(indices.drop_last(), j) == count_equal(indices.drop_last(), j));
        }
    }
}

/// A prefix of the indices never counts more in a bin than all of them.
pub proof fn lemma_bin_count_prefix(indices: Seq<usize>, n: int, j: int)
    requires
        0 <= n <= indices.len(),
    ensures
        bin_count(indices.take(n), j) <= bin_count(indices, j),
    decreases indices.len(),
{
    if n < indices.len() {
        assert(indices.drop_last().take(n) =~= indices.take(n));
        lemma_bin_count_prefix(indices.drop_last(), n, j);
    } else {
        assert(indices.take(n) =~= indices);
    }
}

/// How many of `indices` count in one of the bins `0..n`.
pub open spec fn bins_total(indices: Seq<usize>, n: int) -> int
    decreases n,
{
    if n <= 0 {
        0
    } else {
        bins_total(indices, n - 1) + bin_count(indices, n - 1)
    }
}

/// Adding one index raises the count of the bins `0..n` by one exactly when
/// its bin lies below `n`.
proof fn lemma_bins_total_step(indices: Seq<usize>, n: int)
    requires
        indices.len() > 0,
        n >= 0,
    ensures
        bins_total(indices, n) == bins_total(indices.drop_last(), n) + if bin_of(indices.last())
            < n {
            1int
        } else {
            0int
        },
    decreases n,
{
    if n > 0 {
        lemma_bins_total_step(indices, n - 1);
    }
}

/// No indices, no counts.
proof fn lemma_bins_total_empty(indices: Seq<usize>, n: int)
    requires
        indices.len() == 0,
    ensures
        bins_total(indices, n) == 0,
    decreases n,
{
    if n > 0 {
        lemma_bins_total_empty(indices, n - 1);
    }
}

/// Each particle of a generation adds exactly one to the histogram: over all
/// 80 bins, the counts that `update_search_angle` adds sum to the number of
/// particles.
pub proof fn lemma_each_angle_counts_once(indices: Seq<usize>)
    requires
        indices_in_range(indices),
    ensures
        bins_total(indices, 80) == indices.len(),
    decreases indices.len(),
{
    if indices.len() == 0 {
        lemma_bins_total_empty(indices, 80);
    } else {
        lemma_bins_total_step(indices, 80);
        assert(indices_in_range(indices.drop_last())) by {
            assert forall|i: int| 0 <= i < indices.drop_last().len() implies #[trigger] indices.drop_last()[i]
                <= 80 by {
                assert(indices.drop_last()[i] == indices[i]);
            }
        }
        lemma_each_angle_counts_once(indices.drop_last());
        assert(indices.last() == indices[indices.len() - 1]);
    }
}

/// The largest count of the histogram, the height of its tallest bar.
pub fn histogram_peak(search_angle_info: &[usize; 80]) -> (peak: usize)
    ensures
        exists|j: int| 0 <= j < 80 && peak == #[trigger] search_angle_info@[j],
        forall|j: int| 0 <= j < 80 ==> #[trigger] search_angle_info@[j] <= peak,
{
    let mut peak: usize = search_angle_info[0];
    let mut j: usize = 1;
    while j < 80
        invariant
            1 <= j <= 80,
            search_angle_info@.len() == 80,
            exists|jj: int| 0 <= jj < j && peak == #[trigger] search_angle_info@[jj],
            forall|jj: int| 0 <= jj < j ==> #[trigger] search_angle_info@[jj] <= peak,
        decreases 80 - j,
    {
        if search_angle_info[j] > peak {
            peak = search_angle_info[j];
        }
        j = j + 1;
    }
    peak
}

/// The label of the tick at bin `x` on the angle axis of the histogram.
pub open spec fn tick_label_text(x: usize) -> Seq<char> {
    if x == 0 {
        "0"@
    } else if x == 20 {
        "π/2"@
    } else if x == 40 {
        "π"@
    } else if x == 60 {
        "3π/2"@
    } else if x == 80 {
        "2π"@
    } else {
        ""@
    }
}

/// The label of the tick at bin `x`: the multiples of `π/2` are named, the
/// other ticks are left blank.
pub fn angle_tick_label(x: usize) -> (label: String)
    ensures
        label@ == tick_label_text(x),
{
    match x {
        0 => "0".to_owned(),
        20 => "π/2".to_owned(),
        40 => "π".to_owned(),
        60 => "3π/2".to_owned(),
        80 => "2π".to_owned(),
        _ => "".to_owned(),
    }
}

} // verus!
