use vstd::prelude::*;
use crate::late_info::{
    LateInfo, column_total, row_total, lemma_column_total_prefix, lemma_row_total_prefix,
    lemma_row_updates_within_uses,
};
use crate::random::random_index;

verus! {

/// How many slots `i` in `1..n` have a larger column total than slot `i - 1`.
pub open spec fn rise_count(table: Seq<Seq<usize>>, n: int) -> nat
    decreases n,
{
    if n <= 1 {
        0
    } else {
        rise_count(table, n - 1) + if column_total(table, n - 1) > column_total(table, n - 2) {
            1nat
        } else {
            0nat
        }
    }
}

/// Every row of `table` has at least `n` entries.
pub open spec fn rows_at_least(table: Seq<Seq<usize>>, n: int) -> bool {
    forall|k: int| 0 <= k < table.len() ==> n <= #[trigger] table[k].len()
}

/// The column totals of the slots `0..n` fit in a `usize`.
pub open spec fn column_totals_fit(table: Seq<Seq<usize>>, n: int) -> bool {
    forall|i: int| 0 <= i < n ==> #[trigger] column_total(table, i) <= usize::MAX
}

/// Whether the swarm has been improving steadily: the improvement totals of
/// the slots rise from one slot to the next more than `eval_range / 2` times.
pub open spec fn aggressive(updates: Seq<Seq<usize>>, eval_range: int) -> bool {
    rise_count(updates, eval_range) > eval_range / 2
}

/// Whether the improvement totals, summed over all choices, rise from one slot
/// to the next more than `eval_range / 2` times; when they do, the model that
/// reacts to it draws the radius from a distribution weighted towards large
/// values.
pub fn get_aggressive_flag(late_info: &LateInfo, eval_range: usize) -> (flag: bool)
    requires
        rows_at_least(late_info.updates(), eval_range as int),
        column_totals_fit(late_info.updates(), eval_range as int),
    ensures
        flag == aggressive(late_info.updates(), eval_range as int),
        flag == (rising_slots(late_info.updates(), eval_range as int).len() > eval_range / 2),
{
    let ghost table = late_info.updates();
    let pb_update = &late_info.opt_update_pb_count;
    let mut pb_update_rec: Vec<usize> = Vec::new();
    let mut i: usize = 0;
    while i < eval_range
        invariant
            i <= eval_range,
            table == late_info.updates(),
            pb_update == &late_info.opt_update_pb_count,
            rows_at_least(table, eval_range as int),
            column_totals_fit(table, eval_range as int),
            pb_update_rec@.len() == i,
            forall|ii: int| 0 <= ii < i ==> #[trigger] pb_update_rec@[ii] == column_total(table, ii),
        decreases eval_range - i,
    {
        let mut total: usize = 0;
        let mut k: usize = 0;
        while k < pb_update.len()
            invariant
                k <= pb_update@.len(),
                i < eval_range,
                table == late_info.updates(),
                pb_update == &late_info.opt_update_pb_count,
                rows_at_least(table, eval_range as int),
                column_totals_fit(table, eval_range as int),
                total == column_total(table.take(k as int), i as int),
            decreases pb_update@.len() - k,
        {
            proof {
                assert(table.take(k + 1).drop_last() =~= table.take(k as int));
                lemma_column_total_prefix(table, k + 1, i as int);
                assert(table[k as int] == pb_update@[k as int]@);
            }
            total = total + pb_update[k][i];
            k = k + 1;
        }
        proof {
            assert(table.take(pb_update@.len() as int) =~= table);
        }
        pb_update_rec.push(total);
        i = i + 1;
    }
    let mut more_update_count: usize = 0;
    let mut i: usize = 1;
    while i < eval_range
        invariant
            1 <= i,
            i <= eval_range || i == 1,
            pb_update_rec@.len() == eval_range,
            forall|ii: int|
                0 <= ii < eval_range ==> #[trigger] pb_update_rec@[ii] == column_total(table, ii),
            more_update_count == rise_count(table, i as int),
            more_update_count < i,
        decreases eval_range - i,
    {
        if pb_update_rec[i] > pb_update_rec[i - 1] {
            more_update_count = more_update_count + 1;
        }
        i = i + 1;
    }
    proof {
        if eval_range > 0 {
            assert(i == eval_range);
        } else {
            assert(rise_count(table, 1) == 0);
        }
    }
    proof {
        lemma_aggressive_counts_rising_slots(table, eval_range as int);
    }
    more_update_count > eval_range / 2
}

/// The improvement rate of one choice of the radius over the recorded
/// generations, kept as an exact fraction `updates / uses`.
#[derive(Clone, Copy, Debug, PartialEq, Eq, Structural)]
pub struct UpdateRatio {
    /// How often the choice improved a personal best.
    pub updates: usize,
    /// How often the choice was used.
    pub uses: usize,
}

/// The totals of the first `r_num` rows of both tables fit in a `usize`.
pub open spec fn row_totals_fit(info: LateInfo, r_num: int) -> bool {
    &&& r_num <= info.uses().len()
    &&& r_num <= info.updates().len()
    &&& forall|k: int| 0 <= k < r_num ==> #[trigger] row_total(info.uses()[k]) <= usize::MAX
    &&& forall|k: int| 0 <= k < r_num ==> #[trigger] row_total(info.updates()[k]) <= usize::MAX
}

/// For each choice `k` in `0..r_num`, how often it was used and how often it
/// improved a personal best, summed over all recorded generations.
pub fn get_all_update_ratio(late_info: &LateInfo, r_num: usize) -> (ratios: Vec<UpdateRatio>)
    requires
        row_totals_fit(*late_info, r_num as int),
    ensures
        ratios@.len() == r_num,
        forall|k: int|
            0 <= k < r_num ==> (#[trigger] ratios@[k]).updates == row_total(
                late_info.updates()[k],
            ) && ratios@[k].uses == row_total(late_info.uses()[k]),
{
    let mut ratios: Vec<UpdateRatio> = Vec::new();
    let mut k: usize = 0;
    while k < r_num
        invariant
            k <= r_num,
            row_totals_fit(*late_info, r_num as int),
            ratios@.len() == k,
            forall|kk: int|
                0 <= kk < k ==> (#[trigger] ratios@[kk]).updates == row_total(
                    late_info.updates()[kk],
                ) && ratios@[kk].uses == row_total(late_info.uses()[kk]),
        decreases r_num - k,
    {
        proof {
            assert(late_info.uses()[k as int] == late_info.opt_use_count@[k as int]@);
            assert(late_info.updates()[k as int] == late_info.opt_update_pb_count@[k as int]@);
        }
        let use_sum: usize = row_sum(&late_info.opt_use_count[k]);
        let update_sum: usize = row_sum(&late_info.opt_update_pb_count[k]);
        ratios.push(UpdateRatio { updates: update_sum, uses: use_sum });
        k = k + 1;
    }
    ratios
}

/// Every improvement rate lies in `[0, 1]`: for a record in which no slot
/// counts more improvements than uses, each choice's improvements add up to no
/// more than its uses, so `updates / uses` is at most one, and a choice that
/// was never used never improved anything.
pub proof fn lemma_update_ratio_at_most_one(info: LateInfo, k: int)
    requires
        info.updates_within_uses(),
        0 <= k < info.uses().len(),
    ensures
        0 <= row_total(info.updates()[k]) <= row_total(info.uses()[k]),
        row_total(info.uses()[k]) == 0 ==> row_total(info.updates()[k]) == 0,
{
    lemma_row_updates_within_uses(info.uses()[k], info.updates()[k]);
}

/// The sum of the entries of `row`.
fn row_sum(row: &Vec<usize>) -> (total: usize)
    requires
        row_total(row@) <= usize::MAX,
    ensures
        total == row_total(row@),
{
    let mut total: usize = 0;
    let mut i: usize = 0;
    while i < row.len()
        invariant
            i <= row@.len(),
            row_total(row@) <= usize::MAX,
            total == row_total(row@.take(i as int)),
        decreases row@.len() - i,
    {
        proof {
            assert(row@.take(i + 1).drop_last() =~= row@.take(i as int));
            lemma_row_total_prefix(row@, i + 1);
        }
        total = total + row[i];
        i = i + 1;
    }
    proof {
        assert(row@.take(row@.len() as int) =~= row@);
    }
    total
}

/// The choice of the radius that the cumulative probabilities select: the
/// number `partition` of cumulative probabilities at or below the random draw,
/// kept within the `r_num` choices.
pub fn clamp_choice(partition: usize, r_num: usize) -> (k: usize)
    requires
        r_num >= 1,
    ensures
        k == if partition < r_num { partition } else { (r_num - 1) as usize },
{
    if partition < r_num {
        partition
    } else {
        r_num - 1
    }
}

/// The choice of the radius in the first generation, which has no statistics
/// yet: drawn uniformly from the `r_num` choices.
pub fn draw_first_choice(r_num: usize) -> (k: usize)
    requires
        r_num >= 1,
    ensures
        k < r_num,
{
    random_index(r_num)
}

/// Whether the random number that selects the choice is drawn from the Beta
/// distribution (model `3` while the swarm improves steadily) rather than
/// uniformly.
pub fn draws_from_beta(model: u8, late_info: &LateInfo, eval_range: usize) -> (beta: bool)
    requires
        model == 3 ==> rows_at_least(late_info.updates(), eval_range as int),
        model == 3 ==> column_totals_fit(late_info.updates(), eval_range as int),
    ensures
        beta == (model == 3 && aggressive(late_info.updates(), eval_range as int)),
{
    if model == 3 {
        get_aggressive_flag(late_info, eval_range)
    } else {
        false
    }
}

/// Removing a row takes its entry away from every column total.
pub proof fn lemma_column_total_remove(table: Seq<Seq<usize>>, j: int, i: int)
    requires
        0 <= j < table.len(),
    ensures
        column_total(table, i) == column_total(table.remove(j), i) + table[j][i],
    decreases table.len(),
{
    if j == table.len() - 1 {
        assert(table.remove(j) =~= table.drop_last());
    } else {
        assert(table.remove(j).drop_last() =~= table.drop_last().remove(j));
        assert(table.remove(j).last() == table.last());
        lemma_column_total_remove(table.drop_last(), j, i);
        assert(table.drop_last()[j] == table[j]);
    }
}

/// The column totals do not depend on the order of the rows.
pub proof fn lemma_column_total_permutation(t1: Seq<Seq<usize>>, t2: Seq<Seq<usize>>, i: int)
    requires
        t1.to_multiset() == t2.to_multiset(),
    ensures
        column_total(t1, i) == column_total(t2, i),
    decreases t1.len(),
{
    broadcast use vstd::seq_lib::group_to_multiset_ensures;
    broadcast use vstd::multiset::group_multiset_axioms;

    if t1.len() == 0 {
        assert(t1.to_multiset().len() == t1.len());
        assert(t2.to_multiset().len() == t2.len());
    } else {
        let a: Seq<usize> = t1.last();
        let rest: Seq<Seq<usize>> = t1.drop_last();
        assert(t1 =~= rest.push(a));
        assert(t1.to_multiset() =~= rest.to_multiset().insert(a));
        assert(t2.to_multiset().count(a) > 0);
        assert(t2.contains(a));
        let j: int = choose|j: int| 0 <= j < t2.len() && t2[j] == a;
        assert(t2.remove(j).to_multiset() =~= t2.to_multiset().remove(a));
        assert(rest.to_multiset() =~= t1.to_multiset().remove(a));
        lemma_column_total_permutation(rest, t2.remove(j), i);
        lemma_column_total_remove(t2, j, i);
    }
}

/// The number of rises is unchanged when every column total of the slots
/// `0..n` moves by the same amount `c`.
pub proof fn lemma_rise_count_shift(t1: Seq<Seq<usize>>, t2: Seq<Seq<usize>>, n: int, c: int)
    requires
        forall|i: int| 0 <= i < n ==> #[trigger] column_total(t2, i) == column_total(t1, i) + c,
    ensures
        rise_count(t1, n) == rise_count(t2, n),
    decreases n,
{
    if n > 1 {
        lemma_rise_count_shift(t1, t2, n - 1, c);
        assert(column_total(t2, n - 1) == column_total(t1, n - 1) + c);
        assert(column_total(t2, n - 2) == column_total(t1, n - 2) + c);
    }
}

/// Whether the swarm improves steadily depends on the improvement counts
/// alone: neither the use counts nor the current slot change it.
pub proof fn lemma_flag_ignores_uses(a: LateInfo, b: LateInfo, eval_range: int)
    requires
        a.updates() == b.updates(),
    ensures
        aggressive(a.updates(), eval_range) == aggressive(b.updates(), eval_range),
{
}

/// Whether the swarm improves steadily does not depend on the order of the
/// choices: permuting the rows of improvement counts leaves it unchanged.
pub proof fn lemma_flag_row_permutation(t1: Seq<Seq<usize>>, t2: Seq<Seq<usize>>, eval_range: int)
    requires
        t1.to_multiset() == t2.to_multiset(),
    ensures
        aggressive(t1, eval_range) == aggressive(t2, eval_range),
{
    assert forall|i: int| 0 <= i < eval_range implies #[trigger] column_total(t2, i)
        == column_total(t1, i) + 0 by {
        lemma_column_total_permutation(t1, t2, i);
    }
    lemma_rise_count_shift(t1, t2, eval_range, 0);
}

/// Whether the swarm improves steadily depends only on how the totals change
/// from slot to slot: adding the same amount `c` to every slot of one row of
/// improvement counts leaves it unchanged.
pub proof fn lemma_flag_row_shift(
    table: Seq<Seq<usize>>,
    shifted: Seq<Seq<usize>>,
    j: int,
    c: int,
    eval_range: int,
)
    requires
        0 <= j < table.len(),
        shifted.len() == table.len(),
        forall|k: int| 0 <= k < table.len() && k != j ==> #[trigger] shifted[k] == table[k],
        forall|i: int| 0 <= i < eval_range ==> #[trigger] shifted[j][i] == table[j][i] + c,
    ensures
        aggressive(table, eval_range) == aggressive(shifted, eval_range),
{
    assert(shifted.remove(j) =~= table.remove(j));
    assert forall|i: int| 0 <= i < eval_range implies #[trigger] column_total(shifted, i)
        == column_total(table, i) + c by {
        lemma_column_total_remove(table, j, i);
        lemma_column_total_remove(shifted, j, i);
        assert(shifted[j][i] == table[j][i] + c);
    }
    lemma_rise_count_shift(table, shifted, eval_range, c);
}

/// The slots `i` in `1..n` whose column total exceeds that of the slot
/// just before, `i - 1`.
pub open spec fn rising_slots(table: Seq<Seq<usize>>, n: int) -> Set<int> {
    Set::new(|i: int| 1 <= i < n && column_total(table, i) > column_total(table, i - 1))
}

/// Adding slot `n` to the range adds it to the rising slots exactly when its
/// total exceeds that of slot `n - 1`; the set stays finite and its size is
/// the number of rises counted so far.
proof fn lemma_rising_slots_count(table: Seq<Seq<usize>>, n: int)
    ensures
        rising_slots(table, n).finite(),
        rising_slots(table, n).len() == rise_count(table, n),
    decreases n,
{
    if n <= 1 {
        assert(rising_slots(table, n) =~= Set::<int>::empty());
    } else {
        lemma_rising_slots_count(table, n - 1);
        let before: Set<int> = rising_slots(table, n - 1);
        assert(!before.contains(n - 1));
        if column_total(table, n - 1) > column_total(table, n - 2) {
            assert(rising_slots(table, n) =~= before.insert(n - 1));
        } else {
            assert(rising_slots(table, n) =~= before);
        }
    }
}

/// The swarm counts as improving steadily exactly when more than
/// `eval_range / 2` of the slots `1..eval_range` have a larger improvement
/// total than the slot just before them: each slot is compared with its
/// predecessor, not with any fixed slot.
pub proof fn lemma_aggressive_counts_rising_slots(updates: Seq<Seq<usize>>, eval_range: int)
    ensures
        rising_slots(updates, eval_range).finite(),
        aggressive(updates, eval_range) == (rising_slots(updates, eval_range).len() > eval_range
            / 2),
{
    lemma_rising_slots_count(updates, eval_range);
}

} // verus!
