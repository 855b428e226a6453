use vstd::prelude::*;

verus! {

/// The view of a table of counters: one sequence per choice of `k`.
pub open spec fn table_view(table: Seq<Vec<usize>>) -> Seq<Seq<usize>> {
    table.map_values(|row: Vec<usize>| row@)
}

/// How many of the particles drew the choice `k` in this generation.
pub open spec fn uses_of(ks: Seq<(usize, bool)>, k: int) -> nat
    decreases ks.len(),
{
    if ks.len() == 0 {
        0
    } else {
        uses_of(ks.drop_last(), k) + if ks.last().0 == k { 1nat } else { 0nat }
    }
}

/// How many of the particles drew the choice `k` and have improved their
/// personal best.
pub open spec fn updates_of(ks: Seq<(usize, bool)>, k: int) -> nat
    decreases ks.len(),
{
    if ks.len() == 0 {
        0
    } else {
        updates_of(ks.drop_last(), k) + if ks.last().0 == k && ks.last().1 {
            1nat
        } else {
            0nat
        }
    }
}

/// `table` with the entry `col` of each row `k` replaced by `count(k)`.
pub open spec fn with_column(table: Seq<Seq<usize>>, col: int, count: spec_fn(int) -> nat) -> Seq<
    Seq<usize>,
> {
    Seq::new(table.len(), |k: int| table[k].update(col, count(k) as usize))
}

/// The sum of the entries `i` over all rows of `table`.
pub open spec fn column_total(table: Seq<Seq<usize>>, i: int) -> int
    decreases table.len(),
{
    if table.len() == 0 {
        0
    } else {
        column_total(table.drop_last(), i) + table.last()[i]
    }
}

/// The sum of the entries of `row`.
pub open spec fn row_total(row: Seq<usize>) -> int
    decreases row.len(),
{
    if row.len() == 0 {
        0
    } else {
        row_total(row.drop_last()) + row.last()
    }
}

/// The two tables have the same shape, and no entry of `updates` exceeds
/// the entry of `uses` in the same place.
pub open spec fn updates_within(uses: Seq<Seq<usize>>, updates: Seq<Seq<usize>>) -> bool {
    &&& uses.len() == updates.len()
    &&& forall|k: int| 0 <= k < uses.len() ==> #[trigger] uses[k].len() == updates[k].len()
    &&& forall|k: int, i: int|
        0 <= k < uses.len() && 0 <= i < uses[k].len() ==> #[trigger] updates[k][i]
            <= #[trigger] uses[k][i]
}

/// How many particles drew one of the choices `0..r`.
pub open spec fn choices_total(ks: Seq<(usize, bool)>, r: int) -> int
    decreases r,
{
    if r <= 0 {
        0
    } else {
        choices_total(ks, r - 1) + uses_of(ks, r - 1)
    }
}

/// A table of `r_num` rows of `eval_range` zeros.
pub open spec fn zero_table(r_num: nat, eval_range: nat) -> Seq<Seq<usize>> {
    Seq::new(r_num, |k: int| Seq::new(eval_range, |i: int| 0usize))
}

/// Every row of `table` has an entry `col`.
pub open spec fn has_column(table: Seq<Seq<usize>>, col: int) -> bool {
    &&& table.len() > 0 ==> 0 <= col
    &&& forall|k: int| 0 <= k < table.len() ==> col < #[trigger] table[k].len()
}

/// Every choice that a particle drew names a row of a table with `rows` rows.
pub open spec fn choices_below(ks: Seq<(usize, bool)>, rows: nat) -> bool {
    forall|j: int| 0 <= j < ks.len() ==> (#[trigger] ks[j]).0 < rows
}

/// The statistics of the last `eval_range` generations, one slot per
/// generation used as a ring: for each choice `k` of the radius and each slot,
/// how many particles used `k` in that generation and how many of them
/// improved their personal best.
pub struct LateInfo {
    /// The slot that the current generation fills; it advances at the end of
    /// each generation.
    pub cur_iter: usize,
    /// `opt_use_count[k][slot]`: how often choice `k` was used.
    pub opt_use_count: Vec<Vec<usize>>,
    /// `opt_update_pb_count[k][slot]`: how often choice `k` led to a better
    /// personal best.
    pub opt_update_pb_count: Vec<Vec<usize>>,
}

impl LateInfo {
    /// The use counters as a table.
    pub open spec fn uses(&self) -> Seq<Seq<usize>> {
        table_view(self.opt_use_count@)
    }

    /// The improvement counters as a table.
    pub open spec fn updates(&self) -> Seq<Seq<usize>> {
        table_view(self.opt_update_pb_count@)
    }

    /// Both tables have `r_num` rows of `eval_range` slots, and the current
    /// slot lies among them.
    pub open spec fn wf(&self, r_num: nat, eval_range: nat) -> bool {
        &&& self.uses().len() == r_num
        &&& self.updates().len() == r_num
        &&& forall|k: int| 0 <= k < r_num ==> #[trigger] self.uses()[k].len() == eval_range
        &&& forall|k: int| 0 <= k < r_num ==> #[trigger] self.updates()[k].len() == eval_range
        &&& self.cur_iter < eval_range
    }

    /// No slot counts more improvements than uses.
    pub open spec fn updates_within_uses(&self) -> bool {
        updates_within(self.uses(), self.updates())
    }

    /// All counters are 0, since no generation ran before the first.
    pub fn new(r_num: usize, eval_range: usize) -> (info: Self)
        ensures
            info.cur_iter == 0,
            info.uses() == zero_table(r_num as nat, eval_range as nat),
            info.updates() == zero_table(r_num as nat, eval_range as nat),
            eval_range > 0 ==> info.wf(r_num as nat, eval_range as nat),
    {
        let opt_use_count = zeros(r_num, eval_range);
        let opt_update_pb_count = zeros(r_num, eval_range);
        LateInfo { cur_iter: 0, opt_use_count, opt_update_pb_count }
    }

    /// Records one generation: the slot `cur_iter` of each row `k` is set to
    /// how many particles drew `k` (and how many of those improved their
    /// personal best), then `cur_iter` moves to the next slot of the ring of
    /// `eval_range` slots. `particles` holds each particle's choice and
    /// whether it improved.
    pub fn update_info(&mut self, particles: &Vec<(usize, bool)>, eval_range: usize)
        requires
            eval_range > 0,
            old(self).cur_iter < usize::MAX,
            has_column(old(self).uses(), old(self).cur_iter as int),
            has_column(old(self).updates(), old(self).cur_iter as int),
            choices_below(particles@, old(self).uses().len()),
            choices_below(particles@, old(self).updates().len()),
        ensures
            final(self).cur_iter == (old(self).cur_iter + 1) % (eval_range as int),
            final(self).uses() == with_column(
                old(self).uses(),
                old(self).cur_iter as int,
                |k: int| uses_of(particles@, k),
            ),
            final(self).updates() == with_column(
                old(self).updates(),
                old(self).cur_iter as int,
                |k: int| updates_of(particles@, k),
            ),
    {
        let c: usize = self.cur_iter;
        let ghost ks = particles@;
        let ghost old_uses = self.uses();
        let ghost old_updates = self.updates();
        clear_column(&mut self.opt_use_count, c);
        clear_column(&mut self.opt_update_pb_count, c);
        let mut j: usize = 0;
        while j < particles.len()
            invariant
                j <= particles.len(),
                ks == particles@,
                self.uses().len() == old_uses.len(),
                self.updates().len() == old_updates.len(),
                choices_below(ks, old_uses.len()),
                choices_below(ks, old_updates.len()),
                forall|k: int|
                    0 <= k < old_uses.len() ==> #[trigger] self.uses()[k] == old_uses[k].update(
                        c as int,
                        uses_of(ks.take(j as int), k) as usize,
                    ),
                forall|k: int|
                    0 <= k < old_updates.len() ==> #[trigger] self.updates()[k]
                        == old_updates[k].update(c as int, updates_of(ks.take(j as int), k) as usize),
                has_column(old_uses, c as int),
                has_column(old_updates, c as int),
            decreases particles.len() - j,
        {
            let k: usize = particles[j].0;
            let improved: bool = particles[j].1;
            proof {
                assert(ks.take(j + 1).drop_last() =~= ks.take(j as int));
                lemma_counts_bounded(ks.take(j as int), k as int);
                assert forall|kk: int| 0 <= kk < old_uses.len() implies #[trigger] uses_of(
                    ks.take(j + 1),
                    kk,
                ) == uses_of(ks.take(j as int), kk) + if k == kk { 1nat } else { 0nat } by {}
                assert forall|kk: int| 0 <= kk < old_updates.len() implies #[trigger] updates_of(
                    ks.take(j + 1),
                    kk,
                ) == updates_of(ks.take(j as int), kk) + if k == kk && improved {
                    1nat
                } else {
                    0nat
                } by {}
                assert(self.uses()[k as int] == self.opt_use_count@[k as int]@);
                assert(self.updates()[k as int] == self.opt_update_pb_count@[k as int]@);
            }
            bump(&mut self.opt_use_count, k, c);
            if improved {
                bump(&mut self.opt_update_pb_count, k, c);
            }
            j = j + 1;
        }
        proof {
            assert(ks.take(ks.len() as int) =~= ks);
            assert(self.uses() =~= with_column(old_uses, c as int, |k: int| uses_of(ks, k)));
            assert(self.updates() =~= with_column(
                old_updates,
                c as int,
                |k: int| updates_of(ks, k),
            ));
        }
        self.cur_iter = (c + 1) % eval_range;
    }
}

/// A count of particles is at most the number of particles.
pub proof fn lemma_counts_bounded(ks: Seq<(usize, bool)>, k: int)
    ensures
        updates_of(ks, k) <= uses_of(ks, k) <= ks.len(),
    decreases ks.len(),
{
    if ks.len() > 0 {
        lemma_counts_bounded(ks.drop_last(), k);
    }
}

/// `r_num` rows of `eval_range` zeros.
fn zeros(r_num: usize, eval_range: usize) -> (table: Vec<Vec<usize>>)
    ensures
        table_view(table@) == zero_table(r_num as nat, eval_range as nat),
{
    let mut table: Vec<Vec<usize>> = Vec::new();
    let mut k: usize = 0;
    while k < r_num
        invariant
            k <= r_num,
            table@.len() == k,
            forall|kk: int|
                0 <= kk < k ==> #[trigger] table@[kk]@ == Seq::new(
                    eval_range as nat,
                    |i: int| 0usize,
                ),
        decreases r_num - k,
    {
        let mut row: Vec<usize> = Vec::new();
        let mut i: usize = 0;
        while i < eval_range
            invariant
                i <= eval_range,
                row@ == Seq::new(i as nat, |ii: int| 0usize),
            decreases eval_range - i,
        {
            row.push(0);
            i = i + 1;
            assert(row@ =~= Seq::new(i as nat, |ii: int| 0usize));
        }
        table.push(row);
        k = k + 1;
    }
    assert(table_view(table@) =~= zero_table(r_num as nat, eval_range as nat));
    table
}

/// Sets the entry `col` of every row of `table` to 0.
fn clear_column(table: &mut Vec<Vec<usize>>, col: usize)
    requires
        has_column(table_view(old(table)@), col as int),
    ensures
        table_view(final(table)@) == with_column(
            table_view(old(table)@),
            col as int,
            |k: int| 0nat,
        ),
{
    let ghost start = table_view(table@);
    let mut k: usize = 0;
    while k < table.len()
        invariant
            k <= table@.len(),
            table@.len() == start.len(),
            has_column(start, col as int),
            forall|kk: int|
                0 <= kk < table@.len() ==> #[trigger] table@[kk]@ == if kk < k {
                    start[kk].update(col as int, 0usize)
                } else {
                    start[kk]
                },
        decreases table@.len() - k,
    {
        table[k].set(col, 0);
        k = k + 1;
    }
    assert(table_view(table@) =~= with_column(start, col as int, |k: int| 0nat));
}

/// Adds one to the entry `col` of row `k`.
fn bump(table: &mut Vec<Vec<usize>>, k: usize, col: usize)
    requires
        k < old(table)@.len(),
        col < old(table)@[k as int]@.len(),
        old(table)@[k as int]@[col as int] < usize::MAX,
    ensures
        table_view(final(table)@) == table_view(old(table)@).update(
            k as int,
            old(table)@[k as int]@.update(col as int, (old(table)@[k as int]@[col as int] + 1) as usize),
        ),
{
    let v: usize = table[k][col];
    table[k].set(col, v + 1);
    assert(table_view(table@) =~= table_view(old(table)@).update(
        k as int,
        old(table)@[k as int]@.update(col as int, (old(table)@[k as int]@[col as int] + 1) as usize),
    ));
}

/// A prefix of the rows never has a larger column total than all rows.
pub proof fn lemma_column_total_prefix(table: Seq<Seq<usize>>, k: int, i: int)
    requires
        0 <= k <= table.len(),
    ensures
        column_total(table.take(k), i) <= column_total(table, i),
    decreases table.len(),
{
    if k < table.len() {
        assert(table.drop_last().take(k) =~= table.take(k));
        lemma_column_total_prefix(table.drop_last(), k, i);
    } else {
        assert(table.take(k) =~= table);
    }
}

/// A prefix of a row never has a larger total than the row.
pub proof fn lemma_row_total_prefix(row: Seq<usize>, n: int)
    requires
        0 <= n <= row.len(),
    ensures
        row_total(row.take(n)) <= row_total(row),
    decreases row.len(),
{
    if n < row.len() {
        assert(row.drop_last().take(n) =~= row.take(n));
        lemma_row_total_prefix(row.drop_last(), n);
    } else {
        assert(row.take(n) =~= row);
    }
}

/// A fresh record has no slot with more improvements than uses.
pub proof fn lemma_new_updates_within_uses(r_num: nat, eval_range: nat)
    ensures
        updates_within(zero_table(r_num, eval_range), zero_table(r_num, eval_range)),
{
}

/// Recording a generation keeps every slot's improvements within its uses: a
/// particle only counts as an improvement of the choice it used.
pub proof fn lemma_recording_keeps_updates_within_uses(
    uses: Seq<Seq<usize>>,
    updates: Seq<Seq<usize>>,
    col: int,
    ks: Seq<(usize, bool)>,
)
    requires
        updates_within(uses, updates),
        has_column(uses, col),
        ks.len() <= usize::MAX,
    ensures
        updates_within(
            with_column(uses, col, |k: int| uses_of(ks, k)),
            with_column(updates, col, |k: int| updates_of(ks, k)),
        ),
{
    let nu: Seq<Seq<usize>> = with_column(uses, col, |k: int| uses_of(ks, k));
    let nd: Seq<Seq<usize>> = with_column(updates, col, |k: int| updates_of(ks, k));
    assert(nu.len() == nd.len());
    assert forall|k: int| 0 <= k < nu.len() implies #[trigger] nu[k].len() == nd[k].len() by {
        assert(0 <= col < uses[k].len());
        assert(nu[k] == uses[k].update(col, uses_of(ks, k) as usize));
        assert(nd[k] == updates[k].update(col, updates_of(ks, k) as usize));
    }
    assert forall|k: int, i: int| 0 <= k < nu.len() && 0 <= i < nu[k].len() implies #[trigger] nd[k][i]
        <= #[trigger] nu[k][i] by {
        lemma_counts_bounded(ks, k);
        assert(0 <= col < uses[k].len());
        assert(nu[k] == uses[k].update(col, uses_of(ks, k) as usize));
        assert(nd[k] == updates[k].update(col, updates_of(ks, k) as usize));
        assert(uses[k].len() == updates[k].len());
        if i != col {
            assert(nd[k][i] == updates[k][i]);
            assert(nu[k][i] == uses[k][i]);
        }
    }
}

/// Recording a generation keeps the shape of the record and moves the current
/// slot round the ring.
pub proof fn lemma_update_info_keeps_wf(
    before: LateInfo,
    after: LateInfo,
    ks: Seq<(usize, bool)>,
    r_num: nat,
    eval_range: nat,
)
    requires
        before.wf(r_num, eval_range),
        after.cur_iter == (before.cur_iter + 1) % (eval_range as int),
        after.uses() == with_column(before.uses(), before.cur_iter as int, |k: int| uses_of(ks, k)),
        after.updates() == with_column(
            before.updates(),
            before.cur_iter as int,
            |k: int| updates_of(ks, k),
        ),
    ensures
        after.wf(r_num, eval_range),
{
}

/// Adding one particle raises the number of particles with a choice in `0..r`
/// by one exactly when its choice is below `r`.
proof fn lemma_choices_total_step(ks: Seq<(usize, bool)>, r: int)
    requires
        ks.len() > 0,
        r >= 0,
    ensures
        choices_total(ks, r) == choices_total(ks.drop_last(), r) + if ks.last().0 < r {
            1int
        } else {
            0int
        },
    decreases r,
{
    if r > 0 {
        lemma_choices_total_step(ks, r - 1);
    }
}

/// When every choice lies in `0..r`, the counts of the choices add up to the
/// number of particles.
proof fn lemma_choices_total_all(ks: Seq<(usize, bool)>, r: int)
    requires
        r >= 0,
        forall|j: int| 0 <= j < ks.len() ==> (#[trigger] ks[j]).0 < r,
    ensures
        choices_total(ks, r) == ks.len(),
    decreases ks.len(),
{
    if ks.len() == 0 {
        lemma_choices_total_zero(ks, r);
    } else {
        lemma_choices_total_step(ks, r);
        assert forall|j: int| 0 <= j < ks.drop_last().len() implies (
        #[trigger] ks.drop_last()[j]).0 < r by {
            assert(ks.drop_last()[j] == ks[j]);
        }
        lemma_choices_total_all(ks.drop_last(), r);
        assert(ks.last() == ks[ks.len() - 1]);
    }
}

/// No particles, no counts.
proof fn lemma_choices_total_zero(ks: Seq<(usize, bool)>, r: int)
    requires
        ks.len() == 0,
    ensures
        choices_total(ks, r) == 0,
    decreases r,
{
    if r > 0 {
        lemma_choices_total_zero(ks, r - 1);
    }
}

/// The column total of a recorded slot is the sum of the counts written into it.
proof fn lemma_recorded_column_total(table: Seq<Seq<usize>>, col: int, ks: Seq<(usize, bool)>)
    requires
        has_column(table, col),
        ks.len() <= usize::MAX,
    ensures
        column_total(with_column(table, col, |k: int| uses_of(ks, k)), col) == choices_total(
            ks,
            table.len() as int,
        ),
    decreases table.len(),
{
    let t: Seq<Seq<usize>> = with_column(table, col, |k: int| uses_of(ks, k));
    if table.len() > 0 {
        let d: Seq<Seq<usize>> = table.drop_last();
        assert(has_column(d, col)) by {
            assert forall|k: int| 0 <= k < d.len() implies 0 <= col < #[trigger] d[k].len() by {
                assert(d[k] == table[k]);
                assert(0 <= col < table[k].len());
            }
        }
        assert(t.drop_last() =~= with_column(d, col, |k: int| uses_of(ks, k)));
        lemma_recorded_column_total(d, col, ks);
        lemma_counts_bounded(ks, table.len() - 1);
        assert(0 <= col < table[table.len() - 1].len());
        assert(t.last() == table.last().update(col, uses_of(ks, table.len() - 1) as usize));
    }
}

/// After a generation is recorded, its slot counts every particle exactly
/// once: the uses of that slot, summed over all choices, equal the number of
/// particles.
pub proof fn lemma_recorded_slot_counts_every_particle(
    uses: Seq<Seq<usize>>,
    col: int,
    ks: Seq<(usize, bool)>,
)
    requires
        has_column(uses, col),
        choices_below(ks, uses.len()),
        ks.len() <= usize::MAX,
    ensures
        column_total(with_column(uses, col, |k: int| uses_of(ks, k)), col) == ks.len(),
{
    lemma_recorded_column_total(uses, col, ks);
    lemma_choices_total_all(ks, uses.len() as int);
}

/// An improvement rate never exceeds one: over a row, the improvements add up
/// to no more than the uses.
pub proof fn lemma_row_updates_within_uses(uses: Seq<usize>, updates: Seq<usize>)
    requires
        uses.len() == updates.len(),
        forall|i: int| 0 <= i < uses.len() ==> #[trigger] updates[i] <= uses[i],
    ensures
        0 <= row_total(updates) <= row_total(uses),
    decreases uses.len(),
{
    if uses.len() > 0 {
        lemma_row_updates_within_uses(uses.drop_last(), updates.drop_last());
    }
}

} // verus!
