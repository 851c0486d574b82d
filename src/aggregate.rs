//! Partial aggregation: rows are grouped by key and folded into combinable
//! accumulators, one per aggregate expression.

use vstd::prelude::*;
use vstd::arithmetic::div_mod::{lemma_add_mod_noop, lemma_mod_twice, lemma_small_mod};

use crate::block::DataBlock;

verus! {

/// The modulus of `u64` arithmetic.
pub open spec fn modulus() -> int {
    0x1_0000_0000_0000_0000
}

/// The aggregate function at the root of an expression.
#[derive(Clone, Copy, Debug, PartialEq, Eq, Structural)]
pub enum AggregateFunction {
    Sum,
    Avg,
    Count,
}

/// An aggregate function over one input column, with an optional constant
/// that is added only when the final value is computed.
#[derive(Clone, Copy, Debug, PartialEq, Eq, Structural)]
pub struct AggregateExpr {
    pub function: AggregateFunction,
    pub column: usize,
    pub deferred_add: Option<u64>,
}

/// The partial state of one expression in one group: the wrapped sum of the
/// values seen and the wrapped number of rows seen.
#[derive(Clone, Copy, Debug, PartialEq, Eq, Structural)]
pub struct Accumulator {
    pub sum: u64,
    pub count: u64,
}

/// Addition with `u64` wraparound.
pub fn add_wrapping(a: u64, b: u64) -> (r: u64)
    ensures
        r == (a + b) % modulus(),
{
    a.wrapping_add(b)
}

impl Accumulator {
    pub fn zero() -> (r: Accumulator)
        ensures
            r.sum == 0 && r.count == 0,
    {
        Accumulator { sum: 0, count: 0 }
    }

    /// Folds one value in.
    pub fn update(&self, value: u64) -> (r: Accumulator)
        ensures
            r.sum == (self.sum + value) % modulus(),
            r.count == (self.count + 1) % modulus(),
    {
        Accumulator { sum: add_wrapping(self.sum, value), count: add_wrapping(self.count, 1) }
    }

    /// Combines two partial states of the same expression and group.
    pub fn combine(&self, other: &Accumulator) -> (r: Accumulator)
        ensures
            r == combined(*self, *other),
    {
        Accumulator { sum: add_wrapping(self.sum, other.sum), count: add_wrapping(self.count, other.count) }
    }
}

/// Two partial states combined.
pub open spec fn combined(a: Accumulator, b: Accumulator) -> Accumulator {
    Accumulator {
        sum: ((a.sum + b.sum) % modulus()) as u64,
        count: ((a.count + b.count) % modulus()) as u64,
    }
}

/// The group key of a row: its values in the group-by columns.
pub open spec fn key_of(row: Seq<u64>, group_by: Seq<usize>) -> Seq<u64> {
    Seq::new(group_by.len(), |i: int| row[group_by[i] as int])
}

/// The sum of column `col` over the rows whose key is `key`.
pub open spec fn group_sum(rows: Seq<Seq<u64>>, group_by: Seq<usize>, key: Seq<u64>, col: int) -> int
    decreases rows.len(),
{
    if rows.len() == 0 {
        0
    } else {
        group_sum(rows.drop_last(), group_by, key, col) + if key_of(rows.last(), group_by) == key {
            rows.last()[col] as int
        } else {
            0
        }
    }
}

/// The number of rows whose key is `key`.
pub open spec fn group_count(rows: Seq<Seq<u64>>, group_by: Seq<usize>, key: Seq<u64>) -> int
    decreases rows.len(),
{
    if rows.len() == 0 {
        0
    } else {
        group_count(rows.drop_last(), group_by, key) + if key_of(rows.last(), group_by) == key {
            1int
        } else {
            0
        }
    }
}

/// Whether some row has key `key`.
pub open spec fn has_key(rows: Seq<Seq<u64>>, group_by: Seq<usize>, key: Seq<u64>) -> bool {
    exists|i: int| 0 <= i < rows.len() && key_of(#[trigger] rows[i], group_by) == key
}

/// The partial state of a group after the rows `rows`.
pub open spec fn partial_of(rows: Seq<Seq<u64>>, group_by: Seq<usize>, key: Seq<u64>, col: int) -> Accumulator {
    Accumulator {
        sum: (group_sum(rows, group_by, key, col) % modulus()) as u64,
        count: (group_count(rows, group_by, key) % modulus()) as u64,
    }
}

/// A group absent from the rows has an empty state.
pub proof fn lemma_absent_key(rows: Seq<Seq<u64>>, group_by: Seq<usize>, key: Seq<u64>, col: int)
    requires
        !has_key(rows, group_by, key),
    ensures
        group_sum(rows, group_by, key, col) == 0,
        group_count(rows, group_by, key) == 0,
    decreases rows.len(),
{
    if rows.len() > 0 {
        assert forall|i: int| 0 <= i < rows.drop_last().len() implies key_of(
            #[trigger] rows.drop_last()[i],
            group_by,
        ) != key by {
            assert(rows.drop_last()[i] == rows[i]);
        }
        lemma_absent_key(rows.drop_last(), group_by, key, col);
        assert(key_of(rows[rows.len() - 1], group_by) != key);
    }
}

/// Sums and counts split over a concatenation of rows.
pub proof fn lemma_split(a: Seq<Seq<u64>>, b: Seq<Seq<u64>>, group_by: Seq<usize>, key: Seq<u64>, col: int)
    ensures
        group_sum(a + b, group_by, key, col) == group_sum(a, group_by, key, col) + group_sum(b, group_by, key, col),
        group_count(a + b, group_by, key) == group_count(a, group_by, key) + group_count(b, group_by, key),
    decreases b.len(),
{
    if b.len() == 0 {
        assert(a + b =~= a);
    } else {
        lemma_split(a, b.drop_last(), group_by, key, col);
        assert((a + b).drop_last() =~= a + b.drop_last());
        assert((a + b).last() == b.last());
    }
}

/// The partial state of the rows of two shards is the combination of the
/// shards' partial states.
pub proof fn lemma_combine_shards(a: Seq<Seq<u64>>, b: Seq<Seq<u64>>, group_by: Seq<usize>, key: Seq<u64>, col: int)
    ensures
        partial_of(a + b, group_by, key, col) == combined(partial_of(a, group_by, key, col), partial_of(b, group_by, key, col)),
{
    lemma_split(a, b, group_by, key, col);
    let m = modulus();
    lemma_add_mod_noop(group_sum(a, group_by, key, col), group_sum(b, group_by, key, col), m);
    lemma_add_mod_noop(group_count(a, group_by, key), group_count(b, group_by, key), m);
    lemma_nonneg(a, group_by, key, col);
    lemma_nonneg(b, group_by, key, col);
}

/// Sums and counts are never negative.
pub proof fn lemma_nonneg(rows: Seq<Seq<u64>>, group_by: Seq<usize>, key: Seq<u64>, col: int)
    ensures
        group_sum(rows, group_by, key, col) >= 0,
        group_count(rows, group_by, key) >= 0,
    decreases rows.len(),
{
    if rows.len() > 0 {
        lemma_nonneg(rows.drop_last(), group_by, key, col);
    }
}

/// Addition modulo `modulus()` regroups freely.
proof fn lemma_wrapped_assoc(x: int, y: int, z: int)
    ensures
        ((x + y) % modulus() + z) % modulus() == (x + (y + z) % modulus()) % modulus(),
{
    let m = modulus();
    lemma_add_mod_noop(x + y, z, m);
    lemma_add_mod_noop(x, y + z, m);
    lemma_mod_twice(x + y, m);
    lemma_mod_twice(y + z, m);
    assert((x + y) + z == x + (y + z));
    lemma_add_mod_noop((x + y) % m, z, m);
    lemma_add_mod_noop(x, (y + z) % m, m);
}

/// Combining partial states is commutative and associative, so shards may be
/// combined in any order with the same result.
pub proof fn lemma_combine_commutative_associative(a: Accumulator, b: Accumulator, c: Accumulator)
    ensures
        combined(a, b) == combined(b, a),
        combined(combined(a, b), c) == combined(a, combined(b, c)),
{
    lemma_wrapped_assoc(a.sum as int, b.sum as int, c.sum as int);
    lemma_wrapped_assoc(a.count as int, b.count as int, c.count as int);
}

/// The order in which two shards complete does not change the partial state
/// of their rows.
pub proof fn lemma_shard_order(a: Seq<Seq<u64>>, b: Seq<Seq<u64>>, group_by: Seq<usize>, key: Seq<u64>, col: int)
    ensures
        partial_of(a + b, group_by, key, col) == partial_of(b + a, group_by, key, col),
{
    lemma_split(a, b, group_by, key, col);
    lemma_split(b, a, group_by, key, col);
}

/// Taking one row out of the middle removes exactly its share.
proof fn lemma_remove_one(b: Seq<Seq<u64>>, j: int, group_by: Seq<usize>, key: Seq<u64>, col: int)
    requires
        0 <= j < b.len(),
    ensures
        group_sum(b, group_by, key, col) == group_sum(b.remove(j), group_by, key, col)
            + group_sum(seq![b[j]], group_by, key, col),
        group_count(b, group_by, key) == group_count(b.remove(j), group_by, key) + group_count(
            seq![b[j]],
            group_by,
            key,
        ),
{
    let pre = b.take(j);
    let mid = seq![b[j]];
    let post = b.skip(j + 1);
    assert(b =~= pre + mid + post);
    assert(b.remove(j) =~= pre + post);
    lemma_split(pre + mid, post, group_by, key, col);
    lemma_split(pre, mid, group_by, key, col);
    lemma_split(pre, post, group_by, key, col);
}

/// The partial state of a group depends on the rows only as a multiset: any
/// reordering of the rows, such as a different completion order of the
/// partitions, gives the same state.
pub proof fn lemma_order_independent(a: Seq<Seq<u64>>, b: Seq<Seq<u64>>, group_by: Seq<usize>, key: Seq<u64>, col: int)
    requires
        a.to_multiset() == b.to_multiset(),
    ensures
        partial_of(a, group_by, key, col) == partial_of(b, group_by, key, col),
        group_sum(a, group_by, key, col) == group_sum(b, group_by, key, col),
        group_count(a, group_by, key) == group_count(b, group_by, key),
    decreases a.len(),
{
    a.to_multiset_ensures();
    b.to_multiset_ensures();
    if a.len() > 0 {
        let x = a.last();
        let rest = a.drop_last();
        assert(a =~= rest.push(x));
        rest.to_multiset_ensures();
        assert(b.to_multiset().count(x) > 0);
        assert(b.contains(x));
        let j = choose|j: int| 0 <= j < b.len() && b[j] == x;
        assert(rest.to_multiset() =~= b.remove(j).to_multiset());
        lemma_order_independent(rest, b.remove(j), group_by, key, col);
        lemma_remove_one(b, j, group_by, key, col);
        assert(a =~= rest + seq![x]);
        lemma_split(rest, seq![x], group_by, key, col);
    } else {
        assert(b.len() == 0);
    }
}

} // verus!

verus! {

/// One group: its key and one accumulator per expression.
#[derive(Clone, Debug)]
pub struct GroupState {
    pub key: Vec<u64>,
    pub accs: Vec<Accumulator>,
}

/// Why an aggregation cannot be built or fed.
#[derive(Clone, Copy, Debug, PartialEq, Eq, Structural)]
pub enum AggregateError {
    /// An expression or a group-by reference names a column that the input
    /// schema does not have.
    ColumnNotFound { index: usize },
    /// A block does not have the input schema's columns.
    SchemaMismatch,
}

/// Folds a stream of blocks into per-group partial states.
pub struct AggregatorPartialTransform {
    pub n_columns: usize,
    pub exprs: Vec<AggregateExpr>,
    pub group_by: Vec<usize>,
    pub groups: Vec<GroupState>,
    /// The rows consumed so far.
    pub seen: Ghost<Seq<Seq<u64>>>,
}

/// Whether two keys are equal.
pub fn keys_equal(a: &Vec<u64>, b: &Vec<u64>) -> (r: bool)
    ensures
        r == (a@ == b@),
{
    if a.len() != b.len() {
        return false;
    }
    let mut i: usize = 0;
    while i < a.len()
        invariant
            0 <= i <= a@.len(),
            a@.len() == b@.len(),
            forall|k: int| 0 <= k < i ==> a@[k] == b@[k],
        decreases a@.len() - i,
    {
        if a[i] != b[i] {
            return false;
        }
        i = i + 1;
    }
    assert(a@ =~= b@);
    true
}

impl AggregatorPartialTransform {
    pub open spec fn group_key(&self, i: int) -> Seq<u64> {
        self.groups@[i].key@
    }

    pub open spec fn wf(&self) -> bool {
        &&& forall|j: int| 0 <= j < self.exprs@.len() ==> (#[trigger] self.exprs@[j]).column < self.n_columns
        &&& forall|g: int| 0 <= g < self.group_by@.len() ==> #[trigger] self.group_by@[g] < self.n_columns
        &&& forall|r: int| 0 <= r < self.seen@.len() ==> (#[trigger] self.seen@[r]).len() == self.n_columns
        &&& forall|i: int| 0 <= i < self.groups@.len() ==> (#[trigger] self.groups@[i]).accs@.len() == self.exprs@.len()
        &&& forall|i: int| 0 <= i < self.groups@.len() ==> has_key(self.seen@, self.group_by@, #[trigger] self.group_key(i))
        &&& forall|i: int, k: int| 0 <= i < k < self.groups@.len() ==> #[trigger] self.group_key(i) != #[trigger] self.group_key(k)
        &&& forall|key: Seq<u64>| has_key(self.seen@, self.group_by@, key) ==> exists|i: int|
            0 <= i < self.groups@.len() && #[trigger] self.group_key(i) == key
        &&& forall|i: int, j: int| 0 <= i < self.groups@.len() && 0 <= j < self.exprs@.len() ==>
            #[trigger] self.groups@[i].accs@[j] == partial_of(self.seen@, self.group_by@, self.group_key(i), #[trigger] self.exprs@[j].column as int)
    }

    /// Checks every column reference against an input of `n_columns` columns.
    pub fn try_create(n_columns: usize, exprs: Vec<AggregateExpr>, group_by: Vec<usize>) -> (r: Result<AggregatorPartialTransform, AggregateError>)
        ensures
            r is Ok <==> (forall|j: int| 0 <= j < exprs@.len() ==> (#[trigger] exprs@[j]).column < n_columns)
                && (forall|g: int| 0 <= g < group_by@.len() ==> #[trigger] group_by@[g] < n_columns),
            r matches Ok(t) ==> t.wf() && t.seen@.len() == 0 && t.exprs@ == exprs@ && t.group_by@ == group_by@
                && t.n_columns == n_columns && t.groups@.len() == 0,
            r matches Err(e) ==> e matches AggregateError::ColumnNotFound { index } && index >= n_columns,
    {
        let mut j: usize = 0;
        while j < exprs.len()
            invariant
                0 <= j <= exprs@.len(),
                forall|k: int| 0 <= k < j ==> (#[trigger] exprs@[k]).column < n_columns,
            decreases exprs@.len() - j,
        {
            if exprs[j].column >= n_columns {
                return Err(AggregateError::ColumnNotFound { index: exprs[j].column });
            }
            j = j + 1;
        }
        let mut g: usize = 0;
        while g < group_by.len()
            invariant
                0 <= g <= group_by@.len(),
                forall|k: int| 0 <= k < g ==> #[trigger] group_by@[k] < n_columns,
            decreases group_by@.len() - g,
        {
            if group_by[g] >= n_columns {
                return Err(AggregateError::ColumnNotFound { index: group_by[g] });
            }
            g = g + 1;
        }
        Ok(AggregatorPartialTransform { n_columns, exprs, group_by, groups: Vec::new(), seen: Ghost(Seq::empty()) })
    }

    fn key_of_row(&self, row: &Vec<u64>) -> (r: Vec<u64>)
        requires
            self.wf(),
            row@.len() == self.n_columns,
        ensures
            r@ == key_of(row@, self.group_by@),
    {
        let mut key: Vec<u64> = Vec::new();
        let mut i: usize = 0;
        while i < self.group_by.len()
            invariant
                self.wf(),
                row@.len() == self.n_columns,
                0 <= i <= self.group_by@.len(),
                key@ == Seq::new(i as nat, |k: int| row@[self.group_by@[k] as int]),
            decreases self.group_by@.len() - i,
        {
            let g = self.group_by[i];
            assert(g < self.n_columns);
            key.push(row[g]);
            i = i + 1;
            assert(key@ =~= Seq::new(i as nat, |k: int| row@[self.group_by@[k] as int]));
        }
        assert(key@ =~= key_of(row@, self.group_by@));
        key
    }

    fn updated_accs(&self, base: &Vec<Accumulator>, row: &Vec<u64>) -> (r: Vec<Accumulator>)
        requires
            self.wf(),
            row@.len() == self.n_columns,
            base@.len() == self.exprs@.len(),
        ensures
            r@.len() == self.exprs@.len(),
            forall|j: int| 0 <= j < self.exprs@.len() ==> {
                &&& (#[trigger] r@[j]).sum == (base@[j].sum + row@[self.exprs@[j].column as int]) % modulus()
                &&& r@[j].count == (base@[j].count + 1) % modulus()
            },
    {
        let mut accs: Vec<Accumulator> = Vec::new();
        let mut j: usize = 0;
        while j < self.exprs.len()
            invariant
                self.wf(),
                row@.len() == self.n_columns,
                base@.len() == self.exprs@.len(),
                0 <= j <= self.exprs@.len(),
                accs@.len() == j,
                forall|k: int| 0 <= k < j ==> {
                    &&& (#[trigger] accs@[k]).sum == (base@[k].sum + row@[self.exprs@[k].column as int]) % modulus()
                    &&& accs@[k].count == (base@[k].count + 1) % modulus()
                },
            decreases self.exprs@.len() - j,
        {
            let c = self.exprs[j].column;
            assert(c < self.n_columns);
            accs.push(base[j].update(row[c]));
            j = j + 1;
        }
        accs
    }

    /// Folds one row into the group of its key.
    #[verifier::rlimit(50)]
    pub fn update_row(&mut self, row: &Vec<u64>)
        requires
            old(self).wf(),
            row@.len() == old(self).n_columns,
        ensures
            final(self).wf(),
            final(self).seen@ == old(self).seen@.push(row@),
            final(self).n_columns == old(self).n_columns,
            final(self).exprs@ == old(self).exprs@,
            final(self).group_by@ == old(self).group_by@,
    {
        let key = self.key_of_row(row);
        let mut idx: usize = 0;
        let mut found = false;
        while idx < self.groups.len() && !found
            invariant
                0 <= idx <= self.groups@.len(),
                found ==> idx < self.groups@.len() && self.group_key(idx as int) == key@,
                forall|k: int| 0 <= k < idx ==> #[trigger] self.group_key(k) != key@,
            decreases self.groups@.len() - idx + if found { 0int } else { 1int },
        {
            if keys_equal(&self.groups[idx].key, &key) {
                found = true;
            } else {
                idx = idx + 1;
            }
        }
        let ghost old_seen = self.seen@;
        let ghost new_seen = old_seen.push(row@);
        let ghost gb = self.group_by@;
        proof {
            assert(new_seen.drop_last() =~= old_seen);
        }
        if found {
            let base = self.groups[idx].accs.clone();
            assert(base@ =~= self.groups@[idx as int].accs@);
            let accs = self.updated_accs(&base, row);
            self.groups[idx] = GroupState { key, accs };
        } else {
            proof {
                if has_key(old_seen, gb, key@) {
                    let i = choose|i: int| 0 <= i < self.groups@.len() && #[trigger] self.group_key(i) == key@;
                    assert(self.group_key(i) != key@);
                }
                assert forall|c: int| #![auto] group_sum(old_seen, gb, key@, c) == 0 && group_count(old_seen, gb, key@) == 0 by {
                    lemma_absent_key(old_seen, gb, key@, c);
                }
            }
            let mut base: Vec<Accumulator> = Vec::new();
            let mut j: usize = 0;
            while j < self.exprs.len()
                invariant
                    0 <= j <= self.exprs@.len(),
                    base@.len() == j,
                    forall|k: int| 0 <= k < j ==> (#[trigger] base@[k]).sum == 0 && base@[k].count == 0,
                decreases self.exprs@.len() - j,
            {
                base.push(Accumulator::zero());
                j = j + 1;
            }
            let accs = self.updated_accs(&base, row);
            idx = self.groups.len();
            self.groups.push(GroupState { key, accs });
        }
        self.seen = Ghost(new_seen);
        proof {
            assert forall|i: int| 0 <= i < self.groups@.len() && i != idx implies self.groups@[i] == old(self).groups@[i]
                && has_key(old_seen, gb, #[trigger] self.group_key(i)) by {
                assert(old(self).group_key(i) == self.group_key(i));
            }
            assert forall|i: int, k: int| 0 <= i < k < self.groups@.len() implies #[trigger] self.group_key(i)
                != #[trigger] self.group_key(k) by {
                if i != idx && k != idx {
                    assert(old(self).group_key(i) != old(self).group_key(k));
                } else if found {
                    assert(old(self).group_key(i) == self.group_key(i));
                    assert(old(self).group_key(k) == self.group_key(k));
                    assert(old(self).group_key(i) != old(self).group_key(k));
                } else {
                    assert(k == idx);
                    assert(old(self).group_key(i) == self.group_key(i));
                }
            }
            assert forall|key: Seq<u64>| has_key(old_seen, gb, key) implies exists|i: int|
                0 <= i < self.groups@.len() && #[trigger] self.group_key(i) == key by {
                let i = choose|i: int| 0 <= i < old(self).groups@.len() && #[trigger] old(self).group_key(i) == key;
                if found || i != idx {
                    assert(old(self).group_key(i) == self.group_key(i));
                }
            }
            self.lemma_after_update(old_seen, row@, idx as int);
        }
    }

    proof fn lemma_after_update(&self, old_seen: Seq<Seq<u64>>, row: Seq<u64>, idx: int)
        requires
            self.seen@ == old_seen.push(row),
            0 <= idx < self.groups@.len(),
            self.group_key(idx) == key_of(row, self.group_by@),
            row.len() == self.n_columns,
            forall|j: int| 0 <= j < self.exprs@.len() ==> (#[trigger] self.exprs@[j]).column < self.n_columns,
            forall|g: int| 0 <= g < self.group_by@.len() ==> #[trigger] self.group_by@[g] < self.n_columns,
            forall|r: int| 0 <= r < old_seen.len() ==> (#[trigger] old_seen[r]).len() == self.n_columns,
            forall|i: int| 0 <= i < self.groups@.len() ==> (#[trigger] self.groups@[i]).accs@.len() == self.exprs@.len(),
            forall|i: int| 0 <= i < self.groups@.len() && i != idx ==> has_key(old_seen, self.group_by@, #[trigger] self.group_key(i)),
            forall|i: int, k: int| 0 <= i < k < self.groups@.len() ==> #[trigger] self.group_key(i) != #[trigger] self.group_key(k),
            forall|key: Seq<u64>| has_key(old_seen, self.group_by@, key) ==> exists|i: int|
                0 <= i < self.groups@.len() && #[trigger] self.group_key(i) == key,
            forall|i: int, j: int| 0 <= i < self.groups@.len() && i != idx && 0 <= j < self.exprs@.len() ==>
                #[trigger] self.groups@[i].accs@[j] == partial_of(old_seen, self.group_by@, self.group_key(i), #[trigger] self.exprs@[j].column as int),
            forall|j: int| 0 <= j < self.exprs@.len() ==> {
                &&& (#[trigger] self.groups@[idx].accs@[j]).sum == (partial_of(old_seen, self.group_by@, self.group_key(idx), self.exprs@[j].column as int).sum + row[self.exprs@[j].column as int]) % modulus()
                &&& self.groups@[idx].accs@[j].count == (partial_of(old_seen, self.group_by@, self.group_key(idx), self.exprs@[j].column as int).count + 1) % modulus()
            },
        ensures
            self.wf(),
    {
        let gb = self.group_by@;
        let s = self.seen@;
        let kr = key_of(row, gb);
        let m = modulus();
        assert(s.drop_last() =~= old_seen);
        assert(s.last() == row);
        assert forall|r: int| 0 <= r < s.len() implies (#[trigger] s[r]).len() == self.n_columns by {
            if r < old_seen.len() {
                assert(s[r] == old_seen[r]);
            }
        }
        assert forall|i: int| 0 <= i < self.groups@.len() implies has_key(s, gb, #[trigger] self.group_key(i)) by {
            if i == idx {
                assert(s[old_seen.len() as int] == row);
            } else {
                let r = choose|r: int| 0 <= r < old_seen.len() && key_of(#[trigger] old_seen[r], gb) == self.group_key(i);
                assert(s[r] == old_seen[r]);
            }
        }
        assert forall|key: Seq<u64>| has_key(s, gb, key) implies exists|i: int|
            0 <= i < self.groups@.len() && #[trigger] self.group_key(i) == key by {
            let r = choose|r: int| 0 <= r < s.len() && key_of(#[trigger] s[r], gb) == key;
            if r == old_seen.len() {
                assert(self.group_key(idx) == key);
            } else {
                assert(s[r] == old_seen[r]);
                assert(has_key(old_seen, gb, key));
            }
        }
        assert forall|i: int, j: int| 0 <= i < self.groups@.len() && 0 <= j < self.exprs@.len() implies
            #[trigger] self.groups@[i].accs@[j] == partial_of(s, gb, self.group_key(i), #[trigger] self.exprs@[j].column as int) by {
            let c = self.exprs@[j].column as int;
            let key = self.group_key(i);
            lemma_nonneg(old_seen, gb, key, c);
            if i == idx {
                let v = row[c] as int;
                let gs = group_sum(old_seen, gb, key, c);
                let gc = group_count(old_seen, gb, key);
                assert(group_sum(s, gb, key, c) == gs + v);
                assert(group_count(s, gb, key) == gc + 1);
                lemma_add_mod_noop(gs, v, m);
                lemma_small_mod(v as nat, m as nat);
                lemma_add_mod_noop(gc, 1, m);
                lemma_small_mod(1, m as nat);
            } else {
                if i < idx {
                    assert(self.group_key(i) != self.group_key(idx));
                } else {
                    assert(self.group_key(idx) != self.group_key(i));
                }
                assert(group_sum(s, gb, key, c) == group_sum(old_seen, gb, key, c));
                assert(group_count(s, gb, key) == group_count(old_seen, gb, key));
            }
        }
    }
}

impl AggregatorPartialTransform {
    /// Folds every row of a block in. A block whose columns do not match the
    /// input schema is refused and changes nothing.
    pub fn consume(&mut self, block: &DataBlock) -> (r: Result<(), AggregateError>)
        requires
            old(self).wf(),
        ensures
            final(self).wf(),
            final(self).n_columns == old(self).n_columns,
            final(self).exprs@ == old(self).exprs@,
            final(self).group_by@ == old(self).group_by@,
            r is Ok <==> block.columns@.len() == old(self).n_columns && block.wf(),
            r is Ok ==> final(self).seen@ == old(self).seen@ + block.rows(),
            r is Err ==> r == Err::<(), AggregateError>(AggregateError::SchemaMismatch) && final(self).seen@ == old(self).seen@
                && final(self).groups@ == old(self).groups@,
    {
        if block.columns.len() != self.n_columns {
            return Err(AggregateError::SchemaMismatch);
        }
        let mut c: usize = 0;
        while c < block.columns.len()
            invariant
                *self == *old(self),
                self.wf(),
                block.columns@.len() == self.n_columns,
                0 <= c <= block.columns@.len(),
                forall|k: int| 0 <= k < c ==> (#[trigger] block.columns@[k])@.len() == block.num_rows,
            decreases block.columns@.len() - c,
        {
            if block.columns[c].len() != block.num_rows {
                return Err(AggregateError::SchemaMismatch);
            }
            c = c + 1;
        }
        let ghost start = self.seen@;
        let mut r: usize = 0;
        while r < block.num_rows
            invariant
                self.wf(),
                block.wf(),
                block.columns@.len() == self.n_columns,
                self.n_columns == old(self).n_columns,
                self.exprs@ == old(self).exprs@,
                self.group_by@ == old(self).group_by@,
                start == old(self).seen@,
                0 <= r <= block.num_rows,
                self.seen@ == start + block.rows().take(r as int),
            decreases block.num_rows - r,
        {
            let mut row: Vec<u64> = Vec::new();
            let mut c: usize = 0;
            while c < block.columns.len()
                invariant
                    block.wf(),
                    0 <= r < block.num_rows,
                    0 <= c <= block.columns@.len(),
                    row@ == Seq::new(c as nat, |k: int| block.columns@[k]@[r as int]),
                decreases block.columns@.len() - c,
            {
                row.push(block.columns[c][r]);
                c = c + 1;
                assert(row@ =~= Seq::new(c as nat, |k: int| block.columns@[k]@[r as int]));
            }
            assert(row@ =~= block.row(r as int));
            self.update_row(&row);
            r = r + 1;
            assert(block.rows().take(r as int) =~= block.rows().take(r - 1).push(block.row(r - 1)));
            assert(start + block.rows().take(r as int) =~= (start + block.rows().take(r - 1)).push(block.row(r - 1)));
        }
        assert(block.rows().take(block.num_rows as int) =~= block.rows());
        Ok(())
    }

    /// Ends the stream: one group per distinct key among the rows consumed,
    /// with its partial states.
    pub fn finish(self) -> (r: Vec<GroupState>)
        requires
            self.wf(),
        ensures
            r@ == self.groups@,
    {
        self.groups
    }
}

} // verus!
