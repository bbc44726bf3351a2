//! Ranking of function records by complexity.
//!
//! The top-offenders list is the metric records sorted by non-increasing
//! complexity. The sort is the stable insertion sort written out below:
//! records of equal complexity keep their input order, so the result is a
//! function of the input sequence alone.

use vstd::prelude::*;

use crate::metrics::FunctionMetric;

verus! {

/// `x` inserted into `s` behind every record whose complexity is at least
/// `x`'s.
pub open spec fn insert_desc(x: FunctionMetric, s: Seq<FunctionMetric>) -> Seq<FunctionMetric>
    decreases s.len(),
{
    if s.len() == 0 {
        seq![x]
    } else if x.complexity > s[0].complexity {
        seq![x] + s
    } else {
        seq![s[0]] + insert_desc(x, s.drop_first())
    }
}

/// The records sorted by non-increasing complexity, stably: each record is
/// inserted, in input order, behind the records of equal complexity.
pub open spec fn sort_desc(s: Seq<FunctionMetric>) -> Seq<FunctionMetric>
    decreases s.len(),
{
    if s.len() == 0 {
        Seq::<FunctionMetric>::empty()
    } else {
        insert_desc(s.last(), sort_desc(s.drop_last()))
    }
}

/// Non-increasing complexity.
pub open spec fn sorted_desc(s: Seq<FunctionMetric>) -> bool {
    forall|i: int, j: int|
        #![trigger s[i], s[j]]
        0 <= i <= j < s.len() ==> s[i].complexity >= s[j].complexity
}

/// Inserting adds exactly one record.
pub proof fn lemma_insert_desc_len(x: FunctionMetric, s: Seq<FunctionMetric>)
    ensures
        insert_desc(x, s).len() == s.len() + 1,
    decreases s.len(),
{
    if s.len() > 0 && !(x.complexity > s[0].complexity) {
        lemma_insert_desc_len(x, s.drop_first());
    }
}

/// Sorting keeps the number of records.
pub proof fn lemma_sort_desc_len(s: Seq<FunctionMetric>)
    ensures
        sort_desc(s).len() == s.len(),
    decreases s.len(),
{
    if s.len() > 0 {
        lemma_sort_desc_len(s.drop_last());
        lemma_insert_desc_len(s.last(), sort_desc(s.drop_last()));
    }
}

/// Sorting keeps the records themselves: the result holds the same
/// multiset of records as the input.
pub proof fn lemma_insert_desc_multiset(x: FunctionMetric, s: Seq<FunctionMetric>)
    ensures
        insert_desc(x, s).to_multiset() == s.to_multiset().insert(x),
    decreases s.len(),
{
    broadcast use vstd::seq_lib::group_seq_properties;

    if s.len() == 0 {
        assert(seq![x] =~= Seq::<FunctionMetric>::empty().push(x));
    } else if x.complexity > s[0].complexity {
        assert(seq![x] + s =~= (seq![x] + s.drop_first()).insert(1, s[0]));
        assert(seq![x] =~= Seq::<FunctionMetric>::empty().push(x));
        vstd::seq_lib::lemma_multiset_commutative(seq![x], s.drop_first());
        vstd::seq_lib::lemma_seq_union_to_multiset_commutative(seq![x], s.drop_first());
        assert(s =~= s.drop_first().insert(0, s[0]));
    } else {
        lemma_insert_desc_multiset(x, s.drop_first());
        assert(insert_desc(x, s) =~= insert_desc(x, s.drop_first()).insert(0, s[0]));
        assert(s =~= s.drop_first().insert(0, s[0]));
    }
}

/// The sorted sequence holds exactly the input records.
pub proof fn lemma_sort_desc_multiset(s: Seq<FunctionMetric>)
    ensures
        sort_desc(s).to_multiset() == s.to_multiset(),
    decreases s.len(),
{
    broadcast use vstd::seq_lib::group_seq_properties;

    if s.len() > 0 {
        lemma_sort_desc_multiset(s.drop_last());
        lemma_insert_desc_multiset(s.last(), sort_desc(s.drop_last()));
        assert(s =~= s.drop_last().push(s.last()));
    }
}

/// Inserting into a sorted sequence keeps it sorted.
pub proof fn lemma_insert_desc_sorted(x: FunctionMetric, s: Seq<FunctionMetric>)
    requires
        sorted_desc(s),
    ensures
        sorted_desc(insert_desc(x, s)),
    decreases s.len(),
{
    if s.len() == 0 {
    } else if x.complexity > s[0].complexity {
        assert forall|i: int, j: int|
            0 <= i <= j < (seq![x] + s).len() implies #[trigger] (seq![x] + s)[i].complexity
            >= #[trigger] (seq![x] + s)[j].complexity by {
            if i > 0 {
                assert((seq![x] + s)[i] == s[i - 1]);
            }
            if j > 0 {
                assert((seq![x] + s)[j] == s[j - 1]);
            }
        }
    } else {
        assert(sorted_desc(s.drop_first()));
        lemma_insert_desc_sorted(x, s.drop_first());
        lemma_insert_desc_len(x, s.drop_first());
        let t = insert_desc(x, s.drop_first());
        let r = seq![s[0]] + t;
        // The head of the inserted tail is either `x` or the old second
        // record; the old head is at least both.
        assert(t.len() > 0);
        assert(t[0] == x || (s.drop_first().len() > 0 && t[0] == s.drop_first()[0]));
        assert(s.drop_first().len() > 0 ==> s.drop_first()[0] == s[1]);
        assert(s[0].complexity >= t[0].complexity);
        assert forall|i: int, j: int|
            0 <= i <= j < r.len() implies #[trigger] r[i].complexity
            >= #[trigger] r[j].complexity by {
            if i > 0 {
                assert(r[i] == t[i - 1]);
                assert(r[j] == t[j - 1]);
            } else if j > 0 {
                assert(r[j] == t[j - 1]);
                assert(t[0].complexity >= t[j - 1].complexity);
            }
        }
    }
}

/// The sort's result is sorted by non-increasing complexity.
pub proof fn lemma_sort_desc_sorted(s: Seq<FunctionMetric>)
    ensures
        sorted_desc(sort_desc(s)),
    decreases s.len(),
{
    if s.len() > 0 {
        lemma_sort_desc_sorted(s.drop_last());
        lemma_insert_desc_sorted(s.last(), sort_desc(s.drop_last()));
    }
}

/// Where `p` is the first position whose record's complexity is below
/// `x`'s, inserting there is what `insert_desc` does.
proof fn lemma_insert_desc_at(x: FunctionMetric, s: Seq<FunctionMetric>, p: int)
    requires
        0 <= p <= s.len(),
        forall|q: int| 0 <= q < p ==> #[trigger] s[q].complexity >= x.complexity,
        p < s.len() ==> s[p].complexity < x.complexity,
    ensures
        insert_desc(x, s) == s.insert(p, x),
    decreases s.len(),
{
    if p == 0 {
        if s.len() == 0 {
            assert(insert_desc(x, s) =~= s.insert(0, x));
        } else {
            assert(x.complexity > s[0].complexity);
            assert(seq![x] + s =~= s.insert(0, x));
        }
    } else {
        assert(s[0].complexity >= x.complexity);
        assert forall|q: int| 0 <= q < p - 1 implies #[trigger] s.drop_first()[q].complexity
            >= x.complexity by {
            assert(s.drop_first()[q] == s[q + 1]);
        }
        assert(p - 1 < s.drop_first().len() ==> s.drop_first()[p - 1].complexity < x.complexity);
        lemma_insert_desc_at(x, s.drop_first(), p - 1);
        assert(seq![s[0]] + s.drop_first().insert(p - 1, x) =~= s.insert(p, x));
    }
}

/// Sorts the records by non-increasing complexity, stably.
pub fn sorted_by_complexity(v: &Vec<FunctionMetric>) -> (r: Vec<FunctionMetric>)
    ensures
        r@ == sort_desc(v@),
{
    let n = v.len();
    let mut r: Vec<FunctionMetric> = Vec::new();
    let mut i: usize = 0;
    proof {
        assert(v@.take(0) =~= Seq::<FunctionMetric>::empty());
    }
    while i < n
        invariant
            n == v@.len(),
            0 <= i <= n,
            r@ == sort_desc(v@.take(i as int)),
            r@.len() == i,
        decreases n - i,
    {
        let x = v[i].clone();
        let mut p: usize = 0;
        while p < r.len() && r[p].complexity >= x.complexity
            invariant
                0 <= p <= r@.len(),
                forall|q: int| 0 <= q < p ==> #[trigger] r@[q].complexity >= x.complexity,
            decreases r@.len() - p,
        {
            p = p + 1;
        }
        proof {
            lemma_insert_desc_at(x, r@, p as int);
            assert(v@.take(i as int + 1).drop_last() =~= v@.take(i as int));
            assert(v@.take(i as int + 1).last() == v@[i as int]);
            lemma_insert_desc_len(x, r@);
        }
        r.insert(p, x);
        i = i + 1;
    }
    proof {
        assert(v@.take(n as int) =~= v@);
    }
    r
}

} // verus!
