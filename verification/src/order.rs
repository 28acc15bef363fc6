//! Splitting the columns of a table into key and value columns, and putting
//! the key columns into the order in which the primary key declares them.

use crate::column::{ColumnInfo, ColumnModel};
use crate::filter::{lemma_filter_member, lemma_filter_none, lemma_filter_push, lemma_filter_two};
use vstd::prelude::*;

verus! {

/// Holds of the columns that belong to the primary key.
pub open spec fn in_key() -> spec_fn(ColumnModel) -> bool {
    |c: ColumnModel| c.pk > 0
}

/// Holds of the columns outside the primary key.
pub open spec fn outside_key() -> spec_fn(ColumnModel) -> bool {
    |c: ColumnModel| c.pk <= 0
}

/// Holds of the columns whose key rank is `rank`.
pub open spec fn of_rank(rank: int) -> spec_fn(ColumnModel) -> bool {
    |c: ColumnModel| c.pk == rank
}

/// The key columns among `cols`, in the order in which `cols` lists them.
pub open spec fn key_columns(cols: Seq<ColumnModel>) -> Seq<ColumnModel> {
    cols.filter(in_key())
}

/// The columns of `cols` outside the key, in the order in which `cols` lists them.
pub open spec fn value_columns(cols: Seq<ColumnModel>) -> Seq<ColumnModel> {
    cols.filter(outside_key())
}

/// No column of `cols` stands before one of a smaller key rank.
pub open spec fn ascending_by_rank(cols: Seq<ColumnModel>) -> bool {
    forall|i: int, j: int| 0 <= i < j < cols.len() ==> cols[i].pk <= cols[j].pk
}

/// Each column of `cols` has a smaller key rank than every later one.
pub open spec fn strictly_ascending_by_rank(cols: Seq<ColumnModel>) -> bool {
    forall|i: int, j: int| 0 <= i < j < cols.len() ==> cols[i].pk < cols[j].pk
}

/// No two columns of `cols` share a key rank.
pub open spec fn ranks_distinct(cols: Seq<ColumnModel>) -> bool {
    forall|i: int, j: int| 0 <= i < j < cols.len() ==> cols[i].pk != cols[j].pk
}

/// `sorted` is `cols` put into ascending order of key rank without disturbing
/// the columns of any one rank: it has the length of `cols`, ascends by rank,
/// and for every rank lists the same columns of that rank in the same order.
pub open spec fn is_rank_order_of(sorted: Seq<ColumnModel>, cols: Seq<ColumnModel>) -> bool {
    &&& sorted.len() == cols.len()
    &&& ascending_by_rank(sorted)
    &&& forall|rank: int|
        #![trigger of_rank(rank)]
        sorted.filter(of_rank(rank)) == cols.filter(of_rank(rank))
}

/// Splits `cols` into its key columns and its value columns, each part in the
/// order in which `cols` lists its members.
pub fn partition_columns(cols: &Vec<ColumnInfo>) -> (parts: (Vec<ColumnInfo>, Vec<ColumnInfo>))
    ensures
        parts.0.deep_view() == key_columns(cols.deep_view()),
        parts.1.deep_view() == value_columns(cols.deep_view()),
{
    let mut keys: Vec<ColumnInfo> = Vec::new();
    let mut values: Vec<ColumnInfo> = Vec::new();
    let ghost all = cols.deep_view();
    proof {
        reveal(Seq::filter);
        assert(all.take(0) =~= Seq::empty());
        assert(keys.deep_view() =~= Seq::empty());
        assert(values.deep_view() =~= Seq::empty());
    }
    let mut i: usize = 0;
    while i < cols.len()
        invariant
            i <= cols.len(),
            all == cols.deep_view(),
            keys.deep_view() == key_columns(all.take(i as int)),
            values.deep_view() == value_columns(all.take(i as int)),
        decreases cols.len() - i,
    {
        let ghost seen = all.take(i as int);
        let ghost keys_before = keys.deep_view();
        let ghost values_before = values.deep_view();
        let col = cols[i].clone();
        proof {
            assert(all.take(i + 1) =~= seen.push(col@));
            lemma_filter_push(seen, in_key(), col@);
            lemma_filter_push(seen, outside_key(), col@);
        }
        if col.pk > 0 {
            keys.push(col);
            assert(keys.deep_view() =~= keys_before.push(col@));
        } else {
            values.push(col);
            assert(values.deep_view() =~= values_before.push(col@));
        }
        i += 1;
    }
    assert(all.take(i as int) =~= all);
    (keys, values)
}

/// Puts `cols` into ascending order of key rank. Columns of equal rank keep
/// the order in which they stood.
pub fn sort_by_rank(cols: &mut Vec<ColumnInfo>)
    ensures
        is_rank_order_of(final(cols).deep_view(), old(cols).deep_view()),
{
    let ghost given = cols.deep_view();
    let n = cols.len();
    proof {
        assert(given.take(0) =~= Seq::empty());
    }
    let mut i: usize = 0;
    while i < n
        invariant
            i <= n,
            n == cols.len(),
            given.len() == n,
            ascending_by_rank(cols.deep_view().take(i as int)),
            cols.deep_view().skip(i as int) == given.skip(i as int),
            forall|rank: int|
                #![trigger of_rank(rank)]
                cols.deep_view().take(i as int).filter(of_rank(rank)) == given.take(
                    i as int,
                ).filter(of_rank(rank)),
        decreases n - i,
    {
        let ghost before = cols.deep_view();
        let rank = cols[i].pk;
        let mut at: usize = i;
        while at > 0 && cols[at - 1].pk > rank
            invariant
                at <= i < n,
                n == cols.len(),
                before == cols.deep_view(),
                rank == cols[i as int].pk,
                forall|j: int| at <= j < i ==> (#[trigger] before[j]).pk > rank,
            decreases at,
        {
            at -= 1;
        }
        let col = cols.remove(i);
        cols.insert(at, col);
        proof {
            let sorted = before.take(i as int);
            let c = before[i as int];
            assert(c == col@);
            assert(c == given.skip(i as int)[0]);
            assert(cols.deep_view() =~= before.remove(i as int).insert(at as int, c));
            assert(cols.deep_view().take(i + 1) =~= sorted.insert(at as int, c));
            assert(cols.deep_view().skip(i + 1) =~= before.skip(i as int).skip(1));
            assert(given.skip(i + 1) =~= given.skip(i as int).skip(1));
            assert(given.take(i + 1) =~= given.take(i as int).push(c));
            assert forall|j: int| 0 <= j < at implies (#[trigger] sorted[j]).pk <= rank by {
                assert(sorted[at - 1].pk <= rank);
            }
            assert forall|j: int| at <= j < sorted.len() implies (#[trigger] sorted[j]).pk
                > c.pk by {
                assert(sorted[j] == before[j]);
            }
            assert(ascending_by_rank(sorted.insert(at as int, c)));
            assert forall|r: int| #![trigger of_rank(r)] sorted.insert(at as int, c).filter(
                of_rank(r),
            ) == given.take(i as int).push(c).filter(of_rank(r)) by {
                lemma_insert_keeps_classes(sorted, at as int, c, r);
                lemma_filter_push(sorted, of_rank(r), c);
                lemma_filter_push(given.take(i as int), of_rank(r), c);
            }
        }
        i += 1;
    }
    proof {
        assert(cols.deep_view().take(n as int) =~= cols.deep_view());
        assert(given.take(n as int) =~= given);
    }
}

/// Every column is either a key column or a value column, never both.
pub proof fn lemma_partition_len(cols: Seq<ColumnModel>)
    ensures
        key_columns(cols).len() + value_columns(cols).len() == cols.len(),
    decreases cols.len(),
{
    reveal(Seq::filter);
    if cols.len() > 0 {
        lemma_partition_len(cols.drop_last());
    }
}

/// Key columns and value columns together hold each column as often as it
/// was given: none is lost and none is added.
pub proof fn lemma_partition_keeps_columns(cols: Seq<ColumnModel>)
    ensures
        key_columns(cols).to_multiset().add(value_columns(cols).to_multiset())
            == cols.to_multiset(),
    decreases cols.len(),
{
    reveal(Seq::filter);
    if cols.len() == 0 {
        assert(key_columns(cols) =~= cols);
        assert(value_columns(cols) =~= cols);
        assert(cols.to_multiset().add(cols.to_multiset()) =~= cols.to_multiset()) by {
            cols.to_multiset_ensures();
            assert(cols.to_multiset().len() == 0);
            vstd::multiset::lemma_multiset_empty_len(cols.to_multiset());
        }
    } else {
        let rest = cols.drop_last();
        let last = cols.last();
        lemma_partition_keeps_columns(rest);
        assert(cols =~= rest.push(last));
        vstd::seq_lib::to_multiset_build(rest, last);
        vstd::seq_lib::to_multiset_build(key_columns(rest), last);
        vstd::seq_lib::to_multiset_build(value_columns(rest), last);
        assert(key_columns(cols).to_multiset().add(value_columns(cols).to_multiset())
            =~= cols.to_multiset());
    }
}

/// Putting a column in front of the columns of strictly greater rank gives
/// every rank the same columns, in the same order, as appending it would.
pub proof fn lemma_insert_keeps_classes(s: Seq<ColumnModel>, at: int, c: ColumnModel, rank: int)
    requires
        0 <= at <= s.len(),
        forall|j: int| at <= j < s.len() ==> (#[trigger] s[j]).pk > c.pk,
    ensures
        s.insert(at, c).filter(of_rank(rank)) == s.push(c).filter(of_rank(rank)),
{
    let pred = of_rank(rank);
    let head = s.take(at);
    let tail = s.skip(at);
    assert(s.insert(at, c) =~= head.push(c) + tail);
    assert(s =~= head + tail);
    Seq::filter_distributes_over_add(head.push(c), tail, pred);
    Seq::filter_distributes_over_add(head, tail, pred);
    lemma_filter_push(head, pred, c);
    lemma_filter_push(s, pred, c);
    if c.pk == rank {
        assert forall|j: int| 0 <= j < tail.len() implies !pred(#[trigger] tail[j]) by {
            assert(tail[j] == s[at + j]);
        }
        lemma_filter_none(tail, pred);
        assert(tail.filter(pred) =~= Seq::empty());
        assert(head.filter(pred).push(c) + tail.filter(pred) =~= (head.filter(pred)
            + tail.filter(pred)).push(c));
    }
}

/// Two rank orders of the same columns are the same sequence.
pub proof fn lemma_rank_order_unique(
    a: Seq<ColumnModel>,
    b: Seq<ColumnModel>,
    cols: Seq<ColumnModel>,
)
    requires
        is_rank_order_of(a, cols),
        is_rank_order_of(b, cols),
    ensures
        a == b,
{
    assert forall|rank: int| #![trigger of_rank(rank)] a.filter(of_rank(rank)) == b.filter(
        of_rank(rank),
    ) by {}
    lemma_same_classes(a, b);
}

proof fn lemma_same_classes(a: Seq<ColumnModel>, b: Seq<ColumnModel>)
    requires
        a.len() == b.len(),
        ascending_by_rank(a),
        ascending_by_rank(b),
        forall|rank: int|
            #![trigger of_rank(rank)]
            a.filter(of_rank(rank)) == b.filter(of_rank(rank)),
    ensures
        a == b,
    decreases a.len(),
{
    reveal(Seq::filter);
    if a.len() == 0 {
        assert(a =~= b);
    } else {
        let x = a.last();
        let y = b.last();
        // the last column of each has the greatest rank found in the other
        assert(a.filter(of_rank(x.pk)).last() == x);
        assert(b.filter(of_rank(x.pk)).contains(x));
        lemma_filter_member(b, of_rank(x.pk), x);
        assert(b.filter(of_rank(y.pk)).last() == y);
        assert(a.filter(of_rank(y.pk)).contains(y));
        lemma_filter_member(a, of_rank(y.pk), y);
        assert(x.pk <= y.pk);
        assert(y.pk <= x.pk);
        assert(x == y);
        let a0 = a.drop_last();
        let b0 = b.drop_last();
        assert forall|rank: int| #![trigger of_rank(rank)] a0.filter(of_rank(rank)) == b0.filter(
            of_rank(rank),
        ) by {
            let fa = a0.filter(of_rank(rank));
            let fb = b0.filter(of_rank(rank));
            if rank == x.pk {
                assert(fa.push(x) == fb.push(y));
                assert(fa =~= fa.push(x).drop_last());
                assert(fb =~= fb.push(y).drop_last());
            }
        }
        lemma_same_classes(a0, b0);
        assert(a =~= a0.push(x));
        assert(b =~= b0.push(y));
    }
}

/// Every column of a rank order is one of the columns that were ordered.
pub proof fn lemma_rank_order_members(sorted: Seq<ColumnModel>, cols: Seq<ColumnModel>, i: int)
    requires
        is_rank_order_of(sorted, cols),
        0 <= i < sorted.len(),
    ensures
        cols.contains(sorted[i]),
{
    let pred = of_rank(sorted[i].pk);
    sorted.lemma_filter_contains(pred, i);
    assert(sorted.filter(pred) == cols.filter(pred));
    lemma_filter_member(cols, pred, sorted[i]);
}

/// A rank order holds each of the ordered columns as often as they were given.
pub proof fn lemma_rank_order_keeps_columns(sorted: Seq<ColumnModel>, cols: Seq<ColumnModel>)
    requires
        is_rank_order_of(sorted, cols),
    ensures
        sorted.to_multiset() == cols.to_multiset(),
{
    assert forall|c: ColumnModel| sorted.to_multiset().count(c) == cols.to_multiset().count(
        c,
    ) by {
        lemma_count_within_rank(sorted, c);
        lemma_count_within_rank(cols, c);
        assert(sorted.filter(of_rank(c.pk)) == cols.filter(of_rank(c.pk)));
    }
    assert(sorted.to_multiset() =~= cols.to_multiset());
}

/// A column occurs in a sequence as often as among the columns of its rank.
proof fn lemma_count_within_rank(s: Seq<ColumnModel>, c: ColumnModel)
    ensures
        s.to_multiset().count(c) == s.filter(of_rank(c.pk)).to_multiset().count(c),
    decreases s.len(),
{
    reveal(Seq::filter);
    if s.len() == 0 {
        assert(s.filter(of_rank(c.pk)) =~= s);
    } else {
        let rest = s.drop_last();
        lemma_count_within_rank(rest, c);
        assert(s =~= rest.push(s.last()));
        vstd::seq_lib::to_multiset_build(rest, s.last());
        if s.last().pk == c.pk {
            vstd::seq_lib::to_multiset_build(rest.filter(of_rank(c.pk)), s.last());
        }
    }
}

/// Where no two columns share a rank, a rank order ascends strictly.
pub proof fn lemma_distinct_ranks_ascend_strictly(sorted: Seq<ColumnModel>, cols: Seq<ColumnModel>)
    requires
        is_rank_order_of(sorted, cols),
        ranks_distinct(cols),
    ensures
        strictly_ascending_by_rank(sorted),
{
    assert forall|i: int, j: int| 0 <= i < j < sorted.len() implies sorted[i].pk
        < sorted[j].pk by {
        if sorted[i].pk == sorted[j].pk {
            let rank = sorted[i].pk;
            lemma_filter_two(sorted, of_rank(rank), i, j);
            lemma_filter_at_most_one(cols, rank);
            assert(sorted.filter(of_rank(rank)) == cols.filter(of_rank(rank)));
        }
    }
}

proof fn lemma_filter_at_most_one(cols: Seq<ColumnModel>, rank: int)
    requires
        ranks_distinct(cols),
    ensures
        cols.filter(of_rank(rank)).len() <= 1,
    decreases cols.len(),
{
    reveal(Seq::filter);
    if cols.len() > 0 {
        let rest = cols.drop_last();
        if cols.last().pk == rank {
            assert forall|i: int| 0 <= i < rest.len() implies !of_rank(rank)(#[trigger] rest[i]) by {
                assert(cols[i].pk != cols[cols.len() - 1].pk);
            }
            lemma_filter_none(rest, of_rank(rank));
        } else {
            lemma_filter_at_most_one(rest, rank);
        }
    }
}

} // verus!
