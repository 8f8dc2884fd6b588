//! General laws of the splice algorithm: reordering moves exactly one
//! identifier, so the identifiers over all columns — as a multiset — never
//! change, uniqueness is preserved, a hover that points at the dragged
//! panel's own place changes nothing, and committing twice with an unchanged
//! hover equals committing once.

use vstd::prelude::*;
use vstd::multiset::Multiset;

use crate::hover::HoverInfoView;
use crate::splice::{
    adjusted_insert_index, find_pos, insert_index_before_removal, lemma_find_pos_ensures,
    lemma_find_pos_skip, splice_spec,
};

verus! {

broadcast use {vstd::seq_lib::group_to_multiset_ensures, vstd::multiset::group_multiset_axioms};

/// All panel identifiers over all columns, as a multiset.
pub open spec fn columns_multiset(cols: Seq<Seq<Seq<char>>>) -> Multiset<Seq<char>>
    decreases cols.len(),
{
    if cols.len() == 0 {
        Multiset::empty()
    } else {
        cols[0].to_multiset().add(columns_multiset(cols.skip(1)))
    }
}

/// Total item count over all columns.
pub open spec fn total_len(cols: Seq<Seq<Seq<char>>>) -> nat
    decreases cols.len(),
{
    if cols.len() == 0 {
        0
    } else {
        cols[0].len() + total_len(cols.skip(1))
    }
}

/// Every identifier appears in exactly one column's sequence, exactly once:
/// no identifier occurs twice anywhere over all columns.
pub open spec fn unique_ids(cols: Seq<Seq<Seq<char>>>) -> bool {
    forall|id: Seq<char>| #[trigger] columns_multiset(cols).count(id) <= 1
}

/// Replacing one column replaces exactly its contribution to the identifier
/// multiset and to the total count.
pub proof fn lemma_columns_update(cols: Seq<Seq<Seq<char>>>, k: int, c: Seq<Seq<char>>)
    requires
        0 <= k < cols.len(),
    ensures
        forall|x: Seq<char>|
            #[trigger] columns_multiset(cols.update(k, c)).count(x) + cols[k].to_multiset().count(
                x,
            ) == columns_multiset(cols).count(x) + c.to_multiset().count(x),
        total_len(cols.update(k, c)) + cols[k].len() == total_len(cols) + c.len(),
    decreases k,
{
    if k == 0 {
        assert(cols.update(0, c).skip(1) =~= cols.skip(1));
        assert(cols.update(0, c)[0] == c);
    } else {
        lemma_columns_update(cols.skip(1), k - 1, c);
        assert(cols.update(k, c).skip(1) =~= cols.skip(1).update(k - 1, c));
        assert(cols.update(k, c)[0] == cols[0]);
        assert(cols.skip(1)[k - 1] == cols[k]);
        assert forall|x: Seq<char>|
            #[trigger] columns_multiset(cols.update(k, c)).count(x) + cols[k].to_multiset().count(
                x,
            ) == columns_multiset(cols).count(x) + c.to_multiset().count(x) by {
            assert(columns_multiset(cols.skip(1).update(k - 1, c)).count(x) + cols.skip(1)[k
                - 1].to_multiset().count(x) == columns_multiset(cols.skip(1)).count(x)
                + c.to_multiset().count(x));
        }
    }
}

/// One column's count of an identifier never exceeds the total count.
pub proof fn lemma_column_count_le(cols: Seq<Seq<Seq<char>>>, k: int, x: Seq<char>)
    requires
        0 <= k < cols.len(),
    ensures
        columns_multiset(cols).count(x) >= cols[k].to_multiset().count(x),
    decreases k,
{
    if k > 0 {
        lemma_column_count_le(cols.skip(1), k - 1, x);
    }
}

/// Two distinct columns' counts of an identifier sum to at most the total.
proof fn lemma_two_column_count(cols: Seq<Seq<Seq<char>>>, k1: int, k2: int, x: Seq<char>)
    requires
        0 <= k1 < k2 < cols.len(),
    ensures
        columns_multiset(cols).count(x) >= cols[k1].to_multiset().count(x)
            + cols[k2].to_multiset().count(x),
    decreases k1,
{
    if k1 == 0 {
        lemma_column_count_le(cols.skip(1), k2 - 1, x);
    } else {
        lemma_two_column_count(cols.skip(1), k1 - 1, k2 - 1, x);
    }
}

/// Bounds of the insertion index the splice uses, when the dragged panel was
/// found: the unadjusted index never exceeds the target's length, and the
/// adjusted one fits the target after removal.
proof fn lemma_insert_index_bounds(cols: Seq<Seq<Seq<char>>>, dragged: Seq<char>, hover: HoverInfoView)
    requires
        0 <= hover.column_index < cols.len(),
        find_pos(cols, dragged) is Some,
    ensures
        ({
            let p = find_pos(cols, dragged)->Some_0;
            let tc = hover.column_index;
            let base = insert_index_before_removal(cols[tc], hover.panel);
            let ins = adjusted_insert_index(p.1, base, p.0 == tc);
            &&& 0 <= p.0 < cols.len()
            &&& 0 <= p.1 < cols[p.0].len()
            &&& cols[p.0][p.1] == dragged
            &&& 0 <= base <= cols[tc].len()
            &&& (p.0 == tc ==> 0 <= ins < cols[tc].len())
            &&& (p.0 != tc ==> 0 <= ins <= cols[tc].len())
        }),
{
    lemma_find_pos_ensures(cols, dragged);
    let tc = hover.column_index;
    match hover.panel {
        Some(hp) => {
            cols[tc].index_of_first_ensures(hp.id);
        },
        None => {},
    }
}

/// Splicing never creates or destroys identifiers: the multiset of all
/// identifiers, and with it the total item count, is unchanged.
pub proof fn lemma_splice_preserves_ids(
    cols: Seq<Seq<Seq<char>>>,
    dragged: Seq<char>,
    hover: HoverInfoView,
)
    requires
        0 <= hover.column_index < cols.len(),
    ensures
        columns_multiset(splice_spec(cols, dragged, hover)) == columns_multiset(cols),
        total_len(splice_spec(cols, dragged, hover)) == total_len(cols),
        splice_spec(cols, dragged, hover).len() == cols.len(),
{
    lemma_find_pos_ensures(cols, dragged);
    match find_pos(cols, dragged) {
        None => {},
        Some(p) => {
            lemma_insert_index_bounds(cols, dragged, hover);
            let sc = p.0;
            let si = p.1;
            let tc = hover.column_index;
            let base = insert_index_before_removal(cols[tc], hover.panel);
            let ins = adjusted_insert_index(si, base, sc == tc);
            let removed = cols[sc].remove(si);
            assert(removed.to_multiset() == cols[sc].to_multiset().remove(dragged));
            if sc == tc {
                let inserted = removed.insert(ins, dragged);
                assert(inserted.to_multiset() == removed.to_multiset().insert(dragged));
                lemma_columns_update(cols, sc, inserted);
                assert(cols[sc].to_multiset().count(dragged) > 0) by {
                    assert(cols[sc].contains(dragged));
                }
                assert(columns_multiset(splice_spec(cols, dragged, hover)) =~= columns_multiset(
                    cols,
                ));
            } else {
                let mid = cols.update(sc, removed);
                let inserted = cols[tc].insert(ins, dragged);
                assert(inserted.to_multiset() == cols[tc].to_multiset().insert(dragged));
                lemma_columns_update(cols, sc, removed);
                assert(mid[tc] == cols[tc]);
                lemma_columns_update(mid, tc, inserted);
                assert(cols[sc].to_multiset().count(dragged) > 0) by {
                    assert(cols[sc].contains(dragged));
                }
                assert(columns_multiset(splice_spec(cols, dragged, hover)) =~= columns_multiset(
                    cols,
                ));
            }
        },
    }
}

/// Uniqueness invariant: if every identifier appears at most once over all
/// columns, the same holds after any splice.
pub proof fn lemma_splice_preserves_uniqueness(
    cols: Seq<Seq<Seq<char>>>,
    dragged: Seq<char>,
    hover: HoverInfoView,
)
    requires
        unique_ids(cols),
        0 <= hover.column_index < cols.len(),
    ensures
        unique_ids(splice_spec(cols, dragged, hover)),
{
    lemma_splice_preserves_ids(cols, dragged, hover);
}

/// Length conservation: the total item count over all columns is invariant
/// under a splice; reordering never creates or destroys items.
pub proof fn lemma_splice_preserves_total_len(
    cols: Seq<Seq<Seq<char>>>,
    dragged: Seq<char>,
    hover: HoverInfoView,
)
    requires
        0 <= hover.column_index < cols.len(),
    ensures
        total_len(splice_spec(cols, dragged, hover)) == total_len(cols),
{
    lemma_splice_preserves_ids(cols, dragged, hover);
}

/// Appending a column adds exactly its identifiers to the multiset.
pub proof fn lemma_columns_multiset_push(cols: Seq<Seq<Seq<char>>>, c: Seq<Seq<char>>)
    ensures
        forall|x: Seq<char>|
            #[trigger] columns_multiset(cols.push(c)).count(x) == columns_multiset(cols).count(x)
                + c.to_multiset().count(x),
    decreases cols.len(),
{
    if cols.len() == 0 {
        assert(cols.push(c)[0] == c);
        assert(cols.push(c).skip(1) =~= Seq::<Seq<Seq<char>>>::empty());
        assert(columns_multiset(Seq::<Seq<Seq<char>>>::empty()) == Multiset::<Seq<char>>::empty());
    } else {
        lemma_columns_multiset_push(cols.skip(1), c);
        assert(cols.push(c)[0] == cols[0]);
        assert(cols.push(c).skip(1) =~= cols.skip(1).push(c));
        assert forall|x: Seq<char>|
            #[trigger] columns_multiset(cols.push(c)).count(x) == columns_multiset(cols).count(x)
                + c.to_multiset().count(x) by {
            assert(columns_multiset(cols.skip(1).push(c)).count(x) == columns_multiset(
                cols.skip(1),
            ).count(x) + c.to_multiset().count(x));
        }
    }
}

/// An identifier in no column has total count zero.
pub proof fn lemma_find_pos_none_count(cols: Seq<Seq<Seq<char>>>, id: Seq<char>)
    requires
        find_pos(cols, id) is None,
    ensures
        columns_multiset(cols).count(id) == 0,
    decreases cols.len(),
{
    lemma_find_pos_ensures(cols, id);
    if cols.len() > 0 {
        assert(cols[0].index_of_first(id) is None);
        cols[0].index_of_first_ensures(id);
        assert(cols[0].to_multiset().count(id) == 0) by {
            if cols[0].to_multiset().count(id) > 0 {
                assert(cols[0].contains(id));
            }
        }
        assert(find_pos(cols.skip(1), id) is None);
        lemma_find_pos_none_count(cols.skip(1), id);
    }
}

/// Same-column no-op: committing with the hover pointing at the dragged
/// panel itself leaves every column unchanged.
pub proof fn lemma_hover_self_noop(cols: Seq<Seq<Seq<char>>>, dragged: Seq<char>, hover: HoverInfoView)
    requires
        0 <= hover.column_index < cols.len(),
        find_pos(cols, dragged) is Some,
        find_pos(cols, dragged)->Some_0.0 == hover.column_index,
        hover.panel is Some,
        hover.panel->Some_0.id == dragged,
    ensures
        splice_spec(cols, dragged, hover) == cols,
{
    lemma_find_pos_ensures(cols, dragged);
    let p = find_pos(cols, dragged)->Some_0;
    let sc = p.0;
    let si = p.1;
    let base = insert_index_before_removal(cols[sc], hover.panel);
    assert(base == si || base == si + 1);
    let ins = adjusted_insert_index(si, base, true);
    assert(ins == si);
    cols[sc].remove_ensures(si);
    cols[sc].remove(si).insert_ensures(si, dragged);
    assert(cols[sc].remove(si).insert(si, dragged) =~= cols[sc]);
    assert(splice_spec(cols, dragged, hover) =~= cols);
}

/// Same-column no-op: committing with no hovered panel, when the dragged
/// panel is already last in the hovered column, leaves every column
/// unchanged.
pub proof fn lemma_hover_empty_last_noop(
    cols: Seq<Seq<Seq<char>>>,
    dragged: Seq<char>,
    hover: HoverInfoView,
)
    requires
        0 <= hover.column_index < cols.len(),
        hover.panel is None,
        find_pos(cols, dragged) is Some,
        find_pos(cols, dragged)->Some_0.0 == hover.column_index,
        find_pos(cols, dragged)->Some_0.1 == cols[hover.column_index].len() - 1,
    ensures
        splice_spec(cols, dragged, hover) == cols,
{
    lemma_find_pos_ensures(cols, dragged);
    let p = find_pos(cols, dragged)->Some_0;
    let sc = p.0;
    let si = p.1;
    let base = insert_index_before_removal(cols[sc], hover.panel);
    assert(base == cols[sc].len());
    let ins = adjusted_insert_index(si, base, true);
    assert(ins == si);
    cols[sc].remove_ensures(si);
    cols[sc].remove(si).insert_ensures(si, dragged);
    assert(cols[sc].remove(si).insert(si, dragged) =~= cols[sc]);
    assert(splice_spec(cols, dragged, hover) =~= cols);
}

/// Two occurrences of a value put its multiset count at two or more.
proof fn lemma_count_two_occurrences<A>(s: Seq<A>, i: int, j: int, x: A)
    requires
        0 <= i < j < s.len(),
        s[i] == x,
        s[j] == x,
    ensures
        s.to_multiset().count(x) >= 2,
{
    let r = s.remove(j);
    assert(r.to_multiset() == s.to_multiset().remove(x));
    s.remove_ensures(j);
    assert(r[i] == x);
    assert(r.contains(x)) by {
        assert(0 <= i < r.len() && r[i] == x);
    }
    assert(r.to_multiset().count(x) > 0);
}

/// In a column where a value occurs at most once, its first index is the
/// index of any occurrence.
proof fn lemma_index_of_first_unique<A>(s: Seq<A>, i: int, x: A)
    requires
        0 <= i < s.len(),
        s[i] == x,
        s.to_multiset().count(x) <= 1,
    ensures
        s.index_of_first(x) == Some(i),
{
    s.index_of_first_ensures(x);
    assert(s.contains(x)) by {
        assert(0 <= i < s.len() && s[i] == x);
    }
    let j = s.index_of_first(x)->Some_0;
    if j < i {
        lemma_count_two_occurrences(s, j, i, x);
        assert(false);
    } else if j > i {
        lemma_count_two_occurrences(s, i, j, x);
        assert(false);
    }
}

/// Inserting some other value shifts the first index of `x` past the
/// insertion point, and nowhere else.
proof fn lemma_index_of_first_insert_other<A>(s: Seq<A>, i: int, a: A, x: A)
    requires
        0 <= i <= s.len(),
        a != x,
    ensures
        s.insert(i, a).index_of_first(x) == match s.index_of_first(x) {
            Some(h) => Some(
                if h < i {
                    h
                } else {
                    h + 1
                },
            ),
            None => None::<int>,
        },
{
    let t = s.insert(i, a);
    s.index_of_first_ensures(x);
    t.index_of_first_ensures(x);
    s.insert_ensures(i, a);
    match s.index_of_first(x) {
        Some(h) => {
            let h2: int = if h < i {
                h
            } else {
                h + 1
            };
            assert(t[h2] == x);
            assert forall|j: int| 0 <= j < h2 implies t[j] != x by {
                if j < i {
                    assert(t[j] == s[j]);
                } else if j > i {
                    assert(t[j] == s[j - 1]);
                }
            }
            assert(t.contains(x)) by {
                assert(0 <= h2 < t.len() && t[h2] == x);
            }
            let k = t.index_of_first(x)->Some_0;
            assert(k == h2);
        },
        None => {
            assert forall|j: int| 0 <= j < t.len() implies t[j] != x by {
                if j < i {
                    assert(t[j] == s[j]);
                    if s[j] == x {
                        assert(s.contains(x));
                    }
                } else if j > i {
                    assert(t[j] == s[j - 1]);
                    if s[j - 1] == x {
                        assert(s.contains(x));
                    }
                }
            }
            if t.contains(x) {
                let w = choose|j: int| 0 <= j < t.len() && t[j] == x;
                assert(false);
            }
        },
    }
}

/// Removing some other value shifts the first index of `x` back across the
/// removal point, and nowhere else.
proof fn lemma_index_of_first_remove_other<A>(s: Seq<A>, i: int, x: A)
    requires
        0 <= i < s.len(),
        s[i] != x,
    ensures
        s.remove(i).index_of_first(x) == match s.index_of_first(x) {
            Some(h) => Some(
                if h < i {
                    h
                } else {
                    h - 1
                },
            ),
            None => None::<int>,
        },
{
    let t = s.remove(i);
    s.index_of_first_ensures(x);
    t.index_of_first_ensures(x);
    s.remove_ensures(i);
    match s.index_of_first(x) {
        Some(h) => {
            assert(h != i);
            let h2: int = if h < i {
                h
            } else {
                h - 1
            };
            assert(t[h2] == x);
            assert forall|j: int| 0 <= j < h2 implies t[j] != x by {
                if j < i {
                    assert(t[j] == s[j]);
                } else {
                    assert(t[j] == s[j + 1]);
                    assert(j + 1 < h);
                }
            }
            assert(t.contains(x)) by {
                assert(0 <= h2 < t.len() && t[h2] == x);
            }
            let k = t.index_of_first(x)->Some_0;
            assert(k == h2);
        },
        None => {
            assert forall|j: int| 0 <= j < t.len() implies t[j] != x by {
                if j < i {
                    assert(t[j] == s[j]);
                    if s[j] == x {
                        assert(s.contains(x));
                    }
                } else {
                    assert(t[j] == s[j + 1]);
                    if s[j + 1] == x {
                        assert(s.contains(x));
                    }
                }
            }
            if t.contains(x) {
                let w = choose|j: int| 0 <= j < t.len() && t[j] == x;
                assert(false);
            }
        },
    }
}

/// Removing right where a value was just inserted restores the sequence.
proof fn lemma_insert_then_remove<A>(s: Seq<A>, i: int, a: A)
    requires
        0 <= i <= s.len(),
    ensures
        s.insert(i, a).remove(i) == s,
{
    s.insert_ensures(i, a);
    s.insert(i, a).remove_ensures(i);
    assert(s.insert(i, a).remove(i) =~= s);
}

/// When an identifier occurs at most once over all columns, `find_pos`
/// returns the position of any occurrence.
proof fn lemma_find_pos_of_unique(cols: Seq<Seq<Seq<char>>>, id: Seq<char>, c: int, i: int)
    requires
        0 <= c < cols.len(),
        0 <= i < cols[c].len(),
        cols[c][i] == id,
        columns_multiset(cols).count(id) <= 1,
    ensures
        find_pos(cols, id) == Some((c, i)),
{
    lemma_column_count_le(cols, c, id);
    assert(cols[c].contains(id)) by {
        assert(0 <= i < cols[c].len() && cols[c][i] == id);
    }
    assert(cols[c].to_multiset().count(id) > 0);
    lemma_index_of_first_unique(cols[c], i, id);
    assert forall|k: int| 0 <= k < c implies (#[trigger] cols[k]).index_of_first(id) is None by {
        lemma_two_column_count(cols, k, c, id);
        assert(cols[k].to_multiset().count(id) == 0);
        cols[k].index_of_first_ensures(id);
        if cols[k].index_of_first(id) is Some {
            assert(cols[k].contains(id));
            assert(cols[k].to_multiset().count(id) > 0);
            assert(false);
        }
    }
    lemma_find_pos_skip(cols, id, c);
    assert(cols.skip(c)[0] == cols[c]);
    assert(find_pos(cols.skip(c), id) == Some((0int, i)));
}

/// Idempotent commit: with unique identifiers, committing twice against the
/// same unchanged hover target gives the same columns as committing once.
pub proof fn lemma_splice_idempotent(
    cols: Seq<Seq<Seq<char>>>,
    dragged: Seq<char>,
    hover: HoverInfoView,
)
    requires
        unique_ids(cols),
        0 <= hover.column_index < cols.len(),
    ensures
        splice_spec(splice_spec(cols, dragged, hover), dragged, hover) == splice_spec(
            cols,
            dragged,
            hover,
        ),
{
    let r1 = splice_spec(cols, dragged, hover);
    lemma_find_pos_ensures(cols, dragged);
    match find_pos(cols, dragged) {
        None => {},
        Some(p) => {
            lemma_insert_index_bounds(cols, dragged, hover);
            lemma_splice_preserves_ids(cols, dragged, hover);
            let sc = p.0;
            let si = p.1;
            let tc = hover.column_index;
            let base = insert_index_before_removal(cols[tc], hover.panel);
            let ins = adjusted_insert_index(si, base, sc == tc);
            let t0: Seq<Seq<char>> = if sc == tc {
                cols[sc].remove(si)
            } else {
                cols[tc]
            };
            let r1tc = t0.insert(ins, dragged);
            assert(r1[tc] == r1tc);
            t0.insert_ensures(ins, dragged);
            assert(r1tc[ins] == dragged);
            assert(columns_multiset(r1).count(dragged) <= 1);
            lemma_find_pos_of_unique(r1, dragged, tc, ins);
            let base2 = insert_index_before_removal(r1[tc], hover.panel);
            let ins2 = adjusted_insert_index(ins, base2, true);
            match hover.panel {
                None => {
                    assert(ins2 == ins);
                },
                Some(hp) => {
                    if hp.id == dragged {
                        lemma_column_count_le(r1, tc, dragged);
                        lemma_index_of_first_unique(r1tc, ins, dragged);
                        assert(base2 == ins || base2 == ins + 1);
                        assert(ins2 == ins);
                    } else {
                        lemma_index_of_first_insert_other(t0, ins, dragged, hp.id);
                        cols[tc].index_of_first_ensures(hp.id);
                        t0.index_of_first_ensures(hp.id);
                        if sc == tc {
                            lemma_index_of_first_remove_other(cols[sc], si, hp.id);
                        }
                        assert(ins2 == ins);
                    }
                },
            }
            lemma_insert_then_remove(t0, ins, dragged);
            assert(r1[tc].remove(ins).insert(ins2, dragged) == r1tc);
            assert(splice_spec(r1, dragged, hover) == r1.update(tc, r1tc));
            assert(r1.update(tc, r1tc) =~= r1);
        },
    }
}

} // verus!
