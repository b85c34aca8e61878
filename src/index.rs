//! A column index: cells in strictly ascending order, each with the key of
//! the record it came from.
use core::cmp::Ordering;
use vstd::prelude::*;
use crate::data::{cell_lt, lemma_cell_order, CellModel, Data};
use crate::key::Key;

verus! {

/// An index entry as a mathematical value: a cell and the bytes of a key.
pub type EntryModel = (CellModel, Seq<u8>);

/// The model of an index held as a vector of pairs.
pub open spec fn index_view(v: Seq<(Data, Key)>) -> Seq<EntryModel> {
    v.map_values(|p: (Data, Key)| (p.0@, p.1@))
}

/// Cells strictly ascend, so no cell occurs twice.
pub open spec fn strictly_sorted(s: Seq<EntryModel>) -> bool {
    forall|i: int, j: int| 0 <= i < j < s.len() ==> cell_lt(#[trigger] s[i].0, #[trigger] s[j].0)
}

/// The index after mapping cell `c` to key `k`: an entry for `c` is
/// replaced, otherwise the pair goes before the first greater cell.
pub open spec fn index_insert(s: Seq<EntryModel>, c: CellModel, k: Seq<u8>) -> Seq<EntryModel>
    decreases s.len(),
{
    if s.len() == 0 {
        seq![(c, k)]
    } else if s[0].0 == c {
        seq![(c, k)] + s.drop_first()
    } else if cell_lt(c, s[0].0) {
        seq![(c, k)] + s
    } else {
        seq![s[0]] + index_insert(s.drop_first(), c, k)
    }
}

/// Inserting past a prefix of smaller cells leaves that prefix alone.
proof fn lemma_insert_after(s: Seq<EntryModel>, c: CellModel, k: Seq<u8>, i: int)
    requires
        0 <= i <= s.len(),
        forall|m: int| 0 <= m < i ==> cell_lt(#[trigger] s[m].0, c),
    ensures
        index_insert(s, c, k) == s.take(i) + index_insert(s.skip(i), c, k),
    decreases i,
{
    if i == 0 {
        assert(s.take(0) + index_insert(s.skip(0), c, k) =~= index_insert(s, c, k)) by {
            assert(s.skip(0) =~= s);
        }
    } else {
        lemma_cell_order(s[0].0, c, c);
        let t = s.drop_first();
        assert forall|m: int| 0 <= m < i - 1 implies cell_lt(#[trigger] t[m].0, c) by {
            assert(t[m] == s[m + 1]);
        }
        lemma_insert_after(t, c, k, i - 1);
        assert(t.skip(i - 1) =~= s.skip(i));
        assert(s.take(i) =~= seq![s[0]] + t.take(i - 1));
        assert(index_insert(s, c, k) =~= s.take(i) + index_insert(s.skip(i), c, k));
    }
}

/// Every cell of the result lies above any bound that `c` and all cells of
/// `s` lie above.
proof fn lemma_insert_bounded(s: Seq<EntryModel>, c: CellModel, k: Seq<u8>, b: CellModel)
    requires
        cell_lt(b, c),
        forall|i: int| 0 <= i < s.len() ==> cell_lt(b, #[trigger] s[i].0),
    ensures
        forall|i: int|
            0 <= i < index_insert(s, c, k).len() ==> cell_lt(b, #[trigger] index_insert(s, c, k)[i].0),
    decreases s.len(),
{
    let r = index_insert(s, c, k);
    if s.len() > 0 && s[0].0 != c && !cell_lt(c, s[0].0) {
        let t = s.drop_first();
        assert forall|i: int| 0 <= i < t.len() implies cell_lt(b, #[trigger] t[i].0) by {
            assert(t[i] == s[i + 1]);
        }
        lemma_insert_bounded(t, c, k, b);
        assert forall|i: int| 0 <= i < r.len() implies cell_lt(b, #[trigger] r[i].0) by {
            if i > 0 {
                assert(r[i] == index_insert(t, c, k)[i - 1]);
            }
        }
    } else if s.len() > 0 && s[0].0 == c {
        assert forall|i: int| 0 <= i < r.len() implies cell_lt(b, #[trigger] r[i].0) by {
            if i > 0 {
                assert(r[i] == s[i]);
            }
        }
    } else if s.len() > 0 {
        assert forall|i: int| 0 <= i < r.len() implies cell_lt(b, #[trigger] r[i].0) by {
            if i > 0 {
                assert(r[i] == s[i - 1]);
            }
        }
    }
}

/// Insertion keeps an index strictly sorted.
pub proof fn lemma_insert_sorted(s: Seq<EntryModel>, c: CellModel, k: Seq<u8>)
    requires
        strictly_sorted(s),
    ensures
        strictly_sorted(index_insert(s, c, k)),
    decreases s.len(),
{
    let r = index_insert(s, c, k);
    if s.len() == 0 {
    } else if s[0].0 == c {
        assert forall|i: int, j: int| 0 <= i < j < r.len() implies cell_lt(
            #[trigger] r[i].0,
            #[trigger] r[j].0,
        ) by {
            assert(r[j] == s[j]);
            if i > 0 {
                assert(r[i] == s[i]);
            }
        }
    } else if cell_lt(c, s[0].0) {
        assert forall|i: int, j: int| 0 <= i < j < r.len() implies cell_lt(
            #[trigger] r[i].0,
            #[trigger] r[j].0,
        ) by {
            assert(r[j] == s[j - 1]);
            if i > 0 {
                assert(r[i] == s[i - 1]);
            } else if j > 1 {
                assert(cell_lt(s[0].0, s[j - 1].0));
                lemma_cell_order(c, s[0].0, s[j - 1].0);
            }
        }
    } else {
        let t = s.drop_first();
        lemma_cell_order(s[0].0, c, c);
        assert forall|i: int, j: int| 0 <= i < j < t.len() implies cell_lt(
            #[trigger] t[i].0,
            #[trigger] t[j].0,
        ) by {
            assert(t[i] == s[i + 1]);
            assert(t[j] == s[j + 1]);
        }
        assert forall|i: int| 0 <= i < t.len() implies cell_lt(s[0].0, #[trigger] t[i].0) by {
            assert(t[i] == s[i + 1]);
        }
        lemma_insert_sorted(t, c, k);
        lemma_insert_bounded(t, c, k, s[0].0);
        let rt = index_insert(t, c, k);
        assert forall|i: int, j: int| 0 <= i < j < r.len() implies cell_lt(
            #[trigger] r[i].0,
            #[trigger] r[j].0,
        ) by {
            assert(r[j] == rt[j - 1]);
            if i > 0 {
                assert(r[i] == rt[i - 1]);
            }
        }
    }
}

/// Maps `cell` to `key` in a strictly sorted index, replacing the entry
/// that `cell` had.
pub fn index_put(idx: &mut Vec<(Data, Key)>, cell: Data, key: Key)
    requires
        strictly_sorted(index_view(old(idx)@)),
    ensures
        index_view(final(idx)@) == index_insert(index_view(old(idx)@), cell@, key@),
        strictly_sorted(index_view(final(idx)@)),
{
    let ghost s = index_view(idx@);
    let ghost c = cell@;
    let ghost k = key@;
    proof {
        lemma_insert_sorted(s, c, k);
    }
    let mut i: usize = 0;
    while i < idx.len()
        invariant
            i <= idx@.len(),
            idx@ == old(idx)@,
            s == index_view(idx@),
            c == cell@,
            k == key@,
            strictly_sorted(index_insert(s, c, k)),
            forall|m: int| 0 <= m < i ==> cell_lt(#[trigger] s[m].0, c),
        decreases idx@.len() - i,
    {
        let ord = idx[i].0.compare(&cell);
        match ord {
            Ordering::Less => {
                i = i + 1;
            },
            Ordering::Equal => {
                proof {
                    lemma_insert_after(s, c, k, i as int);
                    assert(s.skip(i as int)[0] == s[i as int]);
                    assert(s.skip(i as int).drop_first() =~= s.skip(i as int + 1));
                }
                idx.set(i, (cell, key));
                proof {
                    assert(index_view(idx@) =~= index_insert(s, c, k));
                }
                return;
            },
            Ordering::Greater => {
                proof {
                    lemma_insert_after(s, c, k, i as int);
                    assert(s.skip(i as int)[0] == s[i as int]);
                    lemma_cell_order(s[i as int].0, c, c);
                }
                idx.insert(i, (cell, key));
                proof {
                    assert(index_view(idx@) =~= index_insert(s, c, k));
                }
                return;
            },
        }
    }
    proof {
        lemma_insert_after(s, c, k, i as int);
        assert(s.skip(i as int).len() == 0);
    }
    idx.push((cell, key));
    proof {
        assert(index_view(idx@) =~= index_insert(s, c, k));
    }
}

} // verus!

verus! {

/// Mapping a cell to a key a second time changes nothing.
pub proof fn lemma_insert_idempotent(s: Seq<EntryModel>, c: CellModel, k: Seq<u8>)
    ensures
        index_insert(index_insert(s, c, k), c, k) == index_insert(s, c, k),
    decreases s.len(),
{
    let r = index_insert(s, c, k);
    if s.len() == 0 {
        assert(r.drop_first() =~= Seq::<EntryModel>::empty());
        assert(index_insert(r, c, k) =~= r);
    } else if s[0].0 == c {
        assert(r.drop_first() =~= s.drop_first());
        assert(index_insert(r, c, k) =~= r);
    } else if cell_lt(c, s[0].0) {
        assert(r.drop_first() =~= s);
        assert(index_insert(r, c, k) =~= r);
    } else {
        let t = s.drop_first();
        lemma_insert_idempotent(t, c, k);
        assert(r.drop_first() =~= index_insert(t, c, k));
        assert(index_insert(r, c, k) =~= r);
    }
}

/// After the insertion, every entry for `c` maps to `k`, and one exists.
proof fn lemma_insert_keyed(s: Seq<EntryModel>, c: CellModel, k: Seq<u8>)
    requires
        strictly_sorted(s),
    ensures
        index_insert(s, c, k).contains((c, k)),
        forall|i: int|
            0 <= i < index_insert(s, c, k).len() && (#[trigger] index_insert(s, c, k)[i]).0 == c
                ==> index_insert(s, c, k)[i].1 == k,
    decreases s.len(),
{
    let r = index_insert(s, c, k);
    assert(r[0] == (c, k) ==> r.contains((c, k)));
    if s.len() == 0 {
    } else if s[0].0 == c {
        assert forall|i: int| 0 <= i < r.len() && (#[trigger] r[i]).0 == c implies r[i].1 == k by {
            if i > 0 {
                assert(r[i] == s[i]);
                lemma_cell_order(c, c, c);
            }
        }
    } else if cell_lt(c, s[0].0) {
        assert forall|i: int| 0 <= i < r.len() && (#[trigger] r[i]).0 == c implies r[i].1 == k by {
            if i > 0 {
                assert(r[i] == s[i - 1]);
                if i > 1 {
                    assert(cell_lt(s[0].0, s[i - 1].0));
                }
                lemma_cell_order(c, s[0].0, c);
            }
        }
    } else {
        let t = s.drop_first();
        assert forall|i: int, j: int| 0 <= i < j < t.len() implies cell_lt(
            #[trigger] t[i].0,
            #[trigger] t[j].0,
        ) by {
            assert(t[i] == s[i + 1]);
            assert(t[j] == s[j + 1]);
        }
        lemma_insert_keyed(t, c, k);
        let rt = index_insert(t, c, k);
        let w = choose|w: int| 0 <= w < rt.len() && rt[w] == (c, k);
        assert(r[w + 1] == (c, k));
        assert forall|i: int| 0 <= i < r.len() && (#[trigger] r[i]).0 == c implies r[i].1 == k by {
            if i > 0 {
                assert(r[i] == rt[i - 1]);
            }
        }
    }
}

/// When two records carry equal cells, the index ends with exactly one
/// entry for that cell, and it holds the key of the later record.
pub proof fn lemma_collision_keeps_later(
    s: Seq<EntryModel>,
    c: CellModel,
    k1: Seq<u8>,
    k2: Seq<u8>,
)
    requires
        strictly_sorted(s),
    ensures
        index_insert(index_insert(s, c, k1), c, k2).contains((c, k2)),
        forall|i: int, j: int|
            0 <= i < index_insert(index_insert(s, c, k1), c, k2).len() && 0 <= j
                < index_insert(index_insert(s, c, k1), c, k2).len() && (#[trigger] index_insert(
                index_insert(s, c, k1),
                c,
                k2,
            )[i]).0 == c && (#[trigger] index_insert(index_insert(s, c, k1), c, k2)[j]).0 == c
                ==> i == j,
{
    let s1 = index_insert(s, c, k1);
    lemma_insert_sorted(s, c, k1);
    lemma_insert_sorted(s1, c, k2);
    lemma_insert_keyed(s1, c, k2);
    let r = index_insert(s1, c, k2);
    assert forall|i: int, j: int|
        0 <= i < r.len() && 0 <= j < r.len() && (#[trigger] r[i]).0 == c && (#[trigger] r[j]).0
            == c implies i == j by {
        lemma_cell_order(c, c, c);
        if i < j {
            assert(cell_lt(r[i].0, r[j].0));
        } else if j < i {
            assert(cell_lt(r[j].0, r[i].0));
        }
    }
}

/// No entry of the result has cell `x` when neither `c` nor `s` has it.
proof fn lemma_insert_avoids(s: Seq<EntryModel>, c: CellModel, k: Seq<u8>, x: CellModel)
    requires
        c != x,
        forall|i: int| 0 <= i < s.len() ==> (#[trigger] s[i]).0 != x,
    ensures
        forall|i: int|
            0 <= i < index_insert(s, c, k).len() ==> (#[trigger] index_insert(s, c, k)[i]).0 != x,
    decreases s.len(),
{
    let r = index_insert(s, c, k);
    if s.len() > 0 && s[0].0 != c && !cell_lt(c, s[0].0) {
        let t = s.drop_first();
        assert forall|i: int| 0 <= i < t.len() implies (#[trigger] t[i]).0 != x by {
            assert(t[i] == s[i + 1]);
        }
        lemma_insert_avoids(t, c, k, x);
        assert forall|i: int| 0 <= i < r.len() implies (#[trigger] r[i]).0 != x by {
            if i > 0 {
                assert(r[i] == index_insert(t, c, k)[i - 1]);
            }
        }
    } else if s.len() > 0 && s[0].0 == c {
        assert forall|i: int| 0 <= i < r.len() implies (#[trigger] r[i]).0 != x by {
            if i > 0 {
                assert(r[i] == s[i]);
            }
        }
    } else if s.len() > 0 {
        assert forall|i: int| 0 <= i < r.len() implies (#[trigger] r[i]).0 != x by {
            if i > 0 {
                assert(r[i] == s[i - 1]);
            }
        }
    }
}

/// A cell that the index lacks adds one entry.
proof fn lemma_insert_new_len(s: Seq<EntryModel>, c: CellModel, k: Seq<u8>)
    requires
        forall|i: int| 0 <= i < s.len() ==> (#[trigger] s[i]).0 != c,
    ensures
        index_insert(s, c, k).len() == s.len() + 1,
    decreases s.len(),
{
    if s.len() > 0 && !cell_lt(c, s[0].0) {
        let t = s.drop_first();
        assert forall|i: int| 0 <= i < t.len() implies (#[trigger] t[i]).0 != c by {
            assert(t[i] == s[i + 1]);
        }
        lemma_insert_new_len(t, c, k);
    }
}

/// The index reached by mapping `cs[i]` to `ks[i]` for each `i` in turn.
pub open spec fn index_insert_all(s: Seq<EntryModel>, cs: Seq<CellModel>, ks: Seq<Seq<u8>>) -> Seq<
    EntryModel,
>
    decreases cs.len(),
{
    if cs.len() == 0 || ks.len() < cs.len() {
        s
    } else {
        index_insert(
            index_insert_all(s, cs.drop_last(), ks.take(cs.len() - 1)),
            cs.last(),
            ks[cs.len() - 1],
        )
    }
}

/// Mapping the first `i + 1` pairs is mapping the first `i`, then pair `i`:
/// the step that follows one more successful record.
pub proof fn lemma_insert_all_step(cs: Seq<CellModel>, ks: Seq<Seq<u8>>, i: int)
    requires
        ks.len() == cs.len(),
        0 <= i < cs.len(),
    ensures
        index_insert_all(seq![], cs.take(i + 1), ks.take(i + 1)) == index_insert(
            index_insert_all(seq![], cs.take(i), ks.take(i)),
            cs[i],
            ks[i],
        ),
{
    assert(cs.take(i + 1).drop_last() =~= cs.take(i));
    assert(ks.take(i + 1).take(i) =~= ks.take(i));
}

proof fn lemma_insert_all_avoids(cs: Seq<CellModel>, ks: Seq<Seq<u8>>, x: CellModel)
    requires
        ks.len() == cs.len(),
        forall|m: int| 0 <= m < cs.len() ==> cs[m] != x,
    ensures
        forall|i: int|
            0 <= i < index_insert_all(seq![], cs, ks).len() ==> (#[trigger] index_insert_all(
                seq![],
                cs,
                ks,
            )[i]).0 != x,
    decreases cs.len(),
{
    if cs.len() > 0 {
        let p = cs.drop_last();
        let kp = ks.take(cs.len() - 1);
        assert forall|m: int| 0 <= m < p.len() implies p[m] != x by {
            assert(p[m] == cs[m]);
        }
        lemma_insert_all_avoids(p, kp, x);
        lemma_insert_avoids(index_insert_all(seq![], p, kp), cs.last(), ks[cs.len() - 1], x);
    }
}

/// Starting from an empty index, mapping N pairwise-distinct cells gives
/// exactly N entries.
pub proof fn lemma_distinct_cells_count(cs: Seq<CellModel>, ks: Seq<Seq<u8>>)
    requires
        ks.len() == cs.len(),
        forall|i: int, j: int| 0 <= i < j < cs.len() ==> cs[i] != cs[j],
    ensures
        index_insert_all(seq![], cs, ks).len() == cs.len(),
    decreases cs.len(),
{
    if cs.len() > 0 {
        let p = cs.drop_last();
        let kp = ks.take(cs.len() - 1);
        assert forall|i: int, j: int| 0 <= i < j < p.len() implies p[i] != p[j] by {
            assert(p[i] == cs[i]);
            assert(p[j] == cs[j]);
        }
        lemma_distinct_cells_count(p, kp);
        assert forall|m: int| 0 <= m < p.len() implies p[m] != cs.last() by {
            assert(p[m] == cs[m]);
        }
        lemma_insert_all_avoids(p, kp, cs.last());
        lemma_insert_new_len(index_insert_all(seq![], p, kp), cs.last(), ks[cs.len() - 1]);
    }
}

} // verus!
