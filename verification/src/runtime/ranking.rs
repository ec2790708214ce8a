use vstd::prelude::*;

use vstd::multiset::Multiset;

use crate::text::{lemma_seq_lt_asym, lemma_seq_lt_trans, seq_lt, str_lt};

verus! {

/// Something listed newest first: by a time, then by a name.
pub trait Ranked {
    spec fn rank_time(&self) -> i64;

    spec fn rank_name(&self) -> Seq<char>;

    fn time(&self) -> (r: i64)
        ensures
            r == self.rank_time();

    fn name(&self) -> (r: &str)
        ensures
            r@ == self.rank_name();
}

/// Whether `a` may be listed before `b`: it is newer, or as new and its name does not sort after
/// `b`'s.
pub open spec fn ranks_before<T: Ranked>(a: T, b: T) -> bool {
    a.rank_time() > b.rank_time() || (a.rank_time() == b.rank_time() && !seq_lt(b.rank_name(), a.rank_name()))
}

/// Whether a list is newest first, names ascending among equals.
pub open spec fn newest_first<T: Ranked>(s: Seq<T>) -> bool {
    forall|i: int, j: int| 0 <= i < j < s.len() ==> ranks_before(#[trigger] s[i], #[trigger] s[j])
}

/// Whether `a` may be listed before `b` in a listing by time: newer (or older, when not
/// `newest`), or as old and its name does not sort after `b`'s.
pub open spec fn precedes<T: Ranked>(a: T, b: T, newest: bool) -> bool {
    (if newest { a.rank_time() > b.rank_time() } else { a.rank_time() < b.rank_time() })
        || (a.rank_time() == b.rank_time() && !seq_lt(b.rank_name(), a.rank_name()))
}

/// Whether a list is ordered by time, newest or oldest first, names ascending among equals.
pub open spec fn listed_by_age<T: Ranked>(s: Seq<T>, newest: bool) -> bool {
    forall|i: int, j: int| 0 <= i < j < s.len() ==> precedes(#[trigger] s[i], #[trigger] s[j], newest)
}

/// Whether a list is oldest first, names ascending among equals.
pub open spec fn oldest_first<T: Ranked>(s: Seq<T>) -> bool {
    listed_by_age(s, false)
}

/// Lists the elements by time, newest first when `newest` and oldest first otherwise, names
/// ascending among equal times.
pub fn sort_by_age<T: Ranked>(v: Vec<T>, newest: bool) -> (r: Vec<T>)
    ensures
        r@.to_multiset() == v@.to_multiset(),
        listed_by_age(r@, newest),
{
    broadcast use vstd::seq_lib::group_to_multiset_ensures;
    let ghost all = v@.to_multiset();
    let mut work = v;
    let mut out: Vec<T> = Vec::new();
    while work.len() > 0
        invariant
            out@.to_multiset().add(work@.to_multiset()) == all,
            listed_by_age(out@, newest),
            forall|i: int, j: int| 0 <= i < out@.len() && 0 <= j < work@.len() ==> precedes(#[trigger] out@[i], #[trigger] work@[j], newest),
        decreases work@.len(),
    {
        let mut b: usize = 0;
        let mut j: usize = 1;
        proof {
            lemma_seq_lt_asym(work@[0].rank_name(), work@[0].rank_name());
        }
        while j < work.len()
            invariant
                b < j <= work@.len(),
                forall|k: int| 0 <= k < j ==> precedes(work@[b as int], #[trigger] work@[k], newest),
            decreases work@.len() - j,
        {
            let tj = work[j].time();
            let tb = work[b].time();
            let better = (if newest { tj > tb } else { tj < tb }) || (tj == tb && str_lt(work[j].name(), work[b].name()));
            if better {
                proof {
                    assert forall|k: int| 0 <= k < j + 1 implies precedes(work@[j as int], #[trigger] work@[k], newest) by {
                        if k == j {
                            lemma_seq_lt_asym(work@[k].rank_name(), work@[k].rank_name());
                        } else {
                            assert(precedes(work@[b as int], work@[k], newest));
                            let a = work@[j as int];
                            let m = work@[b as int];
                            let c = work@[k];
                            if a.rank_time() == c.rank_time() && seq_lt(c.rank_name(), a.rank_name()) {
                                lemma_seq_lt_trans(c.rank_name(), a.rank_name(), m.rank_name());
                            }
                        }
                    }
                }
                b = j;
            }
            j = j + 1;
        }
        let ghost w0 = work@;
        let ghost o0 = out@;
        let x = work.remove(b);
        proof {
            vstd::seq_lib::to_multiset_remove(w0, b as int);
            vstd::seq_lib::to_multiset_contains(w0, x);
            assert(w0.contains(x)) by {
                assert(w0[b as int] == x);
            }
        }
        out.push(x);
        proof {
            assert(out@ == o0.push(x));
            vstd::seq_lib::to_multiset_build(o0, x);
            assert(out@.to_multiset().add(work@.to_multiset()) =~= all);
            assert forall|i: int, k: int| 0 <= i < out@.len() && 0 <= k < work@.len() implies precedes(#[trigger] out@[i], #[trigger] work@[k], newest) by {
                let kk = if k < b { k } else { k + 1 };
                assert(work@[k] == w0[kk]);
                if i < o0.len() {
                    assert(out@[i] == o0[i]);
                } else {
                    assert(out@[i] == x);
                }
            }
            assert forall|i: int, k: int| 0 <= i < k < out@.len() implies precedes(#[trigger] out@[i], #[trigger] out@[k], newest) by {
                if k < o0.len() {
                    assert(out@[i] == o0[i] && out@[k] == o0[k]);
                } else {
                    assert(out@[k] == w0[b as int]);
                    assert(out@[i] == o0[i]);
                }
            }
        }
    }
    proof {
        assert(work@.to_multiset() =~= Multiset::empty()) by {
            assert(work@.len() == 0);
        }
        assert(out@.to_multiset().add(Multiset::empty()) =~= out@.to_multiset());
    }
    out
}


/// Lists the elements newest first, names ascending among equals.
pub fn sort_newest_first<T: Ranked>(v: Vec<T>) -> (r: Vec<T>)
    ensures
        r@.to_multiset() == v@.to_multiset(),
        newest_first(r@),
{
    let r = sort_by_age(v, true);
    assert forall|i: int, j: int| 0 <= i < j < r@.len() implies ranks_before(#[trigger] r@[i], #[trigger] r@[j]) by {
        assert(precedes(r@[i], r@[j], true));
    }
    r
}

/// Lists the elements oldest first, names ascending among equals.
pub fn sort_oldest_first<T: Ranked>(v: Vec<T>) -> (r: Vec<T>)
    ensures
        r@.to_multiset() == v@.to_multiset(),
        oldest_first(r@),
{
    sort_by_age(v, false)
}

} // verus!
