use vstd::prelude::*;

use crate::text::str_eq;

verus! {

/// A record kept in a table under a text key.
pub trait Keyed {
    /// The record's key.
    spec fn key(&self) -> Seq<char>;

    /// The record's key, to compare.
    fn key_str(&self) -> (r: &str)
        ensures
            r@ == self.key();
}

/// Whether no two records of a table share a key.
pub open spec fn keys_unique<T: Keyed>(s: Seq<T>) -> bool {
    forall|i: int, j: int|
        #![trigger s[i], s[j]]
        0 <= i < s.len() && 0 <= j < s.len() && i != j ==> s[i].key() != s[j].key()
}

/// The position of the record with a key.
pub open spec fn pos_of<T: Keyed>(s: Seq<T>, id: Seq<char>) -> Option<int> {
    if exists|i: int| 0 <= i < s.len() && (#[trigger] s[i]).key() == id {
        Some(choose|i: int| 0 <= i < s.len() && (#[trigger] s[i]).key() == id)
    } else {
        None
    }
}

/// The record with a key, if any.
pub open spec fn get<T: Keyed>(s: Seq<T>, id: Seq<char>) -> Option<T> {
    match pos_of(s, id) {
        Some(i) => Some(s[i]),
        None => None,
    }
}

/// Whether a table holds a record with a key.
pub open spec fn has<T: Keyed>(s: Seq<T>, id: Seq<char>) -> bool {
    pos_of(s, id) is Some
}

/// A table with a record inserted, replacing the one with the same key (a map's `insert`).
pub open spec fn upserted<T: Keyed>(s: Seq<T>, r: T) -> Seq<T> {
    match pos_of(s, r.key()) {
        Some(i) => s.update(i, r),
        None => s.push(r),
    }
}

/// Under unique keys, a position holding the key is the position.
pub proof fn lemma_pos_of<T: Keyed>(s: Seq<T>, i: int)
    requires
        keys_unique(s),
        0 <= i < s.len(),
    ensures
        pos_of(s, s[i].key()) == Some(i),
{
    let c = choose|k: int| 0 <= k < s.len() && (#[trigger] s[k]).key() == s[i].key();
    if c != i {
        assert(s[c].key() != s[i].key());
    }
}

/// Updating a record in place keeps keys unique and positions, when the key stays.
pub proof fn lemma_update_keyed<T: Keyed>(s: Seq<T>, i: int, r: T)
    requires
        keys_unique(s),
        0 <= i < s.len(),
        r.key() == s[i].key(),
    ensures
        keys_unique(s.update(i, r)),
        forall|id: Seq<char>| #[trigger] pos_of(s.update(i, r), id) == pos_of(s, id),
{
    let n = s.update(i, r);
    assert forall|a: int, b: int|
        #![trigger n[a], n[b]]
        0 <= a < n.len() && 0 <= b < n.len() && a != b implies n[a].key() != n[b].key() by {
        assert(s[a].key() != s[b].key());
    }
    assert forall|id: Seq<char>| #[trigger] pos_of(n, id) == pos_of(s, id) by {
        if pos_of(s, id) is Some {
            let p = pos_of(s, id)->0;
            assert(n[p].key() == id);
            lemma_pos_of(n, p);
        } else {
            if pos_of(n, id) is Some {
                let p = pos_of(n, id)->0;
                assert(s[p].key() == id);
            }
        }
    }
}

/// Position of the record with a key.
pub fn find<T: Keyed>(v: &Vec<T>, id: &str) -> (r: Option<usize>)
    requires
        keys_unique(v@),
    ensures
        match r {
            Some(i) => pos_of(v@, id@) == Some(i as int) && i < v@.len(),
            None => pos_of(v@, id@) is None,
        },
{
    let mut i: usize = 0;
    while i < v.len()
        invariant
            i <= v@.len(),
            keys_unique(v@),
            forall|j: int| 0 <= j < i ==> (#[trigger] v@[j]).key() != id@,
        decreases v.len() - i,
    {
        if str_eq(v[i].key_str(), id) {
            proof { lemma_pos_of(v@, i as int); }
            return Some(i);
        }
        i = i + 1;
    }
    None
}

/// Inserts a record, replacing the one with the same key.
pub fn upsert<T: Keyed>(v: &mut Vec<T>, r: T)
    requires
        keys_unique(old(v)@),
    ensures
        keys_unique(final(v)@),
        final(v)@ == upserted(old(v)@, r),
{
    let ghost rk = r.key();
    let ghost s = v@;
    match find(v, r.key_str()) {
        Some(i) => {
            v.set(i, r);
            proof { lemma_update_keyed(s, i as int, r); }
        },
        None => {
            v.push(r);
            proof {
                assert forall|a: int, b: int|
                    #![trigger v@[a], v@[b]]
                    0 <= a < v@.len() && 0 <= b < v@.len() && a != b implies v@[a].key() != v@[b].key() by {
                    if a == s.len() {
                        assert(s[b].key() != rk);
                    } else if b == s.len() {
                        assert(s[a].key() != rk);
                    } else {
                        assert(s[a] == v@[a] && s[b] == v@[b]);
                    }
                }
            }
        },
    }
}

/// Whether `i` is the first position holding a key.
pub open spec fn is_first<T: Keyed>(s: Seq<T>, id: Seq<char>, i: int) -> bool {
    &&& 0 <= i < s.len()
    &&& s[i].key() == id
    &&& forall|j: int| 0 <= j < i ==> (#[trigger] s[j]).key() != id
}

/// The first position holding a key, where keys may repeat.
pub open spec fn first_pos<T: Keyed>(s: Seq<T>, id: Seq<char>) -> Option<int> {
    if exists|i: int| is_first(s, id, i) {
        Some(choose|i: int| is_first(s, id, i))
    } else {
        None
    }
}

/// The first position holding a key, where keys may repeat.
pub fn find_first<T: Keyed>(v: &Vec<T>, id: &str) -> (r: Option<usize>)
    ensures
        r is Some ==> first_pos(v@, id@) == Some(r->0 as int),
        r is None ==> first_pos(v@, id@) is None,
        r is None ==> forall|j: int| 0 <= j < v@.len() ==> (#[trigger] v@[j]).key() != id@,
        r is Some ==> r->0 < v@.len(),
{
    let mut i: usize = 0;
    while i < v.len()
        invariant
            i <= v@.len(),
            forall|j: int| 0 <= j < i ==> (#[trigger] v@[j]).key() != id@,
        decreases v.len() - i,
    {
        if str_eq(v[i].key_str(), id) {
            proof {
                assert(is_first(v@, id@, i as int));
                let c = choose|k: int| is_first(v@, id@, k);
                if c < i {
                    assert(v@[c].key() != id@);
                } else if c > i {
                    assert(v@[i as int].key() != id@);
                }
            }
            return Some(i);
        }
        i = i + 1;
    }
    proof {
        if exists|k: int| is_first(v@, id@, k) {
            let c = choose|k: int| is_first(v@, id@, k);
            assert(v@[c].key() != id@);
        }
    }
    None
}

} // verus!
