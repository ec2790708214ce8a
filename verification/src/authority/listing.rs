use vstd::prelude::*;

use super::store::{tt_unique, wu_unique, ws_unique, AuthorityState};
use super::types::{TrackedThreadRecord, WorkUnitRecord, WorkstreamRecord};
use crate::text::{
    lemma_seq_lt_asym, lemma_seq_lt_total, lemma_seq_lt_trans, seq_lt, str_eq, str_lt,
};

verus! {

/// The listing order of the projection tables: most recently updated first, then by id.
pub open spec fn key_before(a_at: i64, a_id: Seq<char>, b_at: i64, b_id: Seq<char>) -> bool {
    a_at > b_at || (a_at == b_at && seq_lt(a_id, b_id))
}

/// The listing order is a strict order.
pub proof fn lemma_key_order(
    a_at: i64,
    a_id: Seq<char>,
    b_at: i64,
    b_id: Seq<char>,
    c_at: i64,
    c_id: Seq<char>,
)
    ensures
        !(key_before(a_at, a_id, b_at, b_id) && key_before(b_at, b_id, a_at, a_id)),
        key_before(a_at, a_id, b_at, b_id) && key_before(b_at, b_id, c_at, c_id) ==> key_before(
            a_at,
            a_id,
            c_at,
            c_id,
        ),
        a_id != b_id ==> key_before(a_at, a_id, b_at, b_id) || key_before(b_at, b_id, a_at, a_id),
{
    lemma_seq_lt_asym(a_id, b_id);
    if key_before(a_at, a_id, b_at, b_id) && key_before(b_at, b_id, c_at, c_id) && a_at == b_at
        && b_at == c_at {
        lemma_seq_lt_trans(a_id, b_id, c_id);
    }
    if a_id != b_id {
        lemma_seq_lt_total(a_id, b_id);
    }
}

/// A row to be ordered: its sort columns and its position in the table.
#[derive(Debug)]
pub struct ListKey {
    pub updated_at: i64,
    pub id: String,
    pub pos: usize,
}

pub open spec fn keys_before(a: ListKey, b: ListKey) -> bool {
    key_before(a.updated_at, a.id@, b.updated_at, b.id@)
}

/// Whether keys are in strictly increasing listing order.
pub open spec fn keys_sorted(s: Seq<ListKey>) -> bool {
    forall|a: int, c: int|
        #![trigger s[a], s[c]]
        0 <= a < c < s.len() ==> keys_before(s[a], s[c])
}

/// Whether no two keys share an id.
pub open spec fn keys_distinct(s: Seq<ListKey>) -> bool {
    forall|a: int, c: int|
        #![trigger s[a], s[c]]
        0 <= a < s.len() && 0 <= c < s.len() && a != c ==> s[a].id@ != s[c].id@
}

/// Whether `out` holds exactly the keys of `s`, each once.
pub open spec fn keys_permuted(s: Seq<ListKey>, out: Seq<ListKey>) -> bool {
    &&& out.len() == s.len()
    &&& keys_cover(s, s.len() as int, out)
}

/// Whether `out` holds exactly the first `i` keys of `s`, in some order.
pub open spec fn keys_cover(s: Seq<ListKey>, i: int, out: Seq<ListKey>) -> bool {
    &&& forall|a: int|
        #![trigger out[a]]
        0 <= a < out.len() ==> exists|b: int| #![trigger s[b]] 0 <= b < i && out[a] == s[b]
    &&& forall|b: int|
        #![trigger s[b]]
        0 <= b < i ==> exists|a: int| #![trigger out[a]] 0 <= a < out.len() && out[a] == s[b]
}

fn copy_key(k: &ListKey) -> (r: ListKey)
    ensures
        r == *k,
{
    ListKey { updated_at: k.updated_at, id: k.id.clone(), pos: k.pos }
}

fn key_less(a: &ListKey, b: &ListKey) -> (r: bool)
    ensures
        r == keys_before(*a, *b),
{
    a.updated_at > b.updated_at || (a.updated_at == b.updated_at && str_lt(a.id.as_str(), b.id.as_str()))
}

proof fn lemma_insert_sorted(keys: Seq<ListKey>, i: int, old_out: Seq<ListKey>, p: int, k: ListKey)
    requires
        0 <= i < keys.len(),
        k == keys[i],
        keys_distinct(keys),
        old_out.len() == i,
        keys_sorted(old_out),
        keys_cover(keys, i, old_out),
        0 <= p <= old_out.len(),
        forall|q: int| 0 <= q < p ==> !keys_before(k, #[trigger] old_out[q]),
        p < old_out.len() ==> keys_before(k, old_out[p]),
    ensures
        keys_sorted(old_out.insert(p, k)),
        keys_cover(keys, i + 1, old_out.insert(p, k)),
{
    lemma_insert_fresh(keys, i, old_out);
    lemma_insert_order(old_out, p, k);
    lemma_insert_cover(keys, i, old_out, p);
}

proof fn lemma_insert_fresh(keys: Seq<ListKey>, i: int, old_out: Seq<ListKey>)
    requires
        0 <= i < keys.len(),
        keys_distinct(keys),
        keys_cover(keys, i, old_out),
    ensures
        forall|q: int| 0 <= q < old_out.len() ==> (#[trigger] old_out[q]).id@ != keys[i].id@,
{
    assert forall|q: int| 0 <= q < old_out.len() implies (#[trigger] old_out[q]).id@ != keys[i].id@ by {
        let b = choose|b: int| #![trigger keys[b]] 0 <= b < i && old_out[q] == keys[b];
        assert(keys[b].id@ != keys[i].id@);
    }
}

proof fn lemma_insert_order(old_out: Seq<ListKey>, p: int, k: ListKey)
    requires
        keys_sorted(old_out),
        0 <= p <= old_out.len(),
        forall|q: int| 0 <= q < old_out.len() ==> (#[trigger] old_out[q]).id@ != k.id@,
        forall|q: int| 0 <= q < p ==> !keys_before(k, #[trigger] old_out[q]),
        p < old_out.len() ==> keys_before(k, old_out[p]),
    ensures
        keys_sorted(old_out.insert(p, k)),
{
    let n = old_out.insert(p, k);
    assert forall|a: int, c: int| #![trigger n[a], n[c]] 0 <= a < c < n.len() implies keys_before(n[a], n[c]) by {
        if c < p {
            assert(n[a] == old_out[a] && n[c] == old_out[c]);
        } else if c == p {
            assert(n[a] == old_out[a]);
            assert(!keys_before(k, old_out[a]));
            assert(old_out[a].id@ != k.id@);
            lemma_key_order(k.updated_at, k.id@, old_out[a].updated_at, old_out[a].id@, 0, Seq::empty());
        } else if a == p {
            assert(n[c] == old_out[c - 1]);
            assert(keys_before(k, old_out[p]));
            if c - 1 > p {
                assert(keys_before(old_out[p], old_out[c - 1]));
                lemma_key_order(k.updated_at, k.id@, old_out[p].updated_at, old_out[p].id@, old_out[c - 1].updated_at, old_out[c - 1].id@);
            }
        } else if a < p {
            assert(n[a] == old_out[a] && n[c] == old_out[c - 1]);
        } else {
            assert(n[a] == old_out[a - 1] && n[c] == old_out[c - 1]);
        }
    }
}

proof fn lemma_insert_cover(keys: Seq<ListKey>, i: int, old_out: Seq<ListKey>, p: int)
    requires
        0 <= i < keys.len(),
        keys_cover(keys, i, old_out),
        0 <= p <= old_out.len(),
    ensures
        keys_cover(keys, i + 1, old_out.insert(p, keys[i])),
{
    let n = old_out.insert(p, keys[i]);
    assert forall|a: int| #![trigger n[a]] 0 <= a < n.len() implies exists|b: int| #![trigger keys[b]] 0 <= b < i + 1 && n[a] == keys[b] by {
        if a < p {
            assert(n[a] == old_out[a]);
        } else if a == p {
            assert(n[a] == keys[i]);
        } else {
            assert(n[a] == old_out[a - 1]);
        }
    }
    assert forall|b: int| #![trigger keys[b]] 0 <= b < i + 1 implies exists|a: int| #![trigger n[a]] 0 <= a < n.len() && n[a] == keys[b] by {
        if b == i {
            assert(n[p] == keys[b]);
        } else {
            let a0 = choose|a: int| #![trigger old_out[a]] 0 <= a < old_out.len() && old_out[a] == keys[b];
            if a0 < p {
                assert(n[a0] == keys[b]);
            } else {
                assert(n[a0 + 1] == keys[b]);
            }
        }
    }
}

/// Sorts keys with distinct ids into listing order.
pub fn sort_keys(keys: &Vec<ListKey>) -> (r: Vec<ListKey>)
    requires
        keys_distinct(keys@),
    ensures
        keys_permuted(keys@, r@),
        keys_sorted(r@),
{
    let mut out: Vec<ListKey> = Vec::new();
    let mut i: usize = 0;
    while i < keys.len()
        invariant
            i <= keys@.len(),
            keys_distinct(keys@),
            out@.len() == i,
            keys_sorted(out@),
            keys_cover(keys@, i as int, out@),
        decreases keys.len() - i,
    {
        let k = copy_key(&keys[i]);
        let mut p: usize = 0;
        while p < out.len() && !key_less(&k, &out[p])
            invariant
                p <= out@.len(),
                forall|q: int| 0 <= q < p ==> !keys_before(k, #[trigger] out@[q]),
            decreases out.len() - p,
        {
            p = p + 1;
        }
        let ghost old_out = out@;
        out.insert(p, k);
        proof {
            lemma_insert_sorted(keys@, i as int, old_out, p as int, k);
        }
        i = i + 1;
    }
    out
}

/// The sort columns of a table row, and whether a query selects it.
pub ghost struct RowKey {
    pub at: i64,
    pub id: Seq<char>,
    pub selected: bool,
}

/// `ps` lists the positions of exactly the selected rows, in listing order.
pub open spec fn listing(rows: Seq<RowKey>, ps: Seq<usize>) -> bool {
    &&& forall|a: int| #![trigger ps[a]] 0 <= a < ps.len() ==> ps[a] < rows.len() && rows[ps[a] as int].selected
    &&& forall|i: int|
        #![trigger rows[i]]
        0 <= i < rows.len() && rows[i].selected ==> exists|a: int| #![trigger ps[a]] 0 <= a < ps.len() && ps[a] == i
    &&& forall|a: int, c: int|
        #![trigger ps[a], ps[c]]
        0 <= a < c < ps.len() ==> key_before(
            rows[ps[a] as int].at,
            rows[ps[a] as int].id,
            rows[ps[c] as int].at,
            rows[ps[c] as int].id,
        )
}

/// Selected rows have distinct ids.
pub open spec fn selected_ids_unique(rows: Seq<RowKey>) -> bool {
    forall|i: int, j: int|
        #![trigger rows[i], rows[j]]
        0 <= i < rows.len() && 0 <= j < rows.len() && i != j && rows[i].selected && rows[j].selected
            ==> rows[i].id != rows[j].id
}

/// The keys gathered from the rows: one per selected row, in table order.
pub open spec fn keys_match(rows: Seq<RowKey>, keys: Seq<ListKey>) -> bool {
    &&& forall|b: int|
        #![trigger keys[b]]
        0 <= b < keys.len() ==> keys[b].pos < rows.len() && rows[keys[b].pos as int].selected
            && rows[keys[b].pos as int].at == keys[b].updated_at && rows[keys[b].pos as int].id
            == keys[b].id@
    &&& forall|b: int, c: int| #![trigger keys[b], keys[c]] 0 <= b < c < keys.len() ==> keys[b].pos < keys[c].pos
    &&& forall|i: int|
        #![trigger rows[i]]
        0 <= i < rows.len() && rows[i].selected ==> exists|b: int| #![trigger keys[b]] 0 <= b < keys.len() && keys[b].pos == i
}

/// The positions of the selected rows in listing order.
pub fn ordered_positions(keys: &Vec<ListKey>, Ghost(rows): Ghost<Seq<RowKey>>) -> (r: Vec<usize>)
    requires
        keys_match(rows, keys@),
        selected_ids_unique(rows),
    ensures
        listing(rows, r@),
{
    assert forall|a: int, c: int|
        #![trigger keys@[a], keys@[c]]
        0 <= a < keys@.len() && 0 <= c < keys@.len() && a != c implies keys@[a].id@ != keys@[c].id@ by {
        if a < c {
            assert(keys@[a].pos < keys@[c].pos);
        } else {
            assert(keys@[c].pos < keys@[a].pos);
        }
        assert(rows[keys@[a].pos as int].id != rows[keys@[c].pos as int].id);
    }
    let sorted = sort_keys(keys);
    let mut ps: Vec<usize> = Vec::new();
    let mut a: usize = 0;
    while a < sorted.len()
        invariant
            a <= sorted@.len(),
            ps@.len() == a,
            forall|q: int| #![trigger ps@[q]] 0 <= q < a ==> ps@[q] == sorted@[q].pos,
        decreases sorted.len() - a,
    {
        ps.push(sorted[a].pos);
        a = a + 1;
    }
    proof {
        assert forall|q: int| #![trigger ps@[q]] 0 <= q < ps@.len() implies ps@[q] < rows.len()
            && rows[ps@[q] as int].selected by {
            let b = choose|b: int| #![trigger keys@[b]] 0 <= b < keys@.len() && sorted@[q] == keys@[b];
            assert(keys@[b].pos == ps@[q]);
        }
        assert forall|i: int|
            #![trigger rows[i]]
            0 <= i < rows.len() && rows[i].selected implies exists|q: int| #![trigger ps@[q]] 0 <= q < ps@.len() && ps@[q] == i by {
            let b = choose|b: int| #![trigger keys@[b]] 0 <= b < keys@.len() && keys@[b].pos == i;
            let q = choose|q: int| #![trigger sorted@[q]] 0 <= q < sorted@.len() && sorted@[q] == keys@[b];
            assert(ps@[q] == i);
        }
        assert forall|x: int, y: int|
            #![trigger ps@[x], ps@[y]]
            0 <= x < y < ps@.len() implies key_before(
                rows[ps@[x] as int].at,
                rows[ps@[x] as int].id,
                rows[ps@[y] as int].at,
                rows[ps@[y] as int].id,
            ) by {
            let bx = choose|b: int| #![trigger keys@[b]] 0 <= b < keys@.len() && sorted@[x] == keys@[b];
            let by_ = choose|b: int| #![trigger keys@[b]] 0 <= b < keys@.len() && sorted@[y] == keys@[b];
            assert(keys_before(sorted@[x], sorted@[y]));
        }
    }
    ps
}

/// The row with its selection withdrawn.
pub open spec fn deselect(rows: Seq<RowKey>, h: int) -> Seq<RowKey> {
    rows.update(h, RowKey { selected: false, ..rows[h] })
}

/// A listing is determined by the rows: there is only one order of the selected rows.
pub proof fn lemma_listing_unique(rows: Seq<RowKey>, ps1: Seq<usize>, ps2: Seq<usize>)
    requires
        listing(rows, ps1),
        listing(rows, ps2),
    ensures
        ps1 == ps2,
    decreases ps1.len(),
{
    if ps1.len() == 0 {
        if ps2.len() > 0 {
            let p = ps2[0] as int;
            assert(rows[p].selected);
        }
        assert(ps1 =~= ps2);
    } else {
        let h = ps1[0] as int;
        assert(rows[h].selected);
        let b = choose|a: int| #![trigger ps2[a]] 0 <= a < ps2.len() && ps2[a] == h;
        assert(ps2.len() > 0);
        let g = ps2[0] as int;
        assert(rows[g].selected);
        let c = choose|a: int| #![trigger ps1[a]] 0 <= a < ps1.len() && ps1[a] == g;
        if b != 0 {
            assert(key_before(rows[g].at, rows[g].id, rows[h].at, rows[h].id));
            if c != 0 {
                assert(key_before(rows[h].at, rows[h].id, rows[g].at, rows[g].id));
            }
            lemma_key_order(rows[g].at, rows[g].id, rows[h].at, rows[h].id, 0, Seq::empty());
        }
        assert(ps2[0] == ps1[0]);
        let r2 = deselect(rows, h);
        let t1 = ps1.drop_first();
        let t2 = ps2.drop_first();
        lemma_listing_tail(rows, ps1);
        lemma_listing_tail(rows, ps2);
        lemma_listing_unique(r2, t1, t2);
        assert(ps1 =~= seq![ps1[0]] + t1);
        assert(ps2 =~= seq![ps2[0]] + t2);
    }
}

proof fn lemma_listing_tail(rows: Seq<RowKey>, ps: Seq<usize>)
    requires
        listing(rows, ps),
        ps.len() > 0,
    ensures
        listing(deselect(rows, ps[0] as int), ps.drop_first()),
{
    let h = ps[0] as int;
    let r2 = deselect(rows, h);
    let t = ps.drop_first();
    assert forall|a: int| #![trigger t[a]] 0 <= a < t.len() implies t[a] < r2.len() && r2[t[a] as int].selected by {
        assert(t[a] == ps[a + 1]);
        if ps[a + 1] as int == h {
            assert(key_before(rows[h].at, rows[h].id, rows[h].at, rows[h].id));
            lemma_key_order(rows[h].at, rows[h].id, rows[h].at, rows[h].id, 0, Seq::empty());
        }
    }
    assert forall|i: int| #![trigger r2[i]] 0 <= i < r2.len() && r2[i].selected implies exists|a: int| #![trigger t[a]] 0 <= a < t.len() && t[a] == i by {
        assert(rows[i].selected);
        let a = choose|a: int| #![trigger ps[a]] 0 <= a < ps.len() && ps[a] == i;
        assert(a != 0);
        assert(t[a - 1] == i);
    }
    assert forall|a: int, c: int| #![trigger t[a], t[c]] 0 <= a < c < t.len() implies key_before(
        r2[t[a] as int].at,
        r2[t[a] as int].id,
        r2[t[c] as int].at,
        r2[t[c] as int].id,
    ) by {
        assert(t[a] == ps[a + 1] && t[c] == ps[c + 1]);
        assert(key_before(rows[ps[a + 1] as int].at, rows[ps[a + 1] as int].id, rows[ps[c + 1] as int].at, rows[ps[c + 1] as int].id));
    }
}

/// Keys gathered from the first `i` rows, extended by row `i`.
proof fn lemma_keys_step(rows: Seq<RowKey>, i: int, keys: Seq<ListKey>, k: ListKey)
    requires
        0 <= i < rows.len(),
        keys_match(rows.take(i), keys),
        k.pos == i,
        k.updated_at == rows[i].at,
        k.id@ == rows[i].id,
    ensures
        rows[i].selected ==> keys_match(rows.take(i + 1), keys.push(k)),
        !rows[i].selected ==> keys_match(rows.take(i + 1), keys),
{
    let t = rows.take(i + 1);
    assert forall|j: int| 0 <= j < i implies #[trigger] rows.take(i)[j] == t[j] by {}
    if rows[i].selected {
        let n = keys.push(k);
        assert forall|b: int| #![trigger n[b]] 0 <= b < n.len() implies n[b].pos < t.len() && t[n[b].pos as int].selected
            && t[n[b].pos as int].at == n[b].updated_at && t[n[b].pos as int].id == n[b].id@ by {
            if b < keys.len() {
                assert(n[b] == keys[b]);
                assert(rows.take(i)[keys[b].pos as int] == t[keys[b].pos as int]);
            }
        }
        assert forall|b: int, c: int| #![trigger n[b], n[c]] 0 <= b < c < n.len() implies n[b].pos < n[c].pos by {
            assert(n[b] == keys[b]);
            if c < keys.len() {
                assert(n[c] == keys[c]);
            } else {
                assert(keys[b].pos < rows.take(i).len());
            }
        }
        assert forall|j: int| #![trigger t[j]] 0 <= j < t.len() && t[j].selected implies exists|b: int| #![trigger n[b]] 0 <= b < n.len() && n[b].pos == j by {
            if j < i {
                assert(rows.take(i)[j] == t[j]);
                let b = choose|b: int| #![trigger keys[b]] 0 <= b < keys.len() && keys[b].pos == j;
                assert(n[b] == keys[b]);
            } else {
                assert(n[keys.len() as int] == k);
            }
        }
    } else {
        assert forall|b: int| #![trigger keys[b]] 0 <= b < keys.len() implies keys[b].pos < t.len() && t[keys[b].pos as int].selected
            && t[keys[b].pos as int].at == keys[b].updated_at && t[keys[b].pos as int].id == keys[b].id@ by {
            assert(rows.take(i)[keys[b].pos as int] == t[keys[b].pos as int]);
        }
        assert forall|j: int| #![trigger t[j]] 0 <= j < t.len() && t[j].selected implies exists|b: int| #![trigger keys[b]] 0 <= b < keys.len() && keys[b].pos == j by {
            assert(rows.take(i)[j] == t[j]);
        }
    }
}

/// Whether a workstream query selects a row.
pub open spec fn ws_selected(r: WorkstreamRecord, include_deleted: bool) -> bool {
    include_deleted || r.deleted_at is None
}

/// Whether a work-unit query, optionally for one workstream, selects a row.
pub open spec fn wu_selected(r: WorkUnitRecord, workstream_id: Option<Seq<char>>, include_deleted: bool) -> bool {
    (include_deleted || r.deleted_at is None) && (workstream_id is None || r.workstream_id@
        == workstream_id->0)
}

/// Whether a tracked-thread query for a work unit selects a row.
pub open spec fn tt_selected(r: TrackedThreadRecord, work_unit_id: Seq<char>, include_deleted: bool) -> bool {
    (include_deleted || r.deleted_at is None) && r.work_unit_id@ == work_unit_id
}

pub open spec fn ws_rows(s: Seq<WorkstreamRecord>, include_deleted: bool) -> Seq<RowKey> {
    Seq::new(s.len(), |i: int| RowKey { at: s[i].updated_at, id: s[i].id@, selected: ws_selected(s[i], include_deleted) })
}

pub open spec fn wu_rows(s: Seq<WorkUnitRecord>, workstream_id: Option<Seq<char>>, include_deleted: bool) -> Seq<RowKey> {
    Seq::new(s.len(), |i: int| RowKey { at: s[i].updated_at, id: s[i].id@, selected: wu_selected(s[i], workstream_id, include_deleted) })
}

pub open spec fn tt_rows(s: Seq<TrackedThreadRecord>, work_unit_id: Seq<char>, include_deleted: bool) -> Seq<RowKey> {
    Seq::new(s.len(), |i: int| RowKey { at: s[i].updated_at, id: s[i].id@, selected: tt_selected(s[i], work_unit_id, include_deleted) })
}

/// `out` holds exactly the selected workstreams, each once, most recently updated first and then
/// by id.
pub open spec fn ws_listed(s: Seq<WorkstreamRecord>, include_deleted: bool, out: Seq<WorkstreamRecord>) -> bool {
    exists|ps: Seq<usize>| #[trigger] listing(ws_rows(s, include_deleted), ps) && out.len() == ps.len()
        && forall|a: int| 0 <= a < out.len() ==> #[trigger] out[a] == s[ps[a] as int]
}

pub open spec fn wu_listed(s: Seq<WorkUnitRecord>, workstream_id: Option<Seq<char>>, include_deleted: bool, out: Seq<WorkUnitRecord>) -> bool {
    exists|ps: Seq<usize>| #[trigger] listing(wu_rows(s, workstream_id, include_deleted), ps) && out.len() == ps.len()
        && forall|a: int| 0 <= a < out.len() ==> #[trigger] out[a] == s[ps[a] as int]
}

pub open spec fn tt_listed(s: Seq<TrackedThreadRecord>, work_unit_id: Seq<char>, include_deleted: bool, out: Seq<TrackedThreadRecord>) -> bool {
    exists|ps: Seq<usize>| #[trigger] listing(tt_rows(s, work_unit_id, include_deleted), ps) && out.len() == ps.len()
        && forall|a: int| 0 <= a < out.len() ==> #[trigger] out[a] == s[ps[a] as int]
}

/// The workstreams a query lists, in order.
pub open spec fn ws_list(s: Seq<WorkstreamRecord>, include_deleted: bool) -> Seq<WorkstreamRecord> {
    choose|out: Seq<WorkstreamRecord>| ws_listed(s, include_deleted, out)
}

/// The work units a query lists, in order.
pub open spec fn wu_list(s: Seq<WorkUnitRecord>, workstream_id: Option<Seq<char>>, include_deleted: bool) -> Seq<WorkUnitRecord> {
    choose|out: Seq<WorkUnitRecord>| wu_listed(s, workstream_id, include_deleted, out)
}

/// The tracked threads a query lists, in order.
pub open spec fn tt_list(s: Seq<TrackedThreadRecord>, work_unit_id: Seq<char>, include_deleted: bool) -> Seq<TrackedThreadRecord> {
    choose|out: Seq<TrackedThreadRecord>| tt_listed(s, work_unit_id, include_deleted, out)
}

pub proof fn lemma_ws_list(s: Seq<WorkstreamRecord>, include_deleted: bool, out: Seq<WorkstreamRecord>)
    requires
        ws_listed(s, include_deleted, out),
    ensures
        out == ws_list(s, include_deleted),
{
    let o2 = ws_list(s, include_deleted);
    let ps1 = choose|ps: Seq<usize>| #[trigger] listing(ws_rows(s, include_deleted), ps) && out.len() == ps.len()
        && forall|a: int| 0 <= a < out.len() ==> #[trigger] out[a] == s[ps[a] as int];
    let ps2 = choose|ps: Seq<usize>| #[trigger] listing(ws_rows(s, include_deleted), ps) && o2.len() == ps.len()
        && forall|a: int| 0 <= a < o2.len() ==> #[trigger] o2[a] == s[ps[a] as int];
    lemma_listing_unique(ws_rows(s, include_deleted), ps1, ps2);
    assert(out =~= o2);
}

pub proof fn lemma_wu_list(s: Seq<WorkUnitRecord>, workstream_id: Option<Seq<char>>, include_deleted: bool, out: Seq<WorkUnitRecord>)
    requires
        wu_listed(s, workstream_id, include_deleted, out),
    ensures
        out == wu_list(s, workstream_id, include_deleted),
{
    let o2 = wu_list(s, workstream_id, include_deleted);
    let rows = wu_rows(s, workstream_id, include_deleted);
    let ps1 = choose|ps: Seq<usize>| #[trigger] listing(rows, ps) && out.len() == ps.len()
        && forall|a: int| 0 <= a < out.len() ==> #[trigger] out[a] == s[ps[a] as int];
    let ps2 = choose|ps: Seq<usize>| #[trigger] listing(rows, ps) && o2.len() == ps.len()
        && forall|a: int| 0 <= a < o2.len() ==> #[trigger] o2[a] == s[ps[a] as int];
    lemma_listing_unique(rows, ps1, ps2);
    assert(out =~= o2);
}

pub proof fn lemma_tt_list(s: Seq<TrackedThreadRecord>, work_unit_id: Seq<char>, include_deleted: bool, out: Seq<TrackedThreadRecord>)
    requires
        tt_listed(s, work_unit_id, include_deleted, out),
    ensures
        out == tt_list(s, work_unit_id, include_deleted),
{
    let o2 = tt_list(s, work_unit_id, include_deleted);
    let rows = tt_rows(s, work_unit_id, include_deleted);
    let ps1 = choose|ps: Seq<usize>| #[trigger] listing(rows, ps) && out.len() == ps.len()
        && forall|a: int| 0 <= a < out.len() ==> #[trigger] out[a] == s[ps[a] as int];
    let ps2 = choose|ps: Seq<usize>| #[trigger] listing(rows, ps) && o2.len() == ps.len()
        && forall|a: int| 0 <= a < o2.len() ==> #[trigger] o2[a] == s[ps[a] as int];
    lemma_listing_unique(rows, ps1, ps2);
    assert(out =~= o2);
}

impl AuthorityState {
    /// The workstreams, most recently updated first; deleted ones only when asked for.
    pub fn list_workstreams(&self, include_deleted: bool) -> (r: Vec<WorkstreamRecord>)
        requires
            ws_unique(self.workstreams@),
        ensures
            ws_listed(self.workstreams@, include_deleted, r@),
            r@ == ws_list(self.workstreams@, include_deleted),
    {
        let ghost rows = ws_rows(self.workstreams@, include_deleted);
        let mut keys: Vec<ListKey> = Vec::new();
        let mut i: usize = 0;
        while i < self.workstreams.len()
            invariant
                i <= self.workstreams@.len(),
                rows == ws_rows(self.workstreams@, include_deleted),
                keys_match(rows.take(i as int), keys@),
            decreases self.workstreams.len() - i,
        {
            let row = &self.workstreams[i];
            let k = ListKey { updated_at: row.updated_at, id: row.id.clone(), pos: i };
            proof { lemma_keys_step(rows, i as int, keys@, k); }
            if include_deleted || row.deleted_at.is_none() {
                keys.push(k);
            }
            i = i + 1;
        }
        assert(rows.take(i as int) =~= rows);
        let ps = ordered_positions(&keys, Ghost(rows));
        let mut out: Vec<WorkstreamRecord> = Vec::new();
        let mut a: usize = 0;
        while a < ps.len()
            invariant
                a <= ps@.len(),
                listing(rows, ps@),
                rows == ws_rows(self.workstreams@, include_deleted),
                out@.len() == a,
                forall|q: int| 0 <= q < a ==> #[trigger] out@[q] == self.workstreams@[ps@[q] as int],
            decreases ps.len() - a,
        {
            assert(ps@[a as int] < rows.len());
            out.push(self.workstreams[ps[a]].copy());
            a = a + 1;
        }
        proof { lemma_ws_list(self.workstreams@, include_deleted, out@); }
        out
    }

    /// The work units, of one workstream or of all, most recently updated first; deleted ones
    /// only when asked for.
    pub fn list_work_units(&self, workstream_id: Option<&str>, include_deleted: bool) -> (r: Vec<WorkUnitRecord>)
        requires
            wu_unique(self.work_units@),
        ensures
            wu_listed(
                self.work_units@,
                match workstream_id {
                    Some(w) => Some(w@),
                    None => None,
                },
                include_deleted,
                r@,
            ),
            r@ == wu_list(
                self.work_units@,
                match workstream_id {
                    Some(w) => Some(w@),
                    None => None,
                },
                include_deleted,
            ),
    {
        let ghost parent = match workstream_id {
            Some(w) => Some(w@),
            None => None,
        };
        let ghost rows = wu_rows(self.work_units@, parent, include_deleted);
        let mut keys: Vec<ListKey> = Vec::new();
        let mut i: usize = 0;
        while i < self.work_units.len()
            invariant
                i <= self.work_units@.len(),
                rows == wu_rows(self.work_units@, parent, include_deleted),
                parent == match workstream_id {
                    Some(w) => Some(w@),
                    None => None,
                },
                keys_match(rows.take(i as int), keys@),
            decreases self.work_units.len() - i,
        {
            let row = &self.work_units[i];
            let k = ListKey { updated_at: row.updated_at, id: row.id.clone(), pos: i };
            proof { lemma_keys_step(rows, i as int, keys@, k); }
            let in_parent = match workstream_id {
                Some(w) => str_eq(row.workstream_id.as_str(), w),
                None => true,
            };
            if (include_deleted || row.deleted_at.is_none()) && in_parent {
                keys.push(k);
            }
            i = i + 1;
        }
        assert(rows.take(i as int) =~= rows);
        let ps = ordered_positions(&keys, Ghost(rows));
        let mut out: Vec<WorkUnitRecord> = Vec::new();
        let mut a: usize = 0;
        while a < ps.len()
            invariant
                a <= ps@.len(),
                listing(rows, ps@),
                rows == wu_rows(self.work_units@, parent, include_deleted),
                out@.len() == a,
                forall|q: int| 0 <= q < a ==> #[trigger] out@[q] == self.work_units@[ps@[q] as int],
            decreases ps.len() - a,
        {
            assert(ps@[a as int] < rows.len());
            out.push(self.work_units[ps[a]].copy());
            a = a + 1;
        }
        proof { lemma_wu_list(self.work_units@, parent, include_deleted, out@); }
        out
    }

    /// The tracked threads of a work unit, most recently updated first; deleted ones only when
    /// asked for.
    pub fn list_tracked_threads(&self, work_unit_id: &str, include_deleted: bool) -> (r: Vec<TrackedThreadRecord>)
        requires
            tt_unique(self.tracked_threads@),
        ensures
            tt_listed(self.tracked_threads@, work_unit_id@, include_deleted, r@),
            r@ == tt_list(self.tracked_threads@, work_unit_id@, include_deleted),
    {
        let ghost rows = tt_rows(self.tracked_threads@, work_unit_id@, include_deleted);
        let mut keys: Vec<ListKey> = Vec::new();
        let mut i: usize = 0;
        while i < self.tracked_threads.len()
            invariant
                i <= self.tracked_threads@.len(),
                rows == tt_rows(self.tracked_threads@, work_unit_id@, include_deleted),
                keys_match(rows.take(i as int), keys@),
            decreases self.tracked_threads.len() - i,
        {
            let row = &self.tracked_threads[i];
            let k = ListKey { updated_at: row.updated_at, id: row.id.clone(), pos: i };
            proof { lemma_keys_step(rows, i as int, keys@, k); }
            if (include_deleted || row.deleted_at.is_none()) && str_eq(row.work_unit_id.as_str(), work_unit_id) {
                keys.push(k);
            }
            i = i + 1;
        }
        assert(rows.take(i as int) =~= rows);
        let ps = ordered_positions(&keys, Ghost(rows));
        let mut out: Vec<TrackedThreadRecord> = Vec::new();
        let mut a: usize = 0;
        while a < ps.len()
            invariant
                a <= ps@.len(),
                listing(rows, ps@),
                rows == tt_rows(self.tracked_threads@, work_unit_id@, include_deleted),
                out@.len() == a,
                forall|q: int| 0 <= q < a ==> #[trigger] out@[q] == self.tracked_threads@[ps@[q] as int],
            decreases ps.len() - a,
        {
            assert(ps@[a as int] < rows.len());
            out.push(self.tracked_threads[ps[a]].copy());
            a = a + 1;
        }
        proof { lemma_tt_list(self.tracked_threads@, work_unit_id@, include_deleted, out@); }
        out
    }
}

/// A listing names each row at most once, so it is no longer than the rows.
pub proof fn lemma_listing_len(rows: Seq<RowKey>, ps: Seq<usize>)
    requires
        listing(rows, ps),
    ensures
        ps.len() <= rows.len(),
{
    let pi = ps.map_values(|x: usize| x as int);
    assert forall|a: int, c: int| 0 <= a < pi.len() && 0 <= c < pi.len() && a != c implies pi[a] != pi[c] by {
        let (lo, hi) = if a < c { (a, c) } else { (c, a) };
        assert(key_before(rows[ps[lo] as int].at, rows[ps[lo] as int].id, rows[ps[hi] as int].at, rows[ps[hi] as int].id));
        lemma_key_order(
            rows[ps[lo] as int].at, rows[ps[lo] as int].id,
            rows[ps[lo] as int].at, rows[ps[lo] as int].id,
            rows[ps[lo] as int].at, rows[ps[lo] as int].id,
        );
    }
    assert(pi.no_duplicates());
    pi.unique_seq_to_set();
    vstd::set_lib::lemma_int_range(0, rows.len() as int);
    assert forall|x: int| pi.to_set().contains(x) implies vstd::set_lib::set_int_range(0, rows.len() as int).contains(x) by {
        let a = choose|a: int| 0 <= a < pi.len() && pi[a] == x;
        assert(ps[a] < rows.len());
    }
    vstd::set_lib::lemma_len_subset(pi.to_set(), vstd::set_lib::set_int_range(0, rows.len() as int));
}

/// The tracked threads a query lists are no more than the table holds.
pub proof fn lemma_tt_listed_len(s: Seq<TrackedThreadRecord>, work_unit_id: Seq<char>, include_deleted: bool, out: Seq<TrackedThreadRecord>)
    requires
        tt_listed(s, work_unit_id, include_deleted, out),
    ensures
        out.len() <= s.len(),
{
    let ps = choose|ps: Seq<usize>| #[trigger] listing(tt_rows(s, work_unit_id, include_deleted), ps) && out.len() == ps.len()
        && forall|a: int| 0 <= a < out.len() ==> #[trigger] out[a] == s[ps[a] as int];
    lemma_listing_len(tt_rows(s, work_unit_id, include_deleted), ps);
}

} // verus!
