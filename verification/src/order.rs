use vstd::prelude::*;

use crate::records::FileRecord;

verus! {

/// Item `x` comes before item `y` when its key is larger, or when the keys are equal and it
/// came first: a descending order that keeps ties in place.
pub open spec fn ranks_before(keys: Seq<i128>, x: int, y: int) -> bool {
    keys[x] > keys[y] || (keys[x] == keys[y] && x < y)
}

/// `p` lists every index of `keys` once, by descending key, ties in their first order.
pub open spec fn is_descending_order(keys: Seq<i128>, p: Seq<usize>) -> bool {
    &&& p.len() == keys.len()
    &&& forall|i: int| 0 <= i < p.len() ==> #[trigger] p[i] < keys.len()
    &&& forall|i: int, j: int|
        0 <= i < j < p.len() ==> ranks_before(keys, #[trigger] p[i] as int, #[trigger] p[j] as int)
}

/// A ranking lists each index once: sorting neither loses nor repeats a row.
pub proof fn law_ranking_is_a_permutation(keys: Seq<i128>, p: Seq<usize>)
    requires
        is_descending_order(keys, p),
    ensures
        p.no_duplicates(),
{
    assert forall|i: int, j: int| 0 <= i < p.len() && 0 <= j < p.len() && i != j implies p[i]
        != p[j] by {
        if i < j {
            assert(ranks_before(keys, p[i] as int, p[j] as int));
        } else {
            assert(ranks_before(keys, p[j] as int, p[i] as int));
        }
    }
}

fn before(keys: &[i128], x: usize, y: usize) -> (b: bool)
    requires
        x < keys.len(),
        y < keys.len(),
    ensures
        b == ranks_before(keys@, x as int, y as int),
{
    keys[x] > keys[y] || (keys[x] == keys[y] && x < y)
}

spec fn sorted_by(keys: Seq<i128>, s: Seq<usize>) -> bool {
    forall|i: int, j: int|
        0 <= i < j < s.len() ==> ranks_before(keys, #[trigger] s[i] as int, #[trigger] s[j] as int)
}

fn merge(keys: &[i128], a: &Vec<usize>, b: &Vec<usize>, split: usize) -> (r: Vec<usize>)
    requires
        sorted_by(keys@, a@),
        sorted_by(keys@, b@),
        forall|i: int| 0 <= i < a.len() ==> #[trigger] a@[i] < split,
        forall|i: int| 0 <= i < b.len() ==> split <= #[trigger] b@[i] < keys.len(),
    ensures
        r.len() == a.len() + b.len(),
        sorted_by(keys@, r@),
        forall|k: int| 0 <= k < r.len() ==> a@.contains(#[trigger] r@[k]) || b@.contains(r@[k]),
{
    let mut r: Vec<usize> = Vec::new();
    let mut ia: usize = 0;
    let mut ib: usize = 0;
    while ia < a.len() || ib < b.len()
        invariant
            sorted_by(keys@, a@),
            sorted_by(keys@, b@),
            forall|i: int| 0 <= i < a.len() ==> #[trigger] a@[i] < split,
            forall|i: int| 0 <= i < b.len() ==> split <= #[trigger] b@[i] < keys.len(),
            ia <= a.len(),
            ib <= b.len(),
            r.len() == ia + ib,
            sorted_by(keys@, r@),
            forall|k: int|
                0 <= k < r.len() ==> a@.take(ia as int).contains(#[trigger] r@[k]) || b@.take(
                    ib as int,
                ).contains(r@[k]),
            forall|k: int, j: int|
                0 <= k < r.len() && ia <= j < a.len() ==> ranks_before(
                    keys@,
                    #[trigger] r@[k] as int,
                    #[trigger] a@[j] as int,
                ),
            forall|k: int, j: int|
                0 <= k < r.len() && ib <= j < b.len() ==> ranks_before(
                    keys@,
                    #[trigger] r@[k] as int,
                    #[trigger] b@[j] as int,
                ),
        decreases a.len() + b.len() - ia - ib,
    {
        let take_a = if ia < a.len() && ib < b.len() {
            before(keys, a[ia], b[ib])
        } else {
            ia < a.len()
        };
        let ghost old_r = r@;
        if take_a {
            let x = a[ia];
            r.push(x);
            assert forall|j: int| ib <= j < b.len() implies ranks_before(keys@, x as int, #[trigger] b@[j] as int) by {
                if j > ib {
                    assert(ranks_before(keys@, b@[ib as int] as int, b@[j] as int));
                }
            }
            assert forall|j: int| ia + 1 <= j < a.len() implies ranks_before(keys@, x as int, #[trigger] a@[j] as int) by {
                assert(ranks_before(keys@, a@[ia as int] as int, a@[j] as int));
            }
            assert forall|k: int|
                0 <= k < r.len() implies a@.take(ia + 1).contains(#[trigger] r@[k]) || b@.take(
                    ib as int,
                ).contains(r@[k]) by {
                if k < old_r.len() {
                    assert(r@[k] == old_r[k]);
                    if a@.take(ia as int).contains(r@[k]) {
                        let j = choose|j: int| 0 <= j < ia && a@.take(ia as int)[j] == r@[k];
                        assert(a@.take(ia + 1)[j] == r@[k]);
                    }
                } else {
                    assert(a@.take(ia + 1)[ia as int] == r@[k]);
                }
            }
            ia = ia + 1;
        } else {
            let y = b[ib];
            assert(ia < a.len() ==> ranks_before(keys@, y as int, a@[ia as int] as int)) by {
                if ia < a.len() {
                    assert(a@[ia as int] < split);
                    assert(a@[ia as int] != y);
                }
            }
            r.push(y);
            assert forall|j: int| ia <= j < a.len() implies ranks_before(keys@, y as int, #[trigger] a@[j] as int) by {
                if j > ia {
                    assert(ranks_before(keys@, a@[ia as int] as int, a@[j] as int));
                }
            }
            assert forall|j: int| ib + 1 <= j < b.len() implies ranks_before(keys@, y as int, #[trigger] b@[j] as int) by {
                assert(ranks_before(keys@, b@[ib as int] as int, b@[j] as int));
            }
            assert forall|k: int|
                0 <= k < r.len() implies a@.take(ia as int).contains(#[trigger] r@[k]) || b@.take(
                    ib + 1,
                ).contains(r@[k]) by {
                if k < old_r.len() {
                    assert(r@[k] == old_r[k]);
                    if b@.take(ib as int).contains(r@[k]) {
                        let j = choose|j: int| 0 <= j < ib && b@.take(ib as int)[j] == r@[k];
                        assert(b@.take(ib + 1)[j] == r@[k]);
                    }
                } else {
                    assert(b@.take(ib + 1)[ib as int] == r@[k]);
                }
            }
            ib = ib + 1;
        }
    }
    assert(a@.take(ia as int) =~= a@);
    assert(b@.take(ib as int) =~= b@);
    r
}

fn sort_range(keys: &[i128], lo: usize, hi: usize) -> (r: Vec<usize>)
    requires
        lo <= hi <= keys.len(),
    ensures
        r.len() == hi - lo,
        sorted_by(keys@, r@),
        forall|i: int| 0 <= i < r.len() ==> lo <= #[trigger] r@[i] < hi,
    decreases hi - lo,
{
    if hi - lo == 0 {
        Vec::new()
    } else if hi - lo == 1 {
        let mut r = Vec::new();
        r.push(lo);
        r
    } else {
        let mid = lo + (hi - lo) / 2;
        let a = sort_range(keys, lo, mid);
        let b = sort_range(keys, mid, hi);
        let r = merge(keys, &a, &b, mid);
        assert forall|i: int| 0 <= i < r.len() implies lo <= #[trigger] r@[i] < hi by {
            if a@.contains(r@[i]) {
                let j = choose|j: int| 0 <= j < a.len() && a@[j] == r@[i];
                assert(lo <= a@[j] < mid);
            } else {
                let j = choose|j: int| 0 <= j < b.len() && b@[j] == r@[i];
                assert(mid <= b@[j] < hi);
            }
        }
        r
    }
}

/// The indices of `keys` by descending key, ties kept in their order: a stable sort.
pub fn descending_order(keys: &[i128]) -> (p: Vec<usize>)
    ensures
        is_descending_order(keys@, p@),
{
    sort_range(keys, 0, keys.len())
}

/// The keys by which records are ordered: their ids.
pub open spec fn id_keys(records: Seq<FileRecord>) -> Seq<i128> {
    records.map_values(|r: FileRecord| r.id as i128)
}

/// The records by descending id, records with equal ids in their first order.
pub open spec fn arranged_records(src: Seq<FileRecord>, r: Seq<FileRecord>, p: Seq<usize>) -> bool {
    &&& r.len() == p.len()
    &&& forall|k: int|
        0 <= k < r.len() ==> (#[trigger] r[k]).id == src[p[k] as int].id && r[k].filename@
            == src[p[k] as int].filename@
}

pub fn records_by_id_desc(records: &[FileRecord]) -> (r: Vec<FileRecord>)
    ensures
        exists|p: Seq<usize>|
            is_descending_order(id_keys(records@), p) && #[trigger] arranged_records(records@, r@, p),
{
    let mut keys: Vec<i128> = Vec::new();
    for i in 0..records.len()
        invariant
            keys@ =~= id_keys(records@.take(i as int)),
    {
        keys.push(records[i].id as i128);
    }
    assert(id_keys(records@.take(records.len() as int)) =~= id_keys(records@));
    let order = descending_order(keys.as_slice());
    let mut r: Vec<FileRecord> = Vec::new();
    for k in 0..order.len()
        invariant
            is_descending_order(keys@, order@),
            keys@ == id_keys(records@),
            r.len() == k,
            forall|q: int|
                0 <= q < k ==> (#[trigger] r@[q]).id == records@[order@[q] as int].id && r@[q].filename@
                    == records@[order@[q] as int].filename@,
    {
        let src = &records[order[k]];
        r.push(FileRecord { id: src.id, filename: src.filename.clone() });
    }
    assert(is_descending_order(id_keys(records@), order@));
    assert(arranged_records(records@, r@, order@));
    r
}

/// The keys by which (id, filename) rows are ordered: their ids.
pub open spec fn row_keys(rows: Seq<(i64, String)>) -> Seq<i128> {
    rows.map_values(|r: (i64, String)| r.0 as i128)
}

/// The (id, filename) rows by descending id, rows with equal ids in their first order.
pub open spec fn arranged_rows(src: Seq<(i64, String)>, r: Seq<(i64, String)>, p: Seq<usize>) -> bool {
    &&& r.len() == p.len()
    &&& forall|k: int|
        0 <= k < r.len() ==> (#[trigger] r[k]).0 == src[p[k] as int].0 && r[k].1@ == src[p[k] as int].1@
}

pub fn rows_by_id_desc(rows: &[(i64, String)]) -> (r: Vec<(i64, String)>)
    ensures
        exists|p: Seq<usize>|
            is_descending_order(row_keys(rows@), p) && #[trigger] arranged_rows(rows@, r@, p),
{
    let mut keys: Vec<i128> = Vec::new();
    for i in 0..rows.len()
        invariant
            keys@ =~= row_keys(rows@.take(i as int)),
    {
        keys.push(rows[i].0 as i128);
    }
    assert(row_keys(rows@.take(rows.len() as int)) =~= row_keys(rows@));
    let p = descending_order(keys.as_slice());
    let mut r: Vec<(i64, String)> = Vec::new();
    for k in 0..p.len()
        invariant
            is_descending_order(keys@, p@),
            keys@ == row_keys(rows@),
            r.len() == k,
            forall|q: int|
                0 <= q < k ==> (#[trigger] r@[q]).0 == rows@[p@[q] as int].0 && r@[q].1@
                    == rows@[p@[q] as int].1@,
    {
        let src = &rows[p[k]];
        r.push((src.0, src.1.clone()));
    }
    assert(is_descending_order(row_keys(rows@), p@));
    assert(arranged_rows(rows@, r@, p@));
    r
}

} // verus!
