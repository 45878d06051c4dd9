use vstd::prelude::*;
use vstd::hash_map::StringHashMap;

use crate::text::texts_of;

verus! {

/// A filename and the paths of its records.
#[derive(Debug)]
pub struct PathGroup {
    pub filename: String,
    pub paths: Vec<String>,
}

/// The paths, in row order, of the first `n` (filename, path) rows whose filename is `name`.
pub open spec fn paths_named(rows: Seq<(String, String)>, n: int, name: Seq<char>) -> Seq<Seq<char>>
    decreases n,
{
    if n <= 0 {
        Seq::empty()
    } else {
        let prev = paths_named(rows, n - 1, name);
        if rows[n - 1].0@ == name {
            prev.push(rows[n - 1].1@)
        } else {
            prev
        }
    }
}

/// `groups` lists once each filename of more than one row, with the paths of its rows in
/// row order.
pub open spec fn is_path_listing(rows: Seq<(String, String)>, groups: Seq<PathGroup>) -> bool {
    &&& forall|k: int, l: int|
        0 <= k < l < groups.len() ==> #[trigger] groups[k].filename@ != #[trigger] groups[l].filename@
    &&& forall|k: int|
        0 <= k < groups.len() ==> texts_of((#[trigger] groups[k]).paths@) == paths_named(
            rows,
            rows.len() as int,
            groups[k].filename@,
        ) && groups[k].paths.len() > 1
    &&& forall|name: Seq<char>|
        #![trigger paths_named(rows, rows.len() as int, name)]
        paths_named(rows, rows.len() as int, name).len() > 1 <==> exists|k: int|
            0 <= k < groups.len() && #[trigger] groups[k].filename@ == name
}

proof fn lemma_paths_named_empty_without_name(rows: Seq<(String, String)>, n: int, name: Seq<char>)
    requires
        0 <= n <= rows.len(),
        forall|i: int| 0 <= i < n ==> #[trigger] rows[i].0@ != name,
    ensures
        paths_named(rows, n, name) == Seq::<Seq<char>>::empty(),
    decreases n,
{
    if n > 0 {
        lemma_paths_named_empty_without_name(rows, n - 1, name);
    }
}

/// The filenames that more than one (filename, path) row carries, each with the paths of its
/// rows: the listing of filenames found in several places.
pub fn filenames_with_several_paths(rows: &[(String, String)]) -> (res: Vec<PathGroup>)
    ensures
        is_path_listing(rows@, res@),
{
    let mut index: StringHashMap<usize> = StringHashMap::new();
    let mut names: Vec<String> = Vec::new();
    let mut lists: Vec<Vec<String>> = Vec::new();
    let n = rows.len();
    for r in 0..n
        invariant
            n == rows.len(),
            names.len() == lists.len(),
            forall|name: Seq<char>|
                #[trigger] index@.contains_key(name) ==> index@[name] < names.len() && names@[index@[name] as int]@ == name,
            forall|k: int| 0 <= k < names.len() ==> #[trigger] index@.contains_key(names@[k]@),
            forall|k: int, l: int| 0 <= k < l < names.len() ==> #[trigger] names@[k]@ != #[trigger] names@[l]@,
            forall|k: int|
                0 <= k < lists.len() ==> texts_of((#[trigger] lists@[k])@) == paths_named(rows@, r as int, names@[k]@),
            forall|name: Seq<char>|
                !(#[trigger] index@.contains_key(name)) ==> paths_named(rows@, r as int, name) == Seq::<Seq<char>>::empty(),
    {
        let row = &rows[r];
        let ghost name = row.0@;
        let ghost old_lists = lists@;
        let ghost old_names = names@;
        let ghost old_index = index@;
        match index.get(row.0.as_str()) {
            Some(g) => {
                let g = *g;
                lists[g].push(row.1.clone());
                assert forall|k: int|
                    0 <= k < lists.len() implies texts_of((#[trigger] lists@[k])@) == paths_named(
                    rows@,
                    r + 1,
                    names@[k]@,
                ) by {
                    if k == g {
                        assert(texts_of(lists@[k]@) =~= texts_of(old_lists[k]@).push(row.1@));
                    } else {
                        assert(lists@[k] == old_lists[k]);
                        assert(names@[k]@ != name);
                    }
                }
            },
            None => {
                index.insert(row.0.clone(), names.len());
                names.push(row.0.clone());
                let mut fresh: Vec<String> = Vec::new();
                fresh.push(row.1.clone());
                lists.push(fresh);
                assert forall|k: int|
                    0 <= k < lists.len() implies texts_of((#[trigger] lists@[k])@) == paths_named(
                    rows@,
                    r + 1,
                    names@[k]@,
                ) by {
                    if k == lists.len() - 1 {
                        assert(!old_index.contains_key(name));
                        assert(paths_named(rows@, r as int, name) == Seq::<Seq<char>>::empty());
                        assert(texts_of(lists@[k]@) =~= Seq::<Seq<char>>::empty().push(row.1@));
                    } else {
                        assert(lists@[k] == old_lists[k]);
                        assert(names@[k] == old_names[k]);
                        assert(old_index.contains_key(old_names[k]@));
                        assert(names@[k]@ != name);
                    }
                }
                assert forall|k: int, l: int| 0 <= k < l < names.len() implies #[trigger] names@[k]@
                    != #[trigger] names@[l]@ by {
                    if l == names.len() - 1 {
                        assert(old_index.contains_key(old_names[k]@));
                    }
                }
            },
        }
    }
    let ghost orig = lists@;
    let mut res: Vec<PathGroup> = Vec::new();
    let ghost chosen: Seq<int> = Seq::empty();
    let count = names.len();
    let mut k: usize = 0;
    while k < count
        invariant
            count == names.len(),
            names.len() == lists.len(),
            orig.len() == lists.len(),
            0 <= k <= count,
            forall|name: Seq<char>|
                #[trigger] index@.contains_key(name) ==> index@[name] < names.len() && names@[index@[name] as int]@ == name,
            forall|a: int, b: int| 0 <= a < b < names.len() ==> #[trigger] names@[a]@ != #[trigger] names@[b]@,
            forall|a: int| k <= a < lists.len() ==> #[trigger] lists@[a] == orig[a],
            forall|a: int|
                0 <= a < orig.len() ==> texts_of((#[trigger] orig[a])@) == paths_named(rows@, rows.len() as int, names@[a]@),
            forall|name: Seq<char>|
                !(#[trigger] index@.contains_key(name)) ==> paths_named(rows@, rows.len() as int, name) == Seq::<Seq<char>>::empty(),
            chosen.len() == res.len(),
            forall|q: int| 0 <= q < res.len() ==> 0 <= #[trigger] chosen[q] < k && res@[q].filename@ == names@[chosen[q]]@,
            forall|q: int, p: int| 0 <= q < p < res.len() ==> #[trigger] chosen[q] < #[trigger] chosen[p],
            forall|q: int|
                0 <= q < res.len() ==> texts_of((#[trigger] res@[q]).paths@) == paths_named(
                    rows@,
                    rows.len() as int,
                    res@[q].filename@,
                ) && res@[q].paths.len() > 1,
            forall|a: int|
                0 <= a < k && #[trigger] orig[a].len() > 1 ==> exists|q: int| 0 <= q < res.len() && #[trigger] chosen[q] == a,
        decreases count - k,
    {
        let ghost old_chosen = chosen;
        if lists[k].len() > 1 {
            let mut taken: Vec<String> = Vec::new();
            std::mem::swap(&mut taken, &mut lists[k]);
            res.push(PathGroup { filename: names[k].clone(), paths: taken });
            proof {
                chosen = chosen.push(k as int);
            }
            assert(res@[res.len() - 1].paths@ == orig[k as int]@);
            assert(chosen[chosen.len() - 1] == k as int);
        }
        assert forall|a: int|
            0 <= a < k + 1 && #[trigger] orig[a].len() > 1 implies exists|q: int|
                0 <= q < res.len() && #[trigger] chosen[q] == a by {
            if a < k {
                let q = choose|q: int| 0 <= q < old_chosen.len() && #[trigger] old_chosen[q] == a;
                assert(chosen[q] == a);
            } else {
                assert(chosen[chosen.len() - 1] == a);
            }
        }
        k = k + 1;
    }
    assert forall|a: int, b: int| 0 <= a < b < res.len() implies #[trigger] res@[a].filename@
        != #[trigger] res@[b].filename@ by {
        assert(chosen[a] < chosen[b]);
    }
    assert forall|name: Seq<char>|
        #![trigger paths_named(rows@, rows.len() as int, name)]
        paths_named(rows@, rows.len() as int, name).len() > 1 <==> exists|q: int|
            0 <= q < res.len() && #[trigger] res@[q].filename@ == name by {
        if paths_named(rows@, rows.len() as int, name).len() > 1 {
            assert(index@.contains_key(name));
            let a = index@[name] as int;
            assert(texts_of(orig[a]@).len() == orig[a].len());
            let q = choose|q: int| 0 <= q < res.len() && #[trigger] chosen[q] == a;
            assert(res@[q].filename@ == name);
        }
        if exists|q: int| 0 <= q < res.len() && #[trigger] res@[q].filename@ == name {
            let q = choose|q: int| 0 <= q < res.len() && #[trigger] res@[q].filename@ == name;
            assert(texts_of(res@[q].paths@).len() == res@[q].paths.len());
        }
    }
    res
}

} // verus!
