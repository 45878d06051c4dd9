use vstd::prelude::*;
use vstd::hash_map::StringHashMap;

verus! {

/// A row of the metadata table: its row id and its filename.
#[derive(Debug, PartialEq, Eq, Hash)]
pub struct FileRecord {
    pub id: usize,
    pub filename: String,
}

/// The row ids that share one filename.
#[derive(Debug)]
pub struct IdGroup {
    pub filename: String,
    pub ids: Vec<usize>,
}

/// The ids of the records among the first `n` of `records` whose filename is `name`.
pub open spec fn ids_in(records: Seq<FileRecord>, n: int, name: Seq<char>) -> Set<usize> {
    Set::new(
        |id: usize|
            exists|i: int|
                0 <= i < n && #[trigger] records[i].filename@ == name && records[i].id == id,
    )
}

/// The ids of all records whose filename is `name`.
pub open spec fn named_ids(records: Seq<FileRecord>, name: Seq<char>) -> Set<usize> {
    ids_in(records, records.len() as int, name)
}

/// Whether two records with different ids share the filename `name`.
pub open spec fn is_duplicated(records: Seq<FileRecord>, name: Seq<char>) -> bool {
    exists|i: int, j: int|
        0 <= i < records.len() && 0 <= j < records.len() && #[trigger] records[i].filename@ == name
            && #[trigger] records[j].filename@ == name && records[i].id != records[j].id
}

/// No record occurs twice (the same id with the same filename).
pub open spec fn distinct_records(records: Seq<FileRecord>) -> bool {
    forall|i: int, j: int|
        0 <= i < j < records.len() ==> !(#[trigger] records[i].id == #[trigger] records[j].id
            && records[i].filename@ == records[j].filename@)
}

/// No filename names two groups.
pub open spec fn distinct_names(groups: Seq<IdGroup>) -> bool {
    forall|k: int, l: int|
        0 <= k < l < groups.len() ==> #[trigger] groups[k].filename@ != #[trigger] groups[l].filename@
}

/// The groups as a map from filename to its set of ids.
pub open spec fn group_map(groups: Seq<IdGroup>) -> Map<Seq<char>, Set<usize>> {
    Map::new(
        |name: Seq<char>| exists|k: int| 0 <= k < groups.len() && #[trigger] groups[k].filename@ == name,
        |name: Seq<char>|
            groups[choose|k: int| 0 <= k < groups.len() && #[trigger] groups[k].filename@ == name].ids@.to_set(),
    )
}

/// The filenames shared by records with different ids, each with all of its ids.
pub open spec fn duplicate_map(records: Seq<FileRecord>) -> Map<Seq<char>, Set<usize>> {
    Map::new(|name: Seq<char>| is_duplicated(records, name), |name: Seq<char>| named_ids(records, name))
}

/// `groups` holds, once each, the filenames that records with different ids share, each
/// with all the ids of its records.
pub open spec fn is_duplicate_grouping(records: Seq<FileRecord>, groups: Seq<IdGroup>) -> bool {
    &&& distinct_names(groups)
    &&& forall|k: int|
        0 <= k < groups.len() ==> {
            &&& (#[trigger] groups[k]).ids@.no_duplicates()
            &&& groups[k].ids.len() > 1
            &&& groups[k].ids@.to_set() == named_ids(records, groups[k].filename@)
        }
    &&& forall|name: Seq<char>|
        is_duplicated(records, name) <==> exists|k: int|
            0 <= k < groups.len() && #[trigger] groups[k].filename@ == name
}

/// Groups the records by filename and keeps the filenames that more than one id carries.
pub fn convert_and_filter(records: &[FileRecord]) -> (res: Vec<IdGroup>)
    requires
        distinct_records(records@),
    ensures
        is_duplicate_grouping(records@, res@),
        group_map(res@) == duplicate_map(records@),
{
    let mut index: StringHashMap<usize> = StringHashMap::new();
    let mut names: Vec<String> = Vec::new();
    let mut lists: Vec<Vec<usize>> = Vec::new();
    let n = records.len();
    for r in 0..n
        invariant
            n == records.len(),
            distinct_records(records@),
            names.len() == lists.len(),
            forall|name: Seq<char>|
                #[trigger] index@.contains_key(name) ==> index@[name] < names.len() && names@[index@[name] as int]@ == name,
            forall|k: int| 0 <= k < names.len() ==> #[trigger] index@.contains_key(names@[k]@),
            forall|k: int, l: int| 0 <= k < l < names.len() ==> #[trigger] names@[k]@ != #[trigger] names@[l]@,
            forall|k: int|
                0 <= k < lists.len() ==> {
                    &&& (#[trigger] lists@[k])@.no_duplicates()
                    &&& lists@[k].len() >= 1
                    &&& lists@[k]@.to_set() == ids_in(records@, r as int, names@[k]@)
                },
            forall|i: int| 0 <= i < r ==> #[trigger] index@.contains_key(records@[i].filename@),
    {
        let rec = &records[r];
        let ghost name = rec.filename@;
        match index.get(rec.filename.as_str()) {
            Some(g) => {
                let g = *g;
                assert(!lists@[g as int]@.contains(rec.id)) by {
                    if lists@[g as int]@.contains(rec.id) {
                        assert(lists@[g as int]@.to_set().contains(rec.id));
                        let i = choose|i: int|
                            0 <= i < r && #[trigger] records@[i].filename@ == name && records@[i].id == rec.id;
                        assert(records@[i].id == records@[r as int].id);
                    }
                }
                let ghost old_lists = lists@;
                lists[g].push(rec.id);
                assert forall|k: int| 0 <= k < lists.len() implies {
                    &&& (#[trigger] lists@[k])@.no_duplicates()
                    &&& lists@[k].len() >= 1
                    &&& lists@[k]@.to_set() == ids_in(records@, r + 1, names@[k]@)
                } by {
                    if k == g {
                        assert(lists@[k]@ == old_lists[k]@.push(rec.id));
                        assert(lists@[k]@.to_set() =~= ids_in(records@, r + 1, names@[k]@)) by {
                            assert forall|id: usize| ids_in(records@, r + 1, names@[k]@).contains(id)
                                implies lists@[k]@.to_set().contains(id) by {
                                let i = choose|i: int|
                                    0 <= i < r + 1 && #[trigger] records@[i].filename@ == names@[k]@
                                        && records@[i].id == id;
                                if i < r {
                                    assert(ids_in(records@, r as int, names@[k]@).contains(id));
                                    assert(old_lists[k]@.contains(id));
                                    assert(lists@[k]@[old_lists[k]@.index_of(id)] == id);
                                } else {
                                    assert(lists@[k]@[lists@[k]@.len() - 1] == id);
                                }
                            }
                            assert forall|id: usize| lists@[k]@.to_set().contains(id)
                                implies ids_in(records@, r + 1, names@[k]@).contains(id) by {
                                if id == rec.id {
                                    assert(records@[r as int].filename@ == names@[k]@);
                                } else {
                                    let p = lists@[k]@.index_of(id);
                                    assert(old_lists[k]@[p] == id);
                                    assert(old_lists[k]@.to_set().contains(id));
                                    let i = choose|i: int|
                                        0 <= i < r && #[trigger] records@[i].filename@ == names@[k]@
                                            && records@[i].id == id;
                                    assert(records@[i].filename@ == names@[k]@);
                                }
                            }
                        }
                    } else {
                        assert(lists@[k] == old_lists[k]);
                        assert(names@[k]@ != name);
                        assert(ids_in(records@, r + 1, names@[k]@) =~= ids_in(records@, r as int, names@[k]@));
                    }
                }
            },
            None => {
                let ghost old_lists = lists@;
                let ghost old_names = names@;
                let ghost old_index = index@;
                index.insert(rec.filename.clone(), names.len());
                names.push(rec.filename.clone());
                let mut fresh: Vec<usize> = Vec::new();
                fresh.push(rec.id);
                lists.push(fresh);
                assert forall|k: int| 0 <= k < lists.len() implies {
                    &&& (#[trigger] lists@[k])@.no_duplicates()
                    &&& lists@[k].len() >= 1
                    &&& lists@[k]@.to_set() == ids_in(records@, r + 1, names@[k]@)
                } by {
                    if k == lists.len() - 1 {
                        assert(lists@[k]@ == seq![rec.id]);
                        assert(lists@[k]@.to_set() =~= ids_in(records@, r + 1, names@[k]@)) by {
                            assert forall|id: usize| ids_in(records@, r + 1, names@[k]@).contains(id)
                                implies lists@[k]@.to_set().contains(id) by {
                                let i = choose|i: int|
                                    0 <= i < r + 1 && #[trigger] records@[i].filename@ == names@[k]@
                                        && records@[i].id == id;
                                if i < r {
                                    assert(old_index.contains_key(records@[i].filename@));
                                }
                                assert(lists@[k]@[0] == id);
                            }
                            assert forall|id: usize| lists@[k]@.to_set().contains(id)
                                implies ids_in(records@, r + 1, names@[k]@).contains(id) by {
                                assert(lists@[k]@[0] == id);
                                assert(records@[r as int].filename@ == names@[k]@);
                            }
                        }
                    } else {
                        assert(lists@[k] == old_lists[k]);
                        assert(names@[k] == old_names[k]);
                        assert(old_index.contains_key(old_names[k]@));
                        assert(names@[k]@ != name);
                        assert(ids_in(records@, r + 1, names@[k]@) =~= ids_in(records@, r as int, names@[k]@));
                    }
                }
                assert forall|k: int, l: int| 0 <= k < l < names.len() implies #[trigger] names@[k]@
                    != #[trigger] names@[l]@ by {
                    if l == names.len() - 1 {
                        assert(old_index.contains_key(old_names[k]@));
                    }
                }
            },
        }
    }
    let mut res: Vec<IdGroup> = Vec::new();
    let ghost chosen: Seq<int> = Seq::empty();
    let ghost orig = lists@;
    let count = names.len();
    let mut k: usize = 0;
    while k < count
        invariant
            count == names.len(),
            names.len() == lists.len(),
            0 <= k <= count,
            distinct_records(records@),
            forall|name: Seq<char>|
                #[trigger] index@.contains_key(name) ==> index@[name] < names.len() && names@[index@[name] as int]@ == name,
            forall|a: int, b: int| 0 <= a < b < names.len() ==> #[trigger] names@[a]@ != #[trigger] names@[b]@,
            orig.len() == lists.len(),
            forall|a: int| k <= a < lists.len() ==> #[trigger] lists@[a] == orig[a],
            forall|a: int|
                0 <= a < orig.len() ==> {
                    &&& (#[trigger] orig[a])@.no_duplicates()
                    &&& orig[a].len() >= 1
                    &&& orig[a]@.to_set() == named_ids(records@, names@[a]@)
                },
            forall|i: int| 0 <= i < records.len() ==> #[trigger] index@.contains_key(records@[i].filename@),
            chosen.len() == res.len(),
            forall|q: int| 0 <= q < res.len() ==> 0 <= #[trigger] chosen[q] < k && res@[q].filename@ == names@[chosen[q]]@,
            forall|q: int, p: int| 0 <= q < p < res.len() ==> #[trigger] chosen[q] < #[trigger] chosen[p],
            forall|q: int|
                0 <= q < res.len() ==> {
                    &&& (#[trigger] res@[q]).ids@.no_duplicates()
                    &&& res@[q].ids.len() > 1
                    &&& res@[q].ids@.to_set() == named_ids(records@, res@[q].filename@)
                },
            forall|a: int|
                0 <= a < k && #[trigger] orig[a].len() > 1 ==> exists|q: int| 0 <= q < res.len() && #[trigger] chosen[q] == a,
        decreases count - k,
    {
        let ghost old_chosen = chosen;
        if lists[k].len() > 1 {
            let mut taken: Vec<usize> = Vec::new();
            std::mem::swap(&mut taken, &mut lists[k]);
            res.push(IdGroup { filename: names[k].clone(), ids: taken });
            proof {
                chosen = chosen.push(k as int);
            }
            assert(res@[res.len() - 1].ids@ == orig[k as int]@);
            assert(chosen[chosen.len() - 1] == k as int);
        }
        assert forall|a: int|
            0 <= a < k + 1 && #[trigger] orig[a].len() > 1 implies exists|q: int|
                0 <= q < res.len() && #[trigger] chosen[q] == a by {
            if a < k {
                let q = choose|q: int| 0 <= q < old_chosen.len() && #[trigger] old_chosen[q] == a;
                assert(chosen[q] == a);
            } else {
                assert(chosen[chosen.len() - 1] == a);
            }
        }
        k = k + 1;
    }
    assert forall|a: int, b: int| 0 <= a < b < res.len() implies #[trigger] res@[a].filename@
        != #[trigger] res@[b].filename@ by {
        assert(chosen[a] < chosen[b]);
    }
    assert forall|name: Seq<char>|
        is_duplicated(records@, name) implies exists|q: int|
            0 <= q < res.len() && #[trigger] res@[q].filename@ == name by {
        let (i, j) = choose|i: int, j: int|
            0 <= i < records.len() && 0 <= j < records.len() && #[trigger] records@[i].filename@ == name
                && #[trigger] records@[j].filename@ == name && records@[i].id != records@[j].id;
        assert(index@.contains_key(records@[i].filename@));
        let a = index@[name] as int;
        assert(named_ids(records@, name).contains(records@[i].id));
        assert(named_ids(records@, name).contains(records@[j].id));
        assert(orig[a].len() > 1) by {
            let l = orig[a]@;
            assert(l.to_set().contains(records@[i].id));
            assert(l.to_set().contains(records@[j].id));
            if l.len() <= 1 {
                assert(l[l.index_of(records@[i].id)] == records@[i].id);
                assert(l[l.index_of(records@[j].id)] == records@[j].id);
            }
        }
        let q = choose|q: int| 0 <= q < res.len() && #[trigger] chosen[q] == a;
        assert(res@[q].filename@ == name);
    }
    assert forall|name: Seq<char>|
        (exists|q: int| 0 <= q < res.len() && #[trigger] res@[q].filename@ == name) implies is_duplicated(
        records@,
        name,
    ) by {
        let q = choose|q: int| 0 <= q < res.len() && #[trigger] res@[q].filename@ == name;
        let l = res@[q].ids@;
        assert(l[0] != l[1]);
        assert(l.to_set().contains(l[0]));
        assert(l.to_set().contains(l[1]));
        assert(named_ids(records@, name).contains(l[0]));
        assert(named_ids(records@, name).contains(l[1]));
        let i = choose|i: int|
            0 <= i < records.len() && #[trigger] records@[i].filename@ == name && records@[i].id == l[0];
        let j = choose|j: int|
            0 <= j < records.len() && #[trigger] records@[j].filename@ == name && records@[j].id == l[1];
        assert(records@[i].filename@ == name && records@[j].filename@ == name);
    }
    proof {
        law_grouping_is_the_duplicate_map(records@, res@);
    }
    res
}

/// The (filename, id) pairs of a list of records.
pub open spec fn record_pairs(records: Seq<FileRecord>) -> Set<(Seq<char>, usize)> {
    Set::new(
        |p: (Seq<char>, usize)|
            exists|i: int| 0 <= i < records.len() && #[trigger] records[i].filename@ == p.0 && records[i].id == p.1,
    )
}

/// The (filename, id) pairs marked for deletion: those of the groups, except, in a group of
/// more than one id, the id that `best` names for it.
pub open spec fn marked_pairs(groups: Seq<IdGroup>, best: Seq<Option<usize>>) -> Set<(Seq<char>, usize)> {
    Set::new(
        |p: (Seq<char>, usize)|
            exists|k: int|
                0 <= k < groups.len() && #[trigger] groups[k].filename@ == p.0 && groups[k].ids@.contains(p.1)
                    && !(groups[k].ids.len() > 1 && best[k] == Some(p.1)),
    )
}

/// The (filename, id) pairs of a list of groups.
pub open spec fn group_pairs(groups: Seq<IdGroup>) -> Set<(Seq<char>, usize)> {
    Set::new(
        |p: (Seq<char>, usize)|
            exists|k: int| 0 <= k < groups.len() && #[trigger] groups[k].filename@ == p.0 && groups[k].ids@.contains(p.1),
    )
}

/// The groups are what a map from filename to a set of ids holds: no filename twice and
/// no id twice within a group.
pub open spec fn well_formed_groups(groups: Seq<IdGroup>) -> bool {
    &&& distinct_names(groups)
    &&& forall|k: int| 0 <= k < groups.len() ==> (#[trigger] groups[k]).ids@.no_duplicates()
}

/// Flattens the groups into one record per (filename, id) pair, leaving out, for each group
/// of more than one id, the id that `best` names for it.
pub fn flatten_without_best(groups: Vec<IdGroup>, best: &[Option<usize>]) -> (res: Vec<FileRecord>)
    requires
        well_formed_groups(groups@),
        best.len() == groups.len(),
    ensures
        distinct_records(res@),
        record_pairs(res@) == marked_pairs(groups@, best@),
{
    let ghost gs = groups@;
    let mut res: Vec<FileRecord> = Vec::new();
    let n = groups.len();
    let mut k: usize = 0;
    while k < n
        invariant
            n == groups.len(),
            gs == groups@,
            best.len() == n,
            well_formed_groups(gs),
            0 <= k <= n,
            distinct_records(res@),
            forall|i: int, a: int|
                0 <= i < res.len() && k <= a < n ==> #[trigger] res@[i].filename@ != #[trigger] gs[a].filename@,
            record_pairs(res@) == marked_pairs(gs.take(k as int), best@),
        decreases n - k,
    {
        let g = &groups[k];
        let drop_best = g.ids.len() > 1;
        let ghost before = res@;
        let m = g.ids.len();
        let mut t: usize = 0;
        while t < m
            invariant
                n == groups.len(),
                gs == groups@,
                best.len() == n,
                well_formed_groups(gs),
                0 <= k < n,
                *g == gs[k as int],
                m == g.ids.len(),
                drop_best == (m > 1),
                0 <= t <= m,
                res.len() >= before.len(),
                forall|i: int| 0 <= i < before.len() ==> #[trigger] res@[i] == before[i],
                distinct_records(res@),
                forall|i: int, a: int|
                    0 <= i < before.len() && k <= a < n ==> #[trigger] before[i].filename@ != #[trigger] gs[a].filename@,
                forall|i: int|
                    before.len() <= i < res.len() ==> (#[trigger] res@[i]).filename@ == g.filename@
                        && exists|u: int| 0 <= u < t && g.ids@[u] == res@[i].id,
                record_pairs(res@) == marked_pairs(gs.take(k as int), best@).union(
                    Set::new(
                        |p: (Seq<char>, usize)|
                            p.0 == g.filename@ && exists|u: int|
                                0 <= u < t && g.ids@[u] == p.1 && !(drop_best && best@[k as int] == Some(p.1)),
                    ),
                ),
            decreases m - t,
        {
            let id = g.ids[t];
            let skip = match best[k] {
                Some(b) => drop_best && b == id,
                None => false,
            };
            let ghost mid = res@;
            if !skip {
                res.push(FileRecord { id, filename: g.filename.clone() });
                assert forall|i: int, j: int|
                    0 <= i < j < res.len() implies !(#[trigger] res@[i].id == #[trigger] res@[j].id
                        && res@[i].filename@ == res@[j].filename@) by {
                    if j == res.len() - 1 {
                        if i >= before.len() {
                            let u = choose|u: int| 0 <= u < t && g.ids@[u] == res@[i].id;
                            assert(g.ids@[u] != g.ids@[t as int]);
                        } else {
                            assert(before[i].filename@ != gs[k as int].filename@);
                        }
                    }
                }
            }
            assert(record_pairs(res@) =~= marked_pairs(gs.take(k as int), best@).union(
                Set::new(
                    |p: (Seq<char>, usize)|
                        p.0 == g.filename@ && exists|u: int|
                            0 <= u < t + 1 && g.ids@[u] == p.1 && !(drop_best && best@[k as int] == Some(p.1)),
                ),
            )) by {
                assert forall|p: (Seq<char>, usize)| record_pairs(res@).contains(p) implies marked_pairs(
                    gs.take(k as int),
                    best@,
                ).union(
                    Set::new(
                        |p: (Seq<char>, usize)|
                            p.0 == g.filename@ && exists|u: int|
                                0 <= u < t + 1 && g.ids@[u] == p.1 && !(drop_best && best@[k as int] == Some(p.1)),
                    ),
                ).contains(p) by {
                    let i = choose|i: int|
                        0 <= i < res.len() && #[trigger] res@[i].filename@ == p.0 && res@[i].id == p.1;
                    if i < mid.len() {
                        assert(record_pairs(mid).contains(p));
                    }
                }
                assert forall|p: (Seq<char>, usize)| marked_pairs(gs.take(k as int), best@).union(
                    Set::new(
                        |p: (Seq<char>, usize)|
                            p.0 == g.filename@ && exists|u: int|
                                0 <= u < t + 1 && g.ids@[u] == p.1 && !(drop_best && best@[k as int] == Some(p.1)),
                    ),
                ).contains(p) implies record_pairs(res@).contains(p) by {
                    if marked_pairs(gs.take(k as int), best@).contains(p) {
                        assert(record_pairs(mid).contains(p));
                        let i = choose|i: int|
                            0 <= i < mid.len() && #[trigger] mid[i].filename@ == p.0 && mid[i].id == p.1;
                        assert(res@[i] == mid[i]);
                    } else {
                        let u = choose|u: int|
                            0 <= u < t + 1 && g.ids@[u] == p.1 && !(drop_best && best@[k as int] == Some(p.1));
                        if u < t {
                            assert(record_pairs(mid).contains(p));
                            let i = choose|i: int|
                                0 <= i < mid.len() && #[trigger] mid[i].filename@ == p.0 && mid[i].id == p.1;
                            assert(res@[i] == mid[i]);
                        } else {
                            assert(res@[res.len() - 1].filename@ == p.0);
                        }
                    }
                }
            }
            t = t + 1;
        }
        assert forall|i: int, a: int|
            0 <= i < res.len() && k + 1 <= a < n implies #[trigger] res@[i].filename@ != #[trigger] gs[a].filename@ by {
            if i < before.len() {
                assert(res@[i] == before[i]);
                assert(before[i].filename@ != gs[a].filename@);
            } else {
                assert(gs[k as int].filename@ != gs[a].filename@);
            }
        }
        assert(marked_pairs(gs.take(k + 1), best@) =~= marked_pairs(gs.take(k as int), best@).union(
            Set::new(
                |p: (Seq<char>, usize)|
                    p.0 == g.filename@ && exists|u: int|
                        0 <= u < m && g.ids@[u] == p.1 && !(drop_best && best@[k as int] == Some(p.1)),
            ),
        )) by {
            let lhs = marked_pairs(gs.take(k + 1), best@);
            assert forall|p: (Seq<char>, usize)| lhs.contains(p) implies marked_pairs(
                gs.take(k as int),
                best@,
            ).union(
                Set::new(
                    |p: (Seq<char>, usize)|
                        p.0 == g.filename@ && exists|u: int|
                            0 <= u < m && g.ids@[u] == p.1 && !(drop_best && best@[k as int] == Some(p.1)),
                ),
            ).contains(p) by {
                let a = choose|a: int|
                    0 <= a < k + 1 && #[trigger] gs.take(k + 1)[a].filename@ == p.0 && gs.take(k + 1)[a].ids@.contains(p.1)
                        && !(gs.take(k + 1)[a].ids.len() > 1 && best@[a] == Some(p.1));
                if a < k {
                    assert(gs.take(k as int)[a] == gs[a]);
                } else {
                    let u = gs[a].ids@.index_of(p.1);
                    assert(g.ids@[u] == p.1);
                }
            }
            assert forall|p: (Seq<char>, usize)| marked_pairs(gs.take(k as int), best@).union(
                Set::new(
                    |p: (Seq<char>, usize)|
                        p.0 == g.filename@ && exists|u: int|
                            0 <= u < m && g.ids@[u] == p.1 && !(drop_best && best@[k as int] == Some(p.1)),
                ),
            ).contains(p) implies lhs.contains(p) by {
                if marked_pairs(gs.take(k as int), best@).contains(p) {
                    let a = choose|a: int|
                        0 <= a < k && #[trigger] gs.take(k as int)[a].filename@ == p.0 && gs.take(k as int)[a].ids@.contains(p.1)
                            && !(gs.take(k as int)[a].ids.len() > 1 && best@[a] == Some(p.1));
                    assert(gs.take(k + 1)[a] == gs[a]);
                } else {
                    let u = choose|u: int|
                        0 <= u < m && g.ids@[u] == p.1 && !(drop_best && best@[k as int] == Some(p.1));
                    assert(gs.take(k + 1)[k as int] == gs[k as int]);
                    assert(gs[k as int].ids@.contains(p.1));
                }
            }
        }
        k = k + 1;
    }
    assert(gs.take(n as int) =~= gs);
    res
}

/// One record per (filename, id) pair of the groups.
pub fn convert_to_filerecords(groups: Vec<IdGroup>) -> (res: Vec<FileRecord>)
    requires
        well_formed_groups(groups@),
    ensures
        distinct_records(res@),
        record_pairs(res@) == group_pairs(groups@),
{
    let ghost gs = groups@;
    let mut none: Vec<Option<usize>> = Vec::new();
    for k in 0..groups.len()
        invariant
            none.len() == k,
            forall|a: int| 0 <= a < k ==> none@[a] is None,
    {
        none.push(None);
    }
    let res = flatten_without_best(groups, none.as_slice());
    assert(marked_pairs(gs, none@) =~= group_pairs(gs));
    res
}

/// Drops, from each group of more than one id, the id that the database ranks best for its
/// filename, and flattens what is left into records: the records to delete.
///
/// The ranking is read from the database, so what holds for every answer is stated: the
/// result is what [`flatten_without_best`] gives for some choice of best ids, one or none
/// per group.
pub fn remove_best_match(conn: &rusqlite::Connection, groups: Vec<IdGroup>) -> (res: Result<
    Vec<FileRecord>,
    rusqlite::Error,
>)
    requires
        well_formed_groups(groups@),
    ensures
        res matches Ok(recs) && distinct_records(recs@) && exists|best: Seq<Option<usize>>|
            best.len() == groups.len() && #[trigger] marked_pairs(groups@, best) == record_pairs(recs@),
{
    let mut best: Vec<Option<usize>> = Vec::new();
    for k in 0..groups.len()
        invariant
            best.len() == k,
    {
        if groups[k].ids.len() > 1 {
            match crate::db::get_best_record_id(conn, groups[k].filename.as_str()) {
                Ok(id) => best.push(Some(id)),
                Err(_) => best.push(None),
            }
        } else {
            best.push(None);
        }
    }
    let ghost gs = groups@;
    let recs = flatten_without_best(groups, best.as_slice());
    assert(marked_pairs(gs, best@) == record_pairs(recs@));
    Ok(recs)
}

/// The grouping holds exactly the records whose filename records with another id share:
/// nothing else is ever marked for deletion, and no such record is left out.
pub proof fn law_grouping_holds_exactly_the_duplicated_records(
    records: Seq<FileRecord>,
    groups: Seq<IdGroup>,
)
    requires
        is_duplicate_grouping(records, groups),
    ensures
        group_pairs(groups) == Set::new(
            |p: (Seq<char>, usize)| record_pairs(records).contains(p) && is_duplicated(records, p.0),
        ),
{
    let rhs = Set::new(
        |p: (Seq<char>, usize)| record_pairs(records).contains(p) && is_duplicated(records, p.0),
    );
    assert forall|p: (Seq<char>, usize)| group_pairs(groups).contains(p) implies rhs.contains(p) by {
        let k = choose|k: int|
            0 <= k < groups.len() && #[trigger] groups[k].filename@ == p.0 && groups[k].ids@.contains(p.1);
        assert(groups[k].ids@.to_set().contains(p.1));
        assert(named_ids(records, p.0).contains(p.1));
        let i = choose|i: int|
            0 <= i < records.len() && #[trigger] records[i].filename@ == p.0 && records[i].id == p.1;
        assert(record_pairs(records).contains(p));
    }
    assert forall|p: (Seq<char>, usize)| rhs.contains(p) implies group_pairs(groups).contains(p) by {
        let k = choose|k: int| 0 <= k < groups.len() && #[trigger] groups[k].filename@ == p.0;
        let i = choose|i: int|
            0 <= i < records.len() && #[trigger] records[i].filename@ == p.0 && records[i].id == p.1;
        assert(named_ids(records, p.0).contains(p.1));
        assert(groups[k].ids@.to_set().contains(p.1));
    }
    assert(group_pairs(groups) =~= rhs);
}

/// In a group of more than one id, the record ranked best is never marked for deletion and
/// every other record is: one record of each duplicated filename is kept.
pub proof fn law_best_record_is_the_one_kept(groups: Seq<IdGroup>, best: Seq<Option<usize>>, k: int)
    requires
        well_formed_groups(groups),
        best.len() == groups.len(),
        0 <= k < groups.len(),
        groups[k].ids.len() > 1,
        best[k] matches Some(b) && groups[k].ids@.contains(b),
    ensures
        !marked_pairs(groups, best).contains((groups[k].filename@, best[k]->0)),
        forall|id: usize|
            groups[k].ids@.contains(id) && id != best[k]->0 ==> #[trigger] marked_pairs(groups, best).contains(
                (groups[k].filename@, id),
            ),
{
    let name = groups[k].filename@;
    if marked_pairs(groups, best).contains((name, best[k]->0)) {
        let a = choose|a: int|
            0 <= a < groups.len() && #[trigger] groups[a].filename@ == name && groups[a].ids@.contains(best[k]->0)
                && !(groups[a].ids.len() > 1 && best[a] == Some(best[k]->0));
        if a != k {
            if a < k {
                assert(groups[a].filename@ != groups[k].filename@);
            } else {
                assert(groups[k].filename@ != groups[a].filename@);
            }
        }
    }
    assert forall|id: usize|
        groups[k].ids@.contains(id) && id != best[k]->0 implies #[trigger] marked_pairs(groups, best).contains(
        (name, id),
    ) by {
        assert(groups[k].filename@ == name);
    }
}

/// For a group whose filename is `name`, the ids of `name` among records that hold exactly
/// the groups' pairs are that group's ids.
proof fn lemma_named_ids_of_flattened(records: Seq<FileRecord>, groups: Seq<IdGroup>, k: int)
    requires
        distinct_names(groups),
        record_pairs(records) == group_pairs(groups),
        0 <= k < groups.len(),
    ensures
        named_ids(records, groups[k].filename@) == groups[k].ids@.to_set(),
{
    let name = groups[k].filename@;
    assert forall|id: usize| named_ids(records, name).contains(id) implies groups[k].ids@.to_set().contains(id) by {
        let i = choose|i: int| 0 <= i < records.len() && #[trigger] records[i].filename@ == name && records[i].id == id;
        assert(record_pairs(records).contains((name, id)));
        let a = choose|a: int|
            0 <= a < groups.len() && #[trigger] groups[a].filename@ == name && groups[a].ids@.contains(id);
        if a != k {
            if a < k {
                assert(groups[a].filename@ != groups[k].filename@);
            } else {
                assert(groups[k].filename@ != groups[a].filename@);
            }
        }
    }
    assert forall|id: usize| groups[k].ids@.to_set().contains(id) implies named_ids(records, name).contains(id) by {
        assert(group_pairs(groups).contains((name, id)));
        let i = choose|i: int|
            0 <= i < records.len() && #[trigger] records[i].filename@ == name && records[i].id == id;
    }
    assert(named_ids(records, name) =~= groups[k].ids@.to_set());
}

/// The entries of a map from filename to ids that hold at least two ids.
pub open spec fn several_ids(m: Map<Seq<char>, Set<usize>>) -> Map<Seq<char>, Set<usize>> {
    Map::new(|name: Seq<char>| m.dom().contains(name) && m[name].len() >= 2, |name: Seq<char>| m[name])
}

/// A group named `name` is the only one of that name.
proof fn lemma_one_group_per_name(groups: Seq<IdGroup>, a: int, b: int)
    requires
        distinct_names(groups),
        0 <= a < groups.len(),
        0 <= b < groups.len(),
        groups[a].filename@ == groups[b].filename@,
    ensures
        a == b,
{
    if a < b {
        assert(groups[a].filename@ != groups[b].filename@);
    } else if b < a {
        assert(groups[b].filename@ != groups[a].filename@);
    }
}

/// Flattening groups into records and grouping those records again gives back the
/// filenames that hold at least two ids, each with the same ids: grouping keeps only what
/// is duplicated.
pub proof fn law_grouping_the_flattened_groups_gives_them_back(
    groups: Seq<IdGroup>,
    records: Seq<FileRecord>,
    regrouped: Seq<IdGroup>,
)
    requires
        well_formed_groups(groups),
        record_pairs(records) == group_pairs(groups),
        is_duplicate_grouping(records, regrouped),
    ensures
        group_map(regrouped) == several_ids(group_map(groups)),
{
    let m1 = group_map(regrouped);
    let m0 = group_map(groups);
    let m2 = several_ids(m0);
    assert forall|name: Seq<char>| m1.dom().contains(name) <==> m2.dom().contains(name) by {
        assert(is_duplicated(records, name) <==> exists|k: int|
            0 <= k < regrouped.len() && #[trigger] regrouped[k].filename@ == name);
        if is_duplicated(records, name) {
            let (i, j) = choose|i: int, j: int|
                0 <= i < records.len() && 0 <= j < records.len() && #[trigger] records[i].filename@ == name
                    && #[trigger] records[j].filename@ == name && records[i].id != records[j].id;
            assert(record_pairs(records).contains((name, records[i].id)));
            assert(record_pairs(records).contains((name, records[j].id)));
            let a = choose|a: int|
                0 <= a < groups.len() && #[trigger] groups[a].filename@ == name && groups[a].ids@.contains(records[i].id);
            let b = choose|b: int|
                0 <= b < groups.len() && #[trigger] groups[b].filename@ == name && groups[b].ids@.contains(records[j].id);
            lemma_one_group_per_name(groups, a, b);
            assert(m0.dom().contains(name));
            let k = choose|k: int| 0 <= k < groups.len() && #[trigger] groups[k].filename@ == name;
            lemma_one_group_per_name(groups, a, k);
            let l = groups[a].ids@;
            let x = choose|x: int| 0 <= x < l.len() && l[x] == records[i].id;
            let y = choose|y: int| 0 <= y < l.len() && l[y] == records[j].id;
            assert(l.len() >= 2);
            l.unique_seq_to_set();
            assert(m0[name] == l.to_set());
        }
        if m2.dom().contains(name) {
            let k = choose|k: int| 0 <= k < groups.len() && #[trigger] groups[k].filename@ == name;
            let l = groups[k].ids@;
            l.unique_seq_to_set();
            assert(m0[name] == l.to_set());
            lemma_named_ids_of_flattened(records, groups, k);
            assert(l[0] != l[1]);
            assert(l.to_set().contains(l[0]));
            assert(l.to_set().contains(l[1]));
            assert(named_ids(records, name).contains(l[0]));
            assert(named_ids(records, name).contains(l[1]));
            let i = choose|i: int|
                0 <= i < records.len() && #[trigger] records[i].filename@ == name && records[i].id == l[0];
            let j = choose|j: int|
                0 <= j < records.len() && #[trigger] records[j].filename@ == name && records[j].id == l[1];
            assert(records[i].filename@ == name && records[j].filename@ == name);
        }
    }
    assert(m1.dom() =~= m2.dom());
    assert forall|name: Seq<char>| m1.dom().contains(name) implies m1[name] == m2[name] by {
        let k1 = choose|k: int| 0 <= k < regrouped.len() && #[trigger] regrouped[k].filename@ == name;
        let k2 = choose|k: int| 0 <= k < groups.len() && #[trigger] groups[k].filename@ == name;
        lemma_named_ids_of_flattened(records, groups, k2);
    }
    assert(m1 =~= m2);
}

/// A grouping of the records, read as a map from filename to ids, is the map of every
/// duplicated filename to all its ids.
pub proof fn law_grouping_is_the_duplicate_map(records: Seq<FileRecord>, groups: Seq<IdGroup>)
    requires
        is_duplicate_grouping(records, groups),
    ensures
        group_map(groups) == duplicate_map(records),
{
    let m1 = group_map(groups);
    let m2 = duplicate_map(records);
    assert forall|name: Seq<char>| m1.dom().contains(name) <==> m2.dom().contains(name) by {
        assert(is_duplicated(records, name) <==> exists|k: int|
            0 <= k < groups.len() && #[trigger] groups[k].filename@ == name);
    }
    assert(m1.dom() =~= m2.dom());
    assert forall|name: Seq<char>| m1.dom().contains(name) implies m1[name] == m2[name] by {
        let k = choose|k: int| 0 <= k < groups.len() && #[trigger] groups[k].filename@ == name;
        assert(groups[k].ids@.to_set() == named_ids(records, groups[k].filename@));
    }
    assert(m1 =~= m2);
}

} // verus!
