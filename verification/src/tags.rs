use vstd::prelude::*;
use vstd::hash_set::StringHashSet;

use crate::text::texts_of;

verus! {

broadcast use vstd::hash_set::group_hash_set_axioms;

/// The filenames found for each tag, as texts.
pub open spec fn found_texts(per_tag: Seq<Vec<String>>) -> Seq<Seq<Seq<char>>> {
    per_tag.map_values(|v: Vec<String>| texts_of(v@))
}

/// The filenames found for the first `k` tags.
pub open spec fn seen_before(found: Seq<Seq<Seq<char>>>, k: int) -> Set<Seq<char>>
    decreases k,
{
    if k <= 0 {
        Set::empty()
    } else {
        seen_before(found, k - 1).union(found[k - 1].to_set())
    }
}

/// The sum of the counts.
pub open spec fn sum_counts(counts: Seq<usize>) -> nat
    decreases counts.len(),
{
    if counts.len() == 0 {
        0
    } else {
        sum_counts(counts.drop_last()) + counts.last() as nat
    }
}

/// Counts, tag by tag, the filenames that no earlier tag found; `found[k]` holds the
/// filenames (with repeats) that tag `k` matched. Returns the count of each tag and the
/// number of distinct filenames found in all.
pub fn count_new_filenames(found: &[Vec<String>]) -> (r: (Vec<usize>, usize))
    ensures
        r.0.len() == found.len(),
        forall|k: int|
            0 <= k < found.len() ==> r.0@[k] == #[trigger] seen_before(found_texts(found@), k + 1).difference(
                seen_before(found_texts(found@), k),
            ).len(),
        r.1 == seen_before(found_texts(found@), found.len() as int).len(),
        r.1 == sum_counts(r.0@),
{
    let ghost f = found_texts(found@);
    let mut processed = StringHashSet::new();
    let mut counts: Vec<usize> = Vec::new();
    let mut total: usize = 0;
    let n = found.len();
    for k in 0..n
        invariant
            n == found.len(),
            f == found_texts(found@),
            counts.len() == k,
            processed@ == seen_before(f, k as int),
            processed@.finite(),
            total == processed@.len(),
            total == sum_counts(counts@),
            forall|a: int|
                0 <= a < k ==> counts@[a] == #[trigger] seen_before(f, a + 1).difference(seen_before(f, a)).len(),
    {
        let rows = &found[k];
        let ghost start = processed@;
        let m = rows.len();
        let mut count: usize = 0;
        assert(f[k as int] == texts_of(rows@));
        assert(start.difference(start) =~= Set::<Seq<char>>::empty());
        assert(processed@ =~= start.union(f[k as int].take(0).to_set()));
        for t in 0..m
            invariant
                n == found.len(),
                f == found_texts(found@),
                0 <= k < n,
                *rows == found@[k as int],
                m == rows.len(),
                f[k as int] == texts_of(rows@),
                start == seen_before(f, k as int),
                start.finite(),
                processed@ == start.union(f[k as int].take(t as int).to_set()),
                processed@.finite(),
                count == processed@.difference(start).len(),
                total + count == processed@.len(),
        {
            let ghost before = processed@;
            let name = rows[t].clone();
            assert(f[k as int][t as int] == name@);
            assert(f[k as int].take(t + 1).to_set() =~= f[k as int].take(t as int).to_set().insert(name@)) by {
                assert(f[k as int].take(t + 1) =~= f[k as int].take(t as int).push(name@));
                f[k as int].take(t as int).lemma_push_to_set_commute(name@);
            }
            if processed.insert(name) {
                assert(processed@.difference(start) =~= before.difference(start).insert(f[k as int][t as int]));
                assert(processed.spec_len() == processed@.len());
                count = count + 1;
            } else {
                assert(processed@ =~= before);
            }
            assert(processed@ =~= start.union(f[k as int].take(t + 1).to_set()));
        }
        assert(f[k as int].take(m as int) =~= f[k as int]);
        assert(processed@ == seen_before(f, k + 1));
        assert(processed.spec_len() == processed@.len());
        let ghost old_counts = counts@;
        counts.push(count);
        assert(counts@.drop_last() =~= old_counts);
        total = total + count;
    }
    (counts, total)
}

} // verus!
