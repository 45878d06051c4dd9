use vstd::prelude::*;
use vstd::hash_set::StringHashSet;

use crate::text::texts_of;

verus! {

/// The names of `a` that `b` also holds, each at its first place in `a`, in the order of `a`.
pub open spec fn common_in_order(a: Seq<Seq<char>>, b: Seq<Seq<char>>) -> Seq<Seq<char>>
    decreases a.len(),
{
    if a.len() == 0 {
        Seq::empty()
    } else {
        let r = common_in_order(a.drop_last(), b);
        let x = a.last();
        if b.contains(x) && !r.contains(x) {
            r.push(x)
        } else {
            r
        }
    }
}

/// The filenames that occur in both lists, each once, in the order of `a`.
pub fn common_filenames(a: &[String], b: &[String]) -> (r: Vec<String>)
    ensures
        texts_of(r@) == common_in_order(texts_of(a@), texts_of(b@)),
        texts_of(r@).no_duplicates(),
        texts_of(r@).to_set() == texts_of(a@).to_set().intersect(texts_of(b@).to_set()),
{
    let ghost ta = texts_of(a@);
    let ghost tb = texts_of(b@);
    let mut in_b = StringHashSet::new();
    for j in 0..b.len()
        invariant
            tb == texts_of(b@),
            in_b@ == tb.take(j as int).to_set(),
    {
        assert(tb.take(j + 1) =~= tb.take(j as int).push(b@[j as int]@));
        proof {
            tb.take(j as int).lemma_push_to_set_commute(b@[j as int]@);
        }
        in_b.insert(b[j].clone());
        assert(in_b@ =~= tb.take(j + 1).to_set());
    }
    assert(tb.take(b.len() as int) =~= tb);
    let mut seen = StringHashSet::new();
    let mut r: Vec<String> = Vec::new();
    for i in 0..a.len()
        invariant
            ta == texts_of(a@),
            tb == texts_of(b@),
            in_b@ == tb.to_set(),
            seen@ == texts_of(r@).to_set(),
            texts_of(r@).no_duplicates(),
            texts_of(r@).to_set() == ta.take(i as int).to_set().intersect(tb.to_set()),
            texts_of(r@) == common_in_order(ta.take(i as int), tb),
    {
        let x = &a[i];
        let ghost before = texts_of(r@);
        assert(ta.take(i + 1) =~= ta.take(i as int).push(x@));
        assert(ta.take(i + 1).drop_last() =~= ta.take(i as int));
        assert(ta.take(i + 1).last() == x@);
        assert(in_b@.contains(x@) == tb.contains(x@)) by {
            if tb.contains(x@) {
                let k = choose|k: int| 0 <= k < tb.len() && tb[k] == x@;
                assert(tb.to_set().contains(tb[k]));
            }
        }
        assert(seen@.contains(x@) == before.contains(x@)) by {
            if before.contains(x@) {
                let k = choose|k: int| 0 <= k < before.len() && before[k] == x@;
                assert(before.to_set().contains(before[k]));
            }
        }
        proof {
            ta.take(i as int).lemma_push_to_set_commute(x@);
            before.lemma_push_to_set_commute(x@);
        }
        if in_b.contains(x.as_str()) && !seen.contains(x.as_str()) {
            seen.insert(x.clone());
            r.push(x.clone());
            assert(texts_of(r@) =~= before.push(x@));
            assert(!before.contains(x@)) by {
                if before.contains(x@) {
                    assert(before.to_set().contains(x@));
                }
            }
        } else {
            assert(texts_of(r@) =~= before);
        }
        assert(seen@ =~= texts_of(r@).to_set());
        assert(texts_of(r@).to_set() =~= ta.take(i + 1).to_set().intersect(tb.to_set()));
    }
    assert(ta.take(a.len() as int) =~= ta);
    r
}

} // verus!
