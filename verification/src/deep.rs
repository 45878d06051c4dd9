use vstd::prelude::*;

use crate::records::{
    convert_and_filter, distinct_records, duplicate_map, group_map, is_duplicate_grouping, FileRecord,
    IdGroup,
};
use crate::text::chars_of;

verus! {

/// Whether a character is an ASCII digit.
pub open spec fn is_digit(c: char) -> bool {
    '0' <= c && c <= '9'
}

/// The index of the last `.` among the first `n` characters of `s`, or -1 where there is none.
pub open spec fn last_dot_before(s: Seq<char>, n: int) -> int
    decreases n,
{
    if n <= 0 {
        -1
    } else if s[n - 1] == '.' {
        n - 1
    } else {
        last_dot_before(s, n - 1)
    }
}

/// Whether `s[from..to]` is a part that copies of a file carry: a number, or `M`.
pub open spec fn is_variant_part(s: Seq<char>, from: int, to: int) -> bool {
    &&& from < to
    &&& (to == from + 1 && s[from] == 'M') || (forall|k: int| from <= k < to ==> is_digit(#[trigger] s[k]))
}

/// Where the stem `s[..end]` ends once its trailing `.1`, `.2`, `.M` parts are removed.
pub open spec fn stem_end(s: Seq<char>, end: int) -> int
    decreases end,
{
    let d = last_dot_before(s, end);
    if 0 <= d < end && is_variant_part(s, d + 1, end) {
        stem_end(s, d)
    } else {
        end
    }
}

/// The name under which a filename is compared with its copies: the numbered and `M` parts
/// before its extension are dropped, so `crash.flac`, `crash.1.flac`, `crash.1.2.1.flac` and
/// `crash.M.flac` all give `crash.flac`.
pub open spec fn base_name_spec(s: Seq<char>) -> Seq<char> {
    let d = last_dot_before(s, s.len() as int);
    if d < 0 {
        s
    } else {
        s.subrange(0, stem_end(s, d)) + s.subrange(d, s.len() as int)
    }
}

fn last_dot(v: &Vec<char>, n: usize) -> (r: Option<usize>)
    requires
        n <= v.len(),
    ensures
        match r {
            Some(d) => d < n && last_dot_before(v@, n as int) == d,
            None => last_dot_before(v@, n as int) < 0,
        },
{
    let mut m = n;
    while m > 0
        invariant
            m <= n <= v.len(),
            last_dot_before(v@, n as int) == last_dot_before(v@, m as int),
        decreases m,
    {
        if v[m - 1] == '.' {
            return Some(m - 1);
        }
        m = m - 1;
    }
    None
}

fn variant_part(v: &Vec<char>, from: usize, to: usize) -> (b: bool)
    requires
        to <= v.len(),
    ensures
        b == is_variant_part(v@, from as int, to as int),
{
    if from >= to {
        return false;
    }
    if to == from + 1 && v[from] == 'M' {
        return true;
    }
    let mut k = from;
    while k < to
        invariant
            from <= k <= to <= v.len(),
            from < to,
            !(to == from + 1 && v@[from as int] == 'M'),
            forall|m: int| from <= m < k ==> is_digit(#[trigger] v@[m]),
        decreases to - k,
    {
        if !('0' <= v[k] && v[k] <= '9') {
            return false;
        }
        k = k + 1;
    }
    true
}

/// The name under which `name` is compared with its copies.
pub fn base_name(name: &str) -> (r: String)
    ensures
        r@ == base_name_spec(name@),
{
    let v = chars_of(name);
    let n = v.len();
    match last_dot(&v, n) {
        None => String::from_str(name),
        Some(d) => {
            let mut end = d;
            loop
                invariant
                    end <= d < n,
                    n == v.len(),
                    v@ == name@,
                    stem_end(v@, d as int) == stem_end(v@, end as int),
                ensures
                    stem_end(v@, d as int) == end,
                decreases end,
            {
                match last_dot(&v, end) {
                    Some(p) => {
                        if variant_part(&v, p + 1, end) {
                            end = p;
                        } else {
                            break;
                        }
                    },
                    None => {
                        break;
                    },
                }
            }
            let mut r = String::from_str(name.substring_char(0, end));
            r.append(name.substring_char(d, n));
            r
        },
    }
}

proof fn lemma_last_dot_same_prefix(s1: Seq<char>, s2: Seq<char>, n: int)
    requires
        n <= s1.len(),
        n <= s2.len(),
        forall|k: int| 0 <= k < n ==> s1[k] == s2[k],
    ensures
        last_dot_before(s1, n) == last_dot_before(s2, n),
    decreases n,
{
    if n > 0 {
        lemma_last_dot_same_prefix(s1, s2, n - 1);
    }
}

proof fn lemma_last_dot_is(s: Seq<char>, d: int, n: int)
    requires
        0 <= d < n <= s.len(),
        s[d] == '.',
        forall|k: int| d < k < n ==> s[k] != '.',
    ensures
        last_dot_before(s, n) == d,
    decreases n,
{
    if n - 1 > d {
        lemma_last_dot_is(s, d, n - 1);
    }
}

proof fn lemma_stem_end_bounds(s: Seq<char>, n: int)
    requires
        0 <= n,
    ensures
        0 <= stem_end(s, n) <= n,
    decreases n,
{
    let d = last_dot_before(s, n);
    if 0 <= d < n && is_variant_part(s, d + 1, n) {
        lemma_stem_end_bounds(s, d);
    }
}

proof fn lemma_stem_end_same_prefix(s1: Seq<char>, s2: Seq<char>, n: int)
    requires
        0 <= n <= s1.len(),
        n <= s2.len(),
        forall|k: int| 0 <= k < n ==> s1[k] == s2[k],
    ensures
        stem_end(s1, n) == stem_end(s2, n),
    decreases n,
{
    lemma_last_dot_same_prefix(s1, s2, n);
    let d = last_dot_before(s1, n);
    if 0 <= d < n {
        assert(is_variant_part(s1, d + 1, n) == is_variant_part(s2, d + 1, n)) by {
            assert(forall|k: int| d + 1 <= k < n ==> s1[k] == s2[k]);
        }
        if is_variant_part(s1, d + 1, n) {
            lemma_stem_end_same_prefix(s1, s2, d);
        }
    }
}

/// A filename whose part before the extension is not a copy marker keeps that part: only
/// numbered parts and `M` are dropped, so `Door.L.wav` and `Door.R.wav` stay apart, as do
/// `take.v2.flac` and `take.flac`.
pub proof fn law_other_parts_are_kept(stem: Seq<char>, part: Seq<char>, ext: Seq<char>)
    requires
        forall|k: int| 0 <= k < part.len() ==> part[k] != '.',
        forall|k: int| 0 <= k < ext.len() ==> ext[k] != '.',
        part != seq!['M'],
        part.len() == 0 || exists|k: int| 0 <= k < part.len() && !('0' <= #[trigger] part[k] && part[k] <= '9'),
    ensures
        base_name_spec(stem + seq!['.'] + part + seq!['.'] + ext) == stem + seq!['.'] + part + seq!['.'] + ext,
{
    let s = stem + seq!['.'] + part + seq!['.'] + ext;
    let a = stem.len() as int;
    let d = a + 1 + part.len();
    assert(s[d] == '.');
    assert(s[a] == '.');
    assert forall|k: int| d < k < s.len() implies s[k] != '.' by {
        assert(s[k] == ext[k - d - 1]);
    }
    lemma_last_dot_is(s, d, s.len() as int);
    assert forall|k: int| a < k < d implies s[k] != '.' by {
        assert(s[k] == part[k - a - 1]);
    }
    lemma_last_dot_is(s, a, d);
    assert(!is_variant_part(s, a + 1, d)) by {
        if part.len() == 1 {
            assert(s[a + 1] == part[0]);
            assert(part =~= seq![part[0]]);
        }
        if part.len() > 0 {
            let k = choose|k: int| 0 <= k < part.len() && !('0' <= #[trigger] part[k] && part[k] <= '9');
            assert(s[a + 1 + k] == part[k]);
        }
    }
    assert(stem_end(s, d) == d);
    assert(s.subrange(0, d) + s.subrange(d, s.len() as int) =~= s);
}

/// Dropping a copy marker, a number or `M`, just before the extension gives the same base
/// name as the filename without it: `crash.1.flac` and `crash.M.flac` go with `crash.flac`,
/// and `crash.1.2.1.flac` with `crash.1.2.flac`.
pub proof fn law_copy_markers_are_dropped(stem: Seq<char>, part: Seq<char>, ext: Seq<char>)
    requires
        forall|k: int| 0 <= k < ext.len() ==> ext[k] != '.',
        part == seq!['M'] || (part.len() > 0 && forall|k: int|
            0 <= k < part.len() ==> '0' <= #[trigger] part[k] && part[k] <= '9'),
    ensures
        base_name_spec(stem + seq!['.'] + part + seq!['.'] + ext) == base_name_spec(stem + seq!['.'] + ext),
{
    let s1 = stem + seq!['.'] + part + seq!['.'] + ext;
    let s2 = stem + seq!['.'] + ext;
    let a = stem.len() as int;
    let d1 = a + 1 + part.len();
    assert(s1[d1] == '.');
    assert(s1[a] == '.');
    assert(s2[a] == '.');
    assert forall|k: int| d1 < k < s1.len() implies s1[k] != '.' by {
        assert(s1[k] == ext[k - d1 - 1]);
    }
    lemma_last_dot_is(s1, d1, s1.len() as int);
    assert forall|k: int| a < k < s2.len() implies s2[k] != '.' by {
        assert(s2[k] == ext[k - a - 1]);
    }
    lemma_last_dot_is(s2, a, s2.len() as int);
    assert forall|k: int| a < k < d1 implies s1[k] != '.' by {
        assert(s1[k] == part[k - a - 1]);
        if part.len() == 1 && part[0] == 'M' {
        }
    }
    lemma_last_dot_is(s1, a, d1);
    assert(is_variant_part(s1, a + 1, d1)) by {
        if part == seq!['M'] {
            assert(s1[a + 1] == 'M');
        } else {
            assert forall|k: int| a + 1 <= k < d1 implies is_digit(#[trigger] s1[k]) by {
                assert(s1[k] == part[k - a - 1]);
            }
        }
    }
    assert(stem_end(s1, d1) == stem_end(s1, a));
    lemma_stem_end_same_prefix(s1, s2, a);
    lemma_stem_end_bounds(s1, a);
    let e = stem_end(s1, a);
    assert(s1.subrange(0, e) =~= s2.subrange(0, e));
    assert(s1.subrange(d1, s1.len() as int) =~= s2.subrange(a, s2.len() as int));
}

/// No two records share a row id.
pub open spec fn unique_ids(records: Seq<FileRecord>) -> bool {
    forall|i: int, j: int|
        0 <= i < j < records.len() ==> #[trigger] records[i].id != #[trigger] records[j].id
}

/// `named` holds the records with their filenames replaced by their base names.
pub open spec fn by_base_name(records: Seq<FileRecord>, named: Seq<FileRecord>) -> bool {
    &&& named.len() == records.len()
    &&& forall|i: int|
        0 <= i < records.len() ==> (#[trigger] named[i]).id == records[i].id && named[i].filename@
            == base_name_spec(records[i].filename@)
}

/// Groups the records whose filenames have the same base name, keeping the base names that
/// more than one id carries, each with all of its ids.
pub fn deep_dive_groups(records: &[FileRecord]) -> (res: Vec<IdGroup>)
    requires
        unique_ids(records@),
    ensures
        exists|named: Seq<FileRecord>|
            #[trigger] by_base_name(records@, named) && is_duplicate_grouping(named, res@) && group_map(res@)
                == duplicate_map(named),
{
    let mut named: Vec<FileRecord> = Vec::new();
    for i in 0..records.len()
        invariant
            named.len() == i,
            forall|j: int|
                0 <= j < i ==> (#[trigger] named@[j]).id == records@[j].id && named@[j].filename@
                    == base_name_spec(records@[j].filename@),
    {
        let r = &records[i];
        named.push(FileRecord { id: r.id, filename: base_name(r.filename.as_str()) });
    }
    assert(by_base_name(records@, named@));
    assert(distinct_records(named@)) by {
        assert forall|i: int, j: int| 0 <= i < j < named@.len() implies !(#[trigger] named@[i].id
            == #[trigger] named@[j].id && named@[i].filename@ == named@[j].filename@) by {
            assert(records@[i].id != records@[j].id);
        }
    }
    convert_and_filter(named.as_slice())
}

} // verus!
