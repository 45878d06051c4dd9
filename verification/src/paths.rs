use vstd::prelude::*;

use crate::text::chars_of;

verus! {

/// `s` with every trailing `.sqlite` removed, as `str::trim_end_matches(".sqlite")` does.
pub open spec fn strip_sqlite_spec(s: Seq<char>) -> Seq<char>
    decreases s.len(),
{
    if s.len() >= 7 && s.subrange(s.len() - 7, s.len() as int) == ".sqlite"@ {
        strip_sqlite_spec(s.subrange(0, s.len() - 7))
    } else {
        s
    }
}

/// The path of the working copy of the database at `source`.
pub open spec fn thinned_path_spec(source: Seq<char>) -> Seq<char> {
    strip_sqlite_spec(source) + "_thinned.sqlite"@
}

/// The path of the database of removed records made from the database at `source`.
pub open spec fn dupes_path_spec(source: Seq<char>) -> Seq<char> {
    strip_sqlite_spec(source) + "_dupes.sqlite"@
}

fn ends_with_sqlite(v: &Vec<char>, len: usize) -> (b: bool)
    requires
        len <= v.len(),
    ensures
        b == (len >= 7 && v@.subrange(len - 7, len as int) == ".sqlite"@),
{
    proof {
        reveal_strlit(".sqlite");
    }
    if len < 7 {
        return false;
    }
    let b = v[len - 7] == '.' && v[len - 6] == 's' && v[len - 5] == 'q' && v[len - 4] == 'l' && v[len
        - 3] == 'i' && v[len - 2] == 't' && v[len - 1] == 'e';
    if b {
        assert(v@.subrange(len - 7, len as int) =~= ".sqlite"@);
    } else {
        assert(v@.subrange(len - 7, len as int) != ".sqlite"@) by {
            if v@.subrange(len - 7, len as int) == ".sqlite"@ {
                assert(v@.subrange(len - 7, len as int)[0] == '.');
                assert(v@.subrange(len - 7, len as int)[1] == 's');
                assert(v@.subrange(len - 7, len as int)[2] == 'q');
                assert(v@.subrange(len - 7, len as int)[3] == 'l');
                assert(v@.subrange(len - 7, len as int)[4] == 'i');
                assert(v@.subrange(len - 7, len as int)[5] == 't');
                assert(v@.subrange(len - 7, len as int)[6] == 'e');
            }
        }
    }
    b
}

/// `path` without its trailing `.sqlite` extensions.
pub fn strip_sqlite_extension(path: &str) -> (r: String)
    ensures
        r@ == strip_sqlite_spec(path@),
{
    let v = chars_of(path);
    let mut len = v.len();
    assert(v@.subrange(0, len as int) =~= v@);
    while ends_with_sqlite(&v, len)
        invariant
            v@ == path@,
            len <= v.len(),
            strip_sqlite_spec(path@) == strip_sqlite_spec(v@.subrange(0, len as int)),
        decreases len,
    {
        assert(v@.subrange(0, len as int).subrange(0, len - 7) =~= v@.subrange(0, len - 7));
        assert(v@.subrange(0, len as int).subrange(len - 7, len as int) =~= v@.subrange(
            len - 7,
            len as int,
        ));
        len = len - 7;
    }
    let ghost p = v@.subrange(0, len as int);
    assert(p.len() >= 7 ==> p.subrange(p.len() - 7, p.len() as int) =~= v@.subrange(
        len - 7,
        len as int,
    ));
    assert(strip_sqlite_spec(p) == p);
    String::from_str(path.substring_char(0, len))
}

/// The path of the copy that the program works on: `<stem>_thinned.sqlite`.
pub fn thinned_db_path(source: &str) -> (r: String)
    ensures
        r@ == thinned_path_spec(source@),
{
    let stem = strip_sqlite_extension(source);
    stem.concat("_thinned.sqlite")
}

/// The path of the database of removed records: `<stem>_dupes.sqlite`.
pub fn dupes_db_path(source: &str) -> (r: String)
    ensures
        r@ == dupes_path_spec(source@),
{
    let stem = strip_sqlite_extension(source);
    stem.concat("_dupes.sqlite")
}

/// Stripping removes whole `.sqlite` extensions: a multiple of seven characters.
proof fn lemma_strip_removes_sevens(s: Seq<char>)
    ensures
        strip_sqlite_spec(s).len() <= s.len(),
        (s.len() - strip_sqlite_spec(s).len()) % 7 == 0,
    decreases s.len(),
{
    if s.len() >= 7 && s.subrange(s.len() - 7, s.len() as int) == ".sqlite"@ {
        lemma_strip_removes_sevens(s.subrange(0, s.len() - 7));
    }
}

/// The working copy never has the path of the database it copies, so the source is not
/// written to while the program works.
pub proof fn law_working_copy_is_not_the_source(source: Seq<char>)
    ensures
        thinned_path_spec(source) != source,
{
    reveal_strlit("_thinned.sqlite");
    lemma_strip_removes_sevens(source);
}

/// The database of removed records never has the path of the source database.
pub proof fn law_dupes_database_is_not_the_source(source: Seq<char>)
    ensures
        dupes_path_spec(source) != source,
{
    reveal_strlit("_dupes.sqlite");
    lemma_strip_removes_sevens(source);
}

/// The working copy and the database of removed records never share a path.
pub proof fn law_working_copy_is_not_the_dupes_database(source: Seq<char>)
    ensures
        thinned_path_spec(source) != dupes_path_spec(source),
{
    reveal_strlit("_thinned.sqlite");
    reveal_strlit("_dupes.sqlite");
    assert(thinned_path_spec(source).len() != dupes_path_spec(source).len());
}

} // verus!
