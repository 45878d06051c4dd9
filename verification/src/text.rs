use vstd::prelude::*;

verus! {

/// The texts of a list of strings.
pub open spec fn texts_of(items: Seq<String>) -> Seq<Seq<char>> {
    items.map_values(|s: String| s@)
}

/// The characters that carry the Unicode `White_Space` property.
pub open spec fn is_white_space(c: char) -> bool {
    let n = c as u32;
    ||| 0x09 <= n <= 0x0D
    ||| n == 0x20
    ||| n == 0x85
    ||| n == 0xA0
    ||| n == 0x1680
    ||| 0x2000 <= n <= 0x200A
    ||| n == 0x2028
    ||| n == 0x2029
    ||| n == 0x202F
    ||| n == 0x205F
    ||| n == 0x3000
}

/// Whether `c` is a Unicode white-space character (the set that `str::trim` strips).
pub fn is_whitespace_char(c: char) -> (b: bool)
    ensures
        b == is_white_space(c),
{
    let n = c as u32;
    (0x09 <= n && n <= 0x0D) || n == 0x20 || n == 0x85 || n == 0xA0 || n == 0x1680 || (0x2000 <= n
        && n <= 0x200A) || n == 0x2028 || n == 0x2029 || n == 0x202F || n == 0x205F || n == 0x3000
}

/// The characters of a string slice, in order.
pub fn chars_of(s: &str) -> (v: Vec<char>)
    ensures
        v@ == s@,
{
    let mut v: Vec<char> = Vec::new();
    for c in it: s.chars()
        invariant
            v@ == it.seq().take(it.index() as int),
    {
        v.push(c);
    }
    v
}

/// Whether two strings hold the same characters.
pub fn same_text(a: &str, b: &str) -> (r: bool)
    ensures
        r == (a@ == b@),
{
    let x = chars_of(a);
    let y = chars_of(b);
    if x.len() != y.len() {
        return false;
    }
    let mut i: usize = 0;
    while i < x.len()
        invariant
            x@ == a@,
            y@ == b@,
            x.len() == y.len(),
            i <= x.len(),
            forall|j: int| 0 <= j < i ==> x@[j] == y@[j],
        decreases x.len() - i,
    {
        if x[i] != y[i] {
            return false;
        }
        i = i + 1;
    }
    assert(x@ =~= y@);
    true
}

/// Index of the first character that is not white space (or the length).
pub open spec fn first_non_space(s: Seq<char>, i: int) -> int
    decreases s.len() - i,
{
    if i >= s.len() || !is_white_space(s[i]) {
        i
    } else {
        first_non_space(s, i + 1)
    }
}

/// One past the index of the last character that is not white space, searching down from `j`.
pub open spec fn end_non_space(s: Seq<char>, j: int) -> int
    decreases j,
{
    if j <= 0 || !is_white_space(s[j - 1]) {
        j
    } else {
        end_non_space(s, j - 1)
    }
}

/// `s` with its leading and trailing white space removed, as `str::trim` does.
pub open spec fn trim_spec(s: Seq<char>) -> Seq<char> {
    let start = first_non_space(s, 0);
    if start >= s.len() {
        Seq::empty()
    } else {
        s.subrange(start, end_non_space(s, s.len() as int))
    }
}

/// The text of `s` without leading and trailing white space.
pub fn trim(s: &str) -> (r: String)
    ensures
        r@ == trim_spec(s@),
{
    let v = chars_of(s);
    let n = v.len();
    let mut start: usize = 0;
    while start < n && is_whitespace_char(v[start])
        invariant
            v@ == s@,
            n == v.len(),
            start <= n,
            first_non_space(s@, 0) == first_non_space(s@, start as int),
        decreases n - start,
    {
        start = start + 1;
    }
    if start >= n {
        return String::new();
    }
    let mut end: usize = n;
    while end > start + 1 && is_whitespace_char(v[end - 1])
        invariant
            v@ == s@,
            n == v.len(),
            start < end <= n,
            !is_white_space(s@[start as int]),
            end_non_space(s@, n as int) == end_non_space(s@, end as int),
        decreases end,
    {
        end = end - 1;
    }
    assert(end_non_space(s@, end as int) == end as int);
    let sub = s.substring_char(start, end);
    String::from_str(sub)
}

/// Whether an answer to a prompt, once trimmed, is `yes` in any mix of ASCII case.
pub open spec fn is_yes_spec(answer: Seq<char>) -> bool {
    let t = trim_spec(answer);
    &&& t.len() == 3
    &&& (t[0] == 'y' || t[0] == 'Y')
    &&& (t[1] == 'e' || t[1] == 'E')
    &&& (t[2] == 's' || t[2] == 'S')
}

/// Whether the user confirmed a deletion: the answer, trimmed, is `yes` in any case.
pub fn is_yes(answer: &str) -> (b: bool)
    ensures
        b == is_yes_spec(answer@),
{
    let t = trim(answer);
    let v = chars_of(t.as_str());
    v.len() == 3 && (v[0] == 'y' || v[0] == 'Y') && (v[1] == 'e' || v[1] == 'E') && (v[2] == 's'
        || v[2] == 'S')
}

} // verus!
