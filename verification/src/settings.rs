use vstd::prelude::*;

use crate::text::texts_of;
use crate::text::{is_white_space, trim, trim_spec, first_non_space, end_non_space};

verus! {

/// The file that overrides the order in which duplicates are ranked.
pub const ORDER_FILE: &'static str = "SMDupe_order.txt";

/// The file that overrides the processing tags.
pub const TAGS_FILE: &'static str = "SMDupe_tags.txt";

/// The ORDER BY terms used when no order file exists: longest first, then most channels,
/// highest sample rate and bit depth, then earliest dates. The record kept is the one that
/// sorts first.
pub open spec fn default_order_spec() -> Seq<Seq<char>> {
    seq![
        "duration DESC"@,
        "channels DESC"@,
        "sampleRate DESC"@,
        "bitDepth DESC"@,
        "BWDate ASC"@,
        "scannedDate ASC"@,
    ]
}

/// The filename fragments that mark Audio Suite renders, used when no tags file exists.
pub open spec fn default_tags_spec() -> Seq<Seq<char>> {
    seq![
        "-Reverse_"@,
        "-RVRS_"@,
        "-A2sA_"@,
        "-Delays_"@,
        "-ZXN5_"@,
        "-NYCT_"@,
        "-PiSh_"@,
        "-PnT2_"@,
        "-7eqa_"@,
        "-Alt7S_"@,
        "-AVrP_"@,
        "-X2mA_"@,
        "-PnTPro_"@,
        "-M2DN_"@,
        "-PSh_"@,
        "-ASMA_"@,
        "-TmShft_"@,
        "-Dn_"@,
        "-DVerb_"@,
        "-spce_"@,
        "-RX7Cnct_"@,
        "-AVSt"@,
        "-VariFi"@,
        "-DEC4_"@,
        "-VSPD_"@,
        "-6030_"@,
        "-NORM_"@,
        "-AVrT_"@,
        "-RING_"@,
    ]
}

/// The comment line that opens a generated order file.
pub open spec fn order_header_spec() -> Seq<char> {
    "## Column in order of Priority and whether it should be DESCending or ASCending.  Hashtag will bypass"@
}

/// The example rules on the file path that a generated order file carries as comments: the
/// first keeps files under LIBRARIES, the second drops files under Audio Files first.
pub open spec fn order_examples_spec() -> Seq<Seq<char>> {
    seq![
        "#CASE WHEN pathname LIKE '%LIBRARIES%' THEN 0 ELSE 1 END ASC"@,
        "#CASE WHEN pathname LIKE '%Audio Files%' THEN 1 ELSE 0 END ASC"@,
    ]
}

/// The lines of a generated order file.
pub open spec fn order_file_spec() -> Seq<Seq<char>> {
    seq![order_header_spec()] + order_examples_spec() + default_order_spec()
}

/// The default ORDER BY terms.
pub fn default_order() -> (v: Vec<String>)
    ensures
        texts_of(v@) == default_order_spec(),
{
    let v = vec![
        String::from_str("duration DESC"),
        String::from_str("channels DESC"),
        String::from_str("sampleRate DESC"),
        String::from_str("bitDepth DESC"),
        String::from_str("BWDate ASC"),
        String::from_str("scannedDate ASC"),
    ];
    assert(texts_of(v@) =~= default_order_spec());
    v
}

/// The default processing tags.
pub fn default_tags() -> (v: Vec<String>)
    ensures
        texts_of(v@) == default_tags_spec(),
{
    let v = vec![
        String::from_str("-Reverse_"),
        String::from_str("-RVRS_"),
        String::from_str("-A2sA_"),
        String::from_str("-Delays_"),
        String::from_str("-ZXN5_"),
        String::from_str("-NYCT_"),
        String::from_str("-PiSh_"),
        String::from_str("-PnT2_"),
        String::from_str("-7eqa_"),
        String::from_str("-Alt7S_"),
        String::from_str("-AVrP_"),
        String::from_str("-X2mA_"),
        String::from_str("-PnTPro_"),
        String::from_str("-M2DN_"),
        String::from_str("-PSh_"),
        String::from_str("-ASMA_"),
        String::from_str("-TmShft_"),
        String::from_str("-Dn_"),
        String::from_str("-DVerb_"),
        String::from_str("-spce_"),
        String::from_str("-RX7Cnct_"),
        String::from_str("-AVSt"),
        String::from_str("-VariFi"),
        String::from_str("-DEC4_"),
        String::from_str("-VSPD_"),
        String::from_str("-6030_"),
        String::from_str("-NORM_"),
        String::from_str("-AVrT_"),
        String::from_str("-RING_"),
    ];
    assert(texts_of(v@) =~= default_tags_spec());
    v
}

/// The lines of a generated order file: the comment line, the commented example rules, then
/// the default terms.
pub fn order_file_lines() -> (v: Vec<String>)
    ensures
        texts_of(v@) == order_file_spec(),
{
    let mut v = vec![
        String::from_str("## Column in order of Priority and whether it should be DESCending or ASCending.  Hashtag will bypass"),
        String::from_str("#CASE WHEN pathname LIKE '%LIBRARIES%' THEN 0 ELSE 1 END ASC"),
        String::from_str("#CASE WHEN pathname LIKE '%Audio Files%' THEN 1 ELSE 0 END ASC"),
    ];
    let ghost first = v@;
    assert(texts_of(first) =~= seq![order_header_spec()] + order_examples_spec());
    let mut rest = default_order();
    let ghost r = rest@;
    v.append(&mut rest);
    assert(texts_of(v@) =~= texts_of(first) + texts_of(r));
    v
}

/// The lines of a generated tags file: the default tags.
pub fn tags_file_lines() -> (v: Vec<String>)
    ensures
        texts_of(v@) == default_tags_spec(),
{
    default_tags()
}

/// The terms that an order file's lines give: each line trimmed, leaving out empty lines and
/// lines that start with `#`.
pub open spec fn order_terms_spec(lines: Seq<Seq<char>>) -> Seq<Seq<char>>
    decreases lines.len(),
{
    if lines.len() == 0 {
        Seq::empty()
    } else {
        let t = trim_spec(lines[0]);
        let rest = order_terms_spec(lines.drop_first());
        if t.len() > 0 && t[0] != '#' {
            seq![t] + rest
        } else {
            rest
        }
    }
}

/// The tags that a tags file's lines give: each line trimmed, leaving out empty lines.
pub open spec fn tag_terms_spec(lines: Seq<Seq<char>>) -> Seq<Seq<char>>
    decreases lines.len(),
{
    if lines.len() == 0 {
        Seq::empty()
    } else {
        let t = trim_spec(lines[0]);
        let rest = tag_terms_spec(lines.drop_first());
        if t.len() > 0 {
            seq![t] + rest
        } else {
            rest
        }
    }
}

/// The ORDER BY terms that the lines of an order file give.
pub fn parse_order_lines(lines: &[String]) -> (r: Vec<String>)
    ensures
        texts_of(r@) == order_terms_spec(texts_of(lines@)),
{
    let ghost all = texts_of(lines@);
    let mut r: Vec<String> = Vec::new();
    let n = lines.len();
    assert(all.skip(0) =~= all);
    for i in 0..n
        invariant
            n == lines.len(),
            all == texts_of(lines@),
            order_terms_spec(all) == texts_of(r@) + order_terms_spec(all.skip(i as int)),
    {
        let t = trim(lines[i].as_str());
        let ghost before = texts_of(r@);
        assert(all.skip(i as int).drop_first() =~= all.skip(i + 1));
        assert(all.skip(i as int)[0] == lines@[i as int]@);
        let first = crate::text::chars_of(t.as_str());
        if first.len() > 0 && first[0] != '#' {
            r.push(t);
            assert(texts_of(r@) =~= before + seq![t@]);
        } else {
            assert(texts_of(r@) =~= before);
        }
    }
    assert(all.skip(n as int) =~= Seq::<Seq<char>>::empty());
    assert(texts_of(r@) + Seq::<Seq<char>>::empty() =~= texts_of(r@));
    r
}

/// The tags that the lines of a tags file give.
pub fn parse_tag_lines(lines: &[String]) -> (r: Vec<String>)
    ensures
        texts_of(r@) == tag_terms_spec(texts_of(lines@)),
{
    let ghost all = texts_of(lines@);
    let mut r: Vec<String> = Vec::new();
    let n = lines.len();
    assert(all.skip(0) =~= all);
    for i in 0..n
        invariant
            n == lines.len(),
            all == texts_of(lines@),
            tag_terms_spec(all) == texts_of(r@) + tag_terms_spec(all.skip(i as int)),
    {
        let t = trim(lines[i].as_str());
        let ghost before = texts_of(r@);
        assert(all.skip(i as int).drop_first() =~= all.skip(i + 1));
        assert(all.skip(i as int)[0] == lines@[i as int]@);
        let first = crate::text::chars_of(t.as_str());
        if first.len() > 0 {
            r.push(t);
            assert(texts_of(r@) =~= before + seq![t@]);
        } else {
            assert(texts_of(r@) =~= before);
        }
    }
    assert(all.skip(n as int) =~= Seq::<Seq<char>>::empty());
    assert(texts_of(r@) + Seq::<Seq<char>>::empty() =~= texts_of(r@));
    r
}

/// A text whose first and last characters are not white space is left as it is by trimming.
proof fn lemma_trim_keeps_clean(s: Seq<char>)
    requires
        s.len() > 0,
        !is_white_space(s[0]),
        !is_white_space(s[s.len() - 1]),
    ensures
        trim_spec(s) == s,
{
    assert(first_non_space(s, 0) == 0);
    assert(end_non_space(s, s.len() as int) == s.len());
    assert(s.subrange(0, s.len() as int) =~= s);
}

/// Lines that are already trimmed, not empty and not comments are kept as they are.
proof fn lemma_order_terms_of_clean(lines: Seq<Seq<char>>)
    requires
        forall|i: int|
            0 <= i < lines.len() ==> {
                &&& (#[trigger] lines[i]).len() > 0
                &&& !is_white_space(lines[i][0])
                &&& !is_white_space(lines[i][lines[i].len() - 1])
                &&& lines[i][0] != '#'
            },
    ensures
        order_terms_spec(lines) == lines,
    decreases lines.len(),
{
    if lines.len() > 0 {
        lemma_trim_keeps_clean(lines[0]);
        lemma_order_terms_of_clean(lines.drop_first());
        assert(seq![lines[0]] + lines.drop_first() =~= lines);
    }
}

/// Lines that are already trimmed and not empty are kept as they are.
proof fn lemma_tag_terms_of_clean(lines: Seq<Seq<char>>)
    requires
        forall|i: int|
            0 <= i < lines.len() ==> {
                &&& (#[trigger] lines[i]).len() > 0
                &&& !is_white_space(lines[i][0])
                &&& !is_white_space(lines[i][lines[i].len() - 1])
            },
    ensures
        tag_terms_spec(lines) == lines,
    decreases lines.len(),
{
    if lines.len() > 0 {
        lemma_trim_keeps_clean(lines[0]);
        lemma_tag_terms_of_clean(lines.drop_first());
        assert(seq![lines[0]] + lines.drop_first() =~= lines);
    }
}

/// Reading back a generated order file gives the default order: generating the
/// configuration files does not change what the program does.
pub proof fn law_generated_order_file_reads_as_default()
    ensures
        order_terms_spec(order_file_spec()) == default_order_spec(),
{
    reveal_strlit("duration DESC");
    reveal_strlit("channels DESC");
    reveal_strlit("sampleRate DESC");
    reveal_strlit("bitDepth DESC");
    reveal_strlit("BWDate ASC");
    reveal_strlit("scannedDate ASC");
    reveal_strlit("## Column in order of Priority and whether it should be DESCending or ASCending.  Hashtag will bypass");
    let d = default_order_spec();
    assert forall|i: int| 0 <= i < d.len() implies {
        &&& (#[trigger] d[i]).len() > 0
        &&& !is_white_space(d[i][0])
        &&& !is_white_space(d[i][d[i].len() - 1])
        &&& d[i][0] != '#'
    } by {
    }
    lemma_order_terms_of_clean(d);
    reveal_strlit("#CASE WHEN pathname LIKE '%LIBRARIES%' THEN 0 ELSE 1 END ASC");
    reveal_strlit("#CASE WHEN pathname LIKE '%Audio Files%' THEN 1 ELSE 0 END ASC");
    let h = order_header_spec();
    let e = order_examples_spec();
    lemma_trim_keeps_clean(h);
    lemma_trim_keeps_clean(e[0]);
    lemma_trim_keeps_clean(e[1]);
    let all = order_file_spec();
    let a1 = all.drop_first();
    let a2 = a1.drop_first();
    assert(all[0] == h);
    assert(a1[0] == e[0]);
    assert(a2[0] == e[1]);
    assert(a2.drop_first() =~= d);
    assert(order_terms_spec(a2) == order_terms_spec(d));
    assert(order_terms_spec(a1) == order_terms_spec(a2));
    assert(order_terms_spec(all) == order_terms_spec(a1));
}

/// Reading back a generated tags file gives the default tags.
pub proof fn law_generated_tags_file_reads_as_default()
    ensures
        tag_terms_spec(default_tags_spec()) == default_tags_spec(),
{
    reveal_strlit("-Reverse_");
    reveal_strlit("-RVRS_");
    reveal_strlit("-A2sA_");
    reveal_strlit("-Delays_");
    reveal_strlit("-ZXN5_");
    reveal_strlit("-NYCT_");
    reveal_strlit("-PiSh_");
    reveal_strlit("-PnT2_");
    reveal_strlit("-7eqa_");
    reveal_strlit("-Alt7S_");
    reveal_strlit("-AVrP_");
    reveal_strlit("-X2mA_");
    reveal_strlit("-PnTPro_");
    reveal_strlit("-M2DN_");
    reveal_strlit("-PSh_");
    reveal_strlit("-ASMA_");
    reveal_strlit("-TmShft_");
    reveal_strlit("-Dn_");
    reveal_strlit("-DVerb_");
    reveal_strlit("-spce_");
    reveal_strlit("-RX7Cnct_");
    reveal_strlit("-AVSt");
    reveal_strlit("-VariFi");
    reveal_strlit("-DEC4_");
    reveal_strlit("-VSPD_");
    reveal_strlit("-6030_");
    reveal_strlit("-NORM_");
    reveal_strlit("-AVrT_");
    reveal_strlit("-RING_");
    let d = default_tags_spec();
    assert forall|i: int| 0 <= i < d.len() implies {
        &&& (#[trigger] d[i]).len() > 0
        &&& !is_white_space(d[i][0])
        &&& !is_white_space(d[i][d[i].len() - 1])
    } by {
    }
    lemma_tag_terms_of_clean(d);
}

} // verus!
