use vstd::prelude::*;

use crate::text::texts_of;

verus! {

/// How many rows one DELETE statement removes at most.
pub const BATCH_SIZE: usize = 10000;

/// The items joined into one text with `sep` between neighbours, as `[T]::join` does.
pub open spec fn join_spec(items: Seq<Seq<char>>, sep: Seq<char>) -> Seq<char>
    decreases items.len(),
{
    if items.len() == 0 {
        Seq::empty()
    } else if items.len() == 1 {
        items[0]
    } else {
        join_spec(items.drop_last(), sep) + sep + items.last()
    }
}

/// Joins the items with `", "` between neighbours.
pub fn join_with_commas(items: &[String]) -> (r: String)
    ensures
        r@ == join_spec(texts_of(items@), ", "@),
{
    let ghost all = texts_of(items@);
    let mut r = String::new();
    let n = items.len();
    for i in 0..n
        invariant
            n == items.len(),
            all == texts_of(items@),
            r@ == join_spec(all.take(i as int), ", "@),
    {
        let ghost before = r@;
        if i != 0 {
            r.append(", ");
        }
        r.append(items[i].as_str());
        assert(all.take(i + 1).drop_last() =~= all.take(i as int));
        assert(all.take(i + 1).last() == items@[i as int]@);
        if i == 0 {
            assert(r@ =~= join_spec(all.take(1), ", "@));
        } else {
            assert(r@ =~= join_spec(all.take(i + 1), ", "@));
        }
    }
    assert(all.take(n as int) =~= all);
    r
}

/// `n` question marks separated by `", "`: the placeholders of an `IN (...)` list.
pub open spec fn placeholders_spec(n: nat) -> Seq<char>
    decreases n,
{
    if n == 0 {
        Seq::empty()
    } else if n == 1 {
        "?"@
    } else {
        placeholders_spec((n - 1) as nat) + ", ?"@
    }
}

/// The placeholders of an `IN (...)` list of `n` values.
pub fn placeholders(n: usize) -> (r: String)
    ensures
        r@ == placeholders_spec(n as nat),
{
    let mut r = String::new();
    for i in 0..n
        invariant
            r@ == placeholders_spec(i as nat),
    {
        if i == 0 {
            r.append("?");
        } else {
            r.append(", ?");
        }
    }
    r
}

/// The statement that deletes the rows whose `column` is one of `n` bound values.
pub open spec fn delete_in_spec(column: Seq<char>, n: nat) -> Seq<char> {
    "DELETE FROM justinmetadata WHERE "@ + column + " IN ("@ + placeholders_spec(n) + ")"@
}

fn delete_in_query(column: &str, n: usize) -> (r: String)
    ensures
        r@ == delete_in_spec(column@, n as nat),
{
    let mut r = String::from_str("DELETE FROM justinmetadata WHERE ");
    r.append(column);
    r.append(" IN (");
    let p = placeholders(n);
    r.append(p.as_str());
    r.append(")");
    r
}

/// The statement that deletes the rows with one of `n` bound row ids.
pub fn delete_by_rowid_query(n: usize) -> (r: String)
    ensures
        r@ == delete_in_spec("rowid"@, n as nat),
{
    delete_in_query("rowid", n)
}

/// The statement that deletes the rows with one of `n` bound filenames.
pub fn delete_by_filename_query(n: usize) -> (r: String)
    ensures
        r@ == delete_in_spec("filename"@, n as nat),
{
    delete_in_query("filename", n)
}

/// The bounds `[start, end)` of the consecutive batches of at most `size` items into which
/// `len` items are cut, as `[T]::chunks` cuts them: every batch but the last is full.
pub fn batch_bounds(len: usize, size: usize) -> (r: Vec<(usize, usize)>)
    requires
        size > 0,
    ensures
        len == 0 ==> r.len() == 0,
        len > 0 ==> r.len() > 0 && r@[0].0 == 0 && r@[r.len() - 1].1 == len,
        forall|k: int|
            0 <= k < r.len() ==> (#[trigger] r@[k]).0 < r@[k].1 && r@[k].1 - r@[k].0 <= size,
        forall|k: int| 0 <= k < r.len() - 1 ==> (#[trigger] r@[k]).1 - r@[k].0 == size && r@[k].1 == r@[k + 1].0,
{
    let mut r: Vec<(usize, usize)> = Vec::new();
    let mut start: usize = 0;
    while start < len
        invariant
            size > 0,
            start <= len,
            r.len() == 0 <==> start == 0,
            r.len() > 0 ==> r@[0].0 == 0 && r@[r.len() - 1].1 == start,
            forall|k: int|
                0 <= k < r.len() ==> (#[trigger] r@[k]).0 < r@[k].1 && r@[k].1 - r@[k].0 <= size,
            forall|k: int|
                0 <= k < r.len() - 1 ==> (#[trigger] r@[k]).1 - r@[k].0 == size && r@[k].1 == r@[k + 1].0,
            r.len() > 0 && r@[r.len() - 1].1 < len ==> r@[r.len() - 1].1 - r@[r.len() - 1].0 == size,
        decreases len - start,
    {
        let end = if len - start > size {
            start + size
        } else {
            len
        };
        r.push((start, end));
        start = end;
    }
    r
}

/// The filter that leaves out rows whose `group` column is NULL or empty.
pub open spec fn non_null_filter_spec(group: Seq<char>) -> Seq<char> {
    "WHERE "@ + group + " IS NOT NULL AND "@ + group + " != ''"@
}

/// The query that lists, for every filename (within every value of the `group` column when
/// one is given), all its rows but the first in the order `order`: the rows to delete.
pub open spec fn ranked_query_spec(
    order: Seq<Seq<char>>,
    group: Option<Seq<char>>,
    skip_null: bool,
) -> Seq<char> {
    let order_clause = join_spec(order, ", "@);
    match group {
        Some(g) => "\n            WITH ranked AS (\n                SELECT\n                    rowid AS id,\n                    filename,\n                    ROW_NUMBER() OVER (\n                        PARTITION BY "@
            + g + ", filename\n                        ORDER BY "@ + order_clause
            + "\n                    ) as rn\n                FROM justinmetadata "@ + (if skip_null {
            non_null_filter_spec(g)
        } else {
            Seq::empty()
        }) + "\n            )\n            SELECT id, filename FROM ranked WHERE rn > 1\n            "@,
        None => "\n            WITH ranked AS (\n                SELECT\n                    rowid AS id,\n                    filename,\n                    ROW_NUMBER() OVER (\n                        PARTITION BY filename\n                        ORDER BY "@
            + order_clause
            + "\n                    ) as rn\n                FROM justinmetadata\n            )\n            SELECT id, filename FROM ranked WHERE rn > 1\n            "@,
    }
}

/// Builds the query that finds the duplicate rows to delete, ranking the rows of a
/// filename by the ORDER BY terms `order` and partitioning by `group` when one is given;
/// `skip_null` leaves out the rows whose `group` value is NULL or empty.
pub fn ranked_duplicates_query(order: &[String], group: Option<&String>, skip_null: bool) -> (r:
    String)
    ensures
        r@ == ranked_query_spec(
            texts_of(order@),
            match group {
                Some(g) => Some(g@),
                None => None,
            },
            skip_null,
        ),
{
    let order_clause = join_with_commas(order);
    match group {
        Some(g) => {
            let mut r = String::from_str(
                "\n            WITH ranked AS (\n                SELECT\n                    rowid AS id,\n                    filename,\n                    ROW_NUMBER() OVER (\n                        PARTITION BY ",
            );
            r.append(g.as_str());
            r.append(", filename\n                        ORDER BY ");
            r.append(order_clause.as_str());
            r.append("\n                    ) as rn\n                FROM justinmetadata ");
            let ghost before_filter = r@;
            if skip_null {
                r.append("WHERE ");
                r.append(g.as_str());
                r.append(" IS NOT NULL AND ");
                r.append(g.as_str());
                r.append(" != ''");
                assert(r@ =~= before_filter + non_null_filter_spec(g@));
            } else {
                assert(r@ =~= before_filter + Seq::<char>::empty());
            }
            r.append("\n            )\n            SELECT id, filename FROM ranked WHERE rn > 1\n            ");
            r
        },
        None => {
            let mut r = String::from_str(
                "\n            WITH ranked AS (\n                SELECT\n                    rowid AS id,\n                    filename,\n                    ROW_NUMBER() OVER (\n                        PARTITION BY filename\n                        ORDER BY ",
            );
            r.append(order_clause.as_str());
            r.append(
                "\n                    ) as rn\n                FROM justinmetadata\n            )\n            SELECT id, filename FROM ranked WHERE rn > 1\n            ",
            );
            r
        },
    }
}

/// A tag character as it stands in a `LIKE` pattern with `\` as the escape character: the
/// wildcards `%` and `_` and the escape character itself are preceded by `\`.
pub open spec fn escape_like_char(c: char) -> Seq<char> {
    if c == '%' || c == '_' || c == '\\' {
        seq!['\\', c]
    } else {
        seq![c]
    }
}

/// The tag with every character escaped for a `LIKE` pattern.
pub open spec fn escape_like_spec(tag: Seq<char>) -> Seq<char>
    decreases tag.len(),
{
    if tag.len() == 0 {
        Seq::empty()
    } else {
        escape_like_spec(tag.drop_last()) + escape_like_char(tag.last())
    }
}

/// The `LIKE` pattern that matches the filenames holding `tag` as it is written: any text,
/// the tag with its wildcards escaped, any text.
pub open spec fn like_pattern_spec(tag: Seq<char>) -> Seq<char> {
    seq!['%'] + escape_like_spec(tag) + seq!['%']
}

/// The value bound to the tag queries for `tag`: it finds the filenames in which the tag's
/// characters occur as they are, `%` and `_` included.
pub fn like_pattern(tag: &str) -> (r: String)
    ensures
        r@ == like_pattern_spec(tag@),
{
    let chars = crate::text::chars_of(tag);
    let n = chars.len();
    let mut r = String::from_str("%");
    proof {
        reveal_strlit("%");
        reveal_strlit("\\");
    }
    assert(r@ =~= seq!['%'] + escape_like_spec(chars@.take(0)));
    for i in 0..n
        invariant
            n == chars.len(),
            chars@ == tag@,
            r@ == seq!['%'] + escape_like_spec(chars@.take(i as int)),
    {
        let c = chars[i];
        let ghost before = r@;
        let one = tag.substring_char(i, i + 1);
        assert(one@ =~= seq![c]);
        if c == '%' || c == '_' || c == '\\' {
            r.append("\\");
            proof {
                reveal_strlit("\\");
            }
            assert(r@ =~= before + seq!['\\']);
            r.append(one);
            assert(r@ =~= before + seq!['\\', c]);
        } else {
            r.append(one);
            assert(r@ =~= before + seq![c]);
        }
        assert(chars@.take(i + 1).drop_last() =~= chars@.take(i as int));
        assert(chars@.take(i + 1).last() == c);
        assert(r@ =~= before + escape_like_char(c));
        assert(r@ =~= seq!['%'] + escape_like_spec(chars@.take(i + 1)));
    }
    assert(chars@.take(n as int) =~= tag@);
    r.append("%");
    r
}

/// The statement that deletes the rows whose filename matches a bound `LIKE` pattern in which
/// `\` escapes the wildcards.
pub const TAG_DELETE_QUERY: &'static str = "DELETE FROM justinmetadata WHERE filename LIKE ? ESCAPE '\\'";

/// The query that lists the filenames matching a bound `LIKE` pattern in which `\` escapes the
/// wildcards.
pub const TAG_SELECT_QUERY: &'static str = "SELECT filename FROM justinmetadata WHERE filename LIKE ? ESCAPE '\\'";

/// The query that picks, among `n` bound row ids, the row to keep when filenames differ
/// only by numbered or `M` parts: the longest, then the first in the order `order`.
pub open spec fn deep_dive_best_spec(n: nat, order: Seq<Seq<char>>) -> Seq<char> {
    "SELECT rowid FROM justinmetadata WHERE rowid IN ("@ + placeholders_spec(n)
        + ") ORDER BY duration DESC"@ + (if order.len() == 0 {
        Seq::empty()
    } else {
        ", "@ + join_spec(order, ", "@)
    }) + " LIMIT 1"@
}

/// Builds the query that picks the row to keep among `n` bound row ids.
pub fn deep_dive_best_query(n: usize, order: &[String]) -> (r: String)
    ensures
        r@ == deep_dive_best_spec(n as nat, texts_of(order@)),
{
    let mut r = String::from_str("SELECT rowid FROM justinmetadata WHERE rowid IN (");
    let p = placeholders(n);
    r.append(p.as_str());
    r.append(") ORDER BY duration DESC");
    let ghost before = r@;
    if order.len() == 0 {
        assert(r@ =~= before + Seq::<char>::empty());
    } else {
        let o = join_with_commas(order);
        r.append(", ");
        r.append(o.as_str());
        assert(r@ =~= before + (", "@ + join_spec(texts_of(order@), ", "@)));
    }
    r.append(" LIMIT 1");
    r
}

/// The duplicate search ranks each filename's rows by every order term, in the order given:
/// the query holds `ORDER BY ` followed by all the terms joined with `, `, and a line break,
/// whatever the group column and the NULL filter.
pub proof fn law_ranked_query_orders_by_every_term(
    order: Seq<Seq<char>>,
    group: Option<Seq<char>>,
    skip_null: bool,
)
    ensures
        exists|pre: Seq<char>, post: Seq<char>|
            ranked_query_spec(order, group, skip_null) == pre + "ORDER BY "@ + join_spec(order, ", "@) + "\n"@
                + post,
{
    reveal_strlit("ORDER BY ");
    reveal_strlit("\n");
    let clause = join_spec(order, ", "@);
    match group {
        Some(g) => {
            reveal_strlit(", filename\n                        ORDER BY ");
            reveal_strlit(", filename\n                        ");
            reveal_strlit("\n                    ) as rn\n                FROM justinmetadata ");
            reveal_strlit("                    ) as rn\n                FROM justinmetadata ");
            let head = "\n            WITH ranked AS (\n                SELECT\n                    rowid AS id,\n                    filename,\n                    ROW_NUMBER() OVER (\n                        PARTITION BY "@;
            let filter = if skip_null {
                non_null_filter_spec(g)
            } else {
                Seq::empty()
            };
            let tail = "\n            )\n            SELECT id, filename FROM ranked WHERE rn > 1\n            "@;
            assert(", filename\n                        ORDER BY "@ =~= ", filename\n                        "@ + "ORDER BY "@);
            assert("\n                    ) as rn\n                FROM justinmetadata "@ =~= "\n"@
                + "                    ) as rn\n                FROM justinmetadata "@);
            let pre = head + g + ", filename\n                        "@;
            let post = "                    ) as rn\n                FROM justinmetadata "@ + filter + tail;
            assert(ranked_query_spec(order, group, skip_null) =~= pre + "ORDER BY "@ + clause + "\n"@ + post);
        },
        None => {
            let head = "\n            WITH ranked AS (\n                SELECT\n                    rowid AS id,\n                    filename,\n                    ROW_NUMBER() OVER (\n                        PARTITION BY filename\n                        ORDER BY "@;
            let head0 = "\n            WITH ranked AS (\n                SELECT\n                    rowid AS id,\n                    filename,\n                    ROW_NUMBER() OVER (\n                        PARTITION BY filename\n                        "@;
            let tail = "\n                    ) as rn\n                FROM justinmetadata\n            )\n            SELECT id, filename FROM ranked WHERE rn > 1\n            "@;
            let tail0 = "                    ) as rn\n                FROM justinmetadata\n            )\n            SELECT id, filename FROM ranked WHERE rn > 1\n            "@;
            reveal_strlit("\n            WITH ranked AS (\n                SELECT\n                    rowid AS id,\n                    filename,\n                    ROW_NUMBER() OVER (\n                        PARTITION BY filename\n                        ORDER BY ");
            reveal_strlit("\n            WITH ranked AS (\n                SELECT\n                    rowid AS id,\n                    filename,\n                    ROW_NUMBER() OVER (\n                        PARTITION BY filename\n                        ");
            reveal_strlit("\n                    ) as rn\n                FROM justinmetadata\n            )\n            SELECT id, filename FROM ranked WHERE rn > 1\n            ");
            reveal_strlit("                    ) as rn\n                FROM justinmetadata\n            )\n            SELECT id, filename FROM ranked WHERE rn > 1\n            ");
            assert(head =~= head0 + "ORDER BY "@);
            assert(tail =~= "\n"@ + tail0);
            assert(ranked_query_spec(order, group, skip_null) =~= head0 + "ORDER BY "@ + clause + "\n"@ + tail0);
        },
    }
}

/// The copy kept by the deep dive is the longest, and among equally long ones the first by
/// every order term in the order given: the query ends with `ORDER BY duration DESC`, then
/// all the terms joined with `, ` where there are any, then ` LIMIT 1`.
pub proof fn law_deep_dive_orders_by_duration_then_every_term(n: nat, order: Seq<Seq<char>>)
    ensures
        order.len() > 0 ==> exists|pre: Seq<char>|
            deep_dive_best_spec(n, order) == pre + "ORDER BY duration DESC, "@ + join_spec(order, ", "@)
                + " LIMIT 1"@,
        order.len() == 0 ==> exists|pre: Seq<char>|
            deep_dive_best_spec(n, order) == pre + "ORDER BY duration DESC LIMIT 1"@,
{
    reveal_strlit(") ORDER BY duration DESC");
    reveal_strlit(") ");
    reveal_strlit("ORDER BY duration DESC");
    reveal_strlit("ORDER BY duration DESC, ");
    reveal_strlit("ORDER BY duration DESC LIMIT 1");
    reveal_strlit(", ");
    reveal_strlit(" LIMIT 1");
    let pre = "SELECT rowid FROM justinmetadata WHERE rowid IN ("@ + placeholders_spec(n) + ") "@;
    assert(") ORDER BY duration DESC"@ =~= ") "@ + "ORDER BY duration DESC"@);
    if order.len() > 0 {
        assert("ORDER BY duration DESC, "@ =~= "ORDER BY duration DESC"@ + ", "@);
        assert(deep_dive_best_spec(n, order) =~= pre + "ORDER BY duration DESC, "@ + join_spec(order, ", "@)
            + " LIMIT 1"@);
    } else {
        assert("ORDER BY duration DESC LIMIT 1"@ =~= "ORDER BY duration DESC"@ + " LIMIT 1"@);
        assert(deep_dive_best_spec(n, order) =~= pre + "ORDER BY duration DESC LIMIT 1"@);
    }
}

/// The number of `?` placeholders in a statement text.
pub open spec fn count_placeholders(s: Seq<char>) -> nat
    decreases s.len(),
{
    if s.len() == 0 {
        0
    } else {
        count_placeholders(s.drop_last()) + if s.last() == '?' {
            1nat
        } else {
            0nat
        }
    }
}

proof fn lemma_count_placeholders_concat(a: Seq<char>, b: Seq<char>)
    ensures
        count_placeholders(a + b) == count_placeholders(a) + count_placeholders(b),
    decreases b.len(),
{
    if b.len() > 0 {
        lemma_count_placeholders_concat(a, b.drop_last());
        assert((a + b).drop_last() =~= a + b.drop_last());
    } else {
        assert(a + b =~= a);
    }
}

proof fn lemma_no_placeholders(s: Seq<char>)
    requires
        forall|i: int| 0 <= i < s.len() ==> s[i] != '?',
    ensures
        count_placeholders(s) == 0,
    decreases s.len(),
{
    if s.len() > 0 {
        lemma_no_placeholders(s.drop_last());
    }
}

proof fn lemma_placeholder_count(n: nat)
    ensures
        count_placeholders(placeholders_spec(n)) == n,
    decreases n,
{
    reveal_strlit("?");
    reveal_strlit(", ?");
    if n == 1 {
        assert(count_placeholders("?"@.drop_last()) == 0);
    } else if n > 1 {
        lemma_placeholder_count((n - 1) as nat);
        lemma_count_placeholders_concat(placeholders_spec((n - 1) as nat), ", ?"@);
        assert(count_placeholders(", ?"@) == 1) by {
            let t = ", ?"@;
            lemma_no_placeholders(t.drop_last());
            assert(t.last() == '?');
        }
    }
}

/// A batch statement has exactly one placeholder per value of its batch, so the values bound
/// to it always match its placeholders.
pub proof fn law_batch_statements_bind_every_value(n: nat)
    ensures
        count_placeholders(delete_in_spec("rowid"@, n)) == n,
        count_placeholders(delete_in_spec("filename"@, n)) == n,
{
    reveal_strlit("DELETE FROM justinmetadata WHERE ");
    reveal_strlit(" IN (");
    reveal_strlit(")");
    reveal_strlit("rowid");
    reveal_strlit("filename");
    lemma_placeholder_count(n);
    let pre = "DELETE FROM justinmetadata WHERE "@;
    lemma_no_placeholders(pre);
    lemma_no_placeholders(" IN ("@);
    lemma_no_placeholders(")"@);
    lemma_no_placeholders("rowid"@);
    lemma_no_placeholders("filename"@);
    let p = placeholders_spec(n);
    lemma_count_placeholders_concat(pre, "rowid"@);
    lemma_count_placeholders_concat(pre + "rowid"@, " IN ("@);
    lemma_count_placeholders_concat(pre + "rowid"@ + " IN ("@, p);
    lemma_count_placeholders_concat(pre + "rowid"@ + " IN ("@ + p, ")"@);
    lemma_count_placeholders_concat(pre, "filename"@);
    lemma_count_placeholders_concat(pre + "filename"@, " IN ("@);
    lemma_count_placeholders_concat(pre + "filename"@ + " IN ("@, p);
    lemma_count_placeholders_concat(pre + "filename"@ + " IN ("@ + p, ")"@);
}

} // verus!
