use smduperemover::sql::{
    batch_bounds, delete_by_filename_query, delete_by_rowid_query, join_with_commas, placeholders,
    ranked_duplicates_query, BATCH_SIZE, deep_dive_best_query, like_pattern, TAG_DELETE_QUERY,
    TAG_SELECT_QUERY,
};

fn strings(items: &[&str]) -> Vec<String> {
    items.iter().map(|s| s.to_string()).collect()
}

#[test]
fn placeholders_are_joined() {
    assert_eq!(placeholders(0), "");
    assert_eq!(placeholders(1), "?");
    assert_eq!(placeholders(3), "?, ?, ?");
    assert_eq!(placeholders(5), vec!["?"; 5].join(", "));
}

#[test]
fn delete_statements() {
    assert_eq!(delete_by_rowid_query(2), "DELETE FROM justinmetadata WHERE rowid IN (?, ?)");
    assert_eq!(delete_by_filename_query(1), "DELETE FROM justinmetadata WHERE filename IN (?)");
}

#[test]
fn law_statement_placeholders_match_values() {
    for n in [1usize, 2, 7, 100, BATCH_SIZE] {
        assert_eq!(delete_by_rowid_query(n).matches('?').count(), n);
        assert_eq!(delete_by_filename_query(n).matches('?').count(), n);
    }
}

#[test]
fn batches_match_chunks() {
    for len in [0usize, 1, 9, 10, 11, 25, 30] {
        let items: Vec<usize> = (0..len).collect();
        let expected: Vec<(usize, usize)> = items
            .chunks(10)
            .map(|c| (c[0], c[c.len() - 1] + 1))
            .collect();
        assert_eq!(batch_bounds(len, 10), expected, "len {}", len);
    }
    assert_eq!(batch_bounds(25000, BATCH_SIZE), vec![(0, 10000), (10000, 20000), (20000, 25000)]);
}

#[test]
fn join_matches_std() {
    for items in [vec![], vec!["a"], vec!["duration DESC", "channels DESC", "BWDate ASC"]] {
        let v = strings(&items);
        assert_eq!(join_with_commas(&v), v.join(", "));
    }
}

#[test]
fn ranked_query_without_group() {
    let order = strings(&["duration DESC", "channels DESC"]);
    let expected = format!(
        "
            WITH ranked AS (
                SELECT
                    rowid AS id,
                    filename,
                    ROW_NUMBER() OVER (
                        PARTITION BY filename
                        ORDER BY {}
                    ) as rn
                FROM justinmetadata
            )
            SELECT id, filename FROM ranked WHERE rn > 1
            ",
        order.join(", ")
    );
    assert_eq!(ranked_duplicates_query(&order, None, false), expected);
    assert_eq!(ranked_duplicates_query(&order, None, true), expected);
}

#[test]
fn ranked_query_with_group() {
    let order = strings(&["duration DESC"]);
    let group = "show".to_string();
    for skip_null in [false, true] {
        let null_text = if skip_null {
            format!("WHERE {} IS NOT NULL AND {} != ''", group, group)
        } else {
            "".to_string()
        };
        let expected = format!(
            "
            WITH ranked AS (
                SELECT
                    rowid AS id,
                    filename,
                    ROW_NUMBER() OVER (
                        PARTITION BY {}, filename
                        ORDER BY {}
                    ) as rn
                FROM justinmetadata {}
            )
            SELECT id, filename FROM ranked WHERE rn > 1
            ",
            group,
            order.join(", "),
            null_text
        );
        assert_eq!(ranked_duplicates_query(&order, Some(&group), skip_null), expected);
    }
}

#[test]
fn like_patterns_escape_wildcards() {
    assert_eq!(like_pattern("-Reverse_"), "%-Reverse\\_%");
    assert_eq!(like_pattern("50%"), "%50\\%%");
    assert_eq!(like_pattern("a\\b"), "%a\\\\b%");
    assert_eq!(like_pattern("-AVSt"), "%-AVSt%");
    assert_eq!(like_pattern(""), "%%");
}

#[test]
fn tag_queries_match_literally() {
    let conn = rusqlite::Connection::open_in_memory().unwrap();
    conn.execute_batch(
        "CREATE TABLE justinmetadata (filename TEXT);
         INSERT INTO justinmetadata VALUES ('boom-Reverse_1.wav');
         INSERT INTO justinmetadata VALUES ('boom-ReverseX1.wav');
         INSERT INTO justinmetadata VALUES ('plain.wav');",
    )
    .unwrap();
    let mut stmt = conn.prepare(TAG_SELECT_QUERY).unwrap();
    let found: Vec<String> = stmt
        .query_map([like_pattern("-Reverse_")], |row| row.get(0))
        .unwrap()
        .map(|r| r.unwrap())
        .collect();
    assert_eq!(found, vec!["boom-Reverse_1.wav".to_string()]);
    let deleted = conn.execute(TAG_DELETE_QUERY, [like_pattern("-Reverse_")]).unwrap();
    assert_eq!(deleted, 1);
}

#[test]
fn deep_dive_best_queries() {
    assert_eq!(
        deep_dive_best_query(2, &strings(&["channels DESC", "BWDate ASC"])),
        "SELECT rowid FROM justinmetadata WHERE rowid IN (?, ?) ORDER BY duration DESC, channels DESC, BWDate ASC LIMIT 1"
    );
    assert_eq!(
        deep_dive_best_query(1, &[]),
        "SELECT rowid FROM justinmetadata WHERE rowid IN (?) ORDER BY duration DESC LIMIT 1"
    );
}
