use rusqlite::Connection;
use smduperemover::db::get_best_record_id;
use smduperemover::records::{
    convert_and_filter, convert_to_filerecords, flatten_without_best, remove_best_match, FileRecord, IdGroup,
};
use std::collections::{BTreeMap, BTreeSet};

fn rec(id: usize, name: &str) -> FileRecord {
    FileRecord { id, filename: name.to_string() }
}

fn as_map(groups: &[IdGroup]) -> BTreeMap<String, BTreeSet<usize>> {
    groups.iter().map(|g| (g.filename.clone(), g.ids.iter().copied().collect())).collect()
}

fn pairs(records: &[FileRecord]) -> BTreeSet<(String, usize)> {
    records.iter().map(|r| (r.filename.clone(), r.id)).collect()
}

#[test]
fn groups_only_shared_filenames() {
    let records = vec![rec(1, "a.wav"), rec(2, "b.wav"), rec(3, "a.wav"), rec(4, "c.wav"), rec(5, "a.wav"), rec(6, "c.wav")];
    let groups = convert_and_filter(&records);
    let mut expected = BTreeMap::new();
    expected.insert("a.wav".to_string(), [1, 3, 5].into_iter().collect::<BTreeSet<usize>>());
    expected.insert("c.wav".to_string(), [4, 6].into_iter().collect::<BTreeSet<usize>>());
    assert_eq!(as_map(&groups), expected);
}

#[test]
fn same_id_under_one_name_is_no_duplicate() {
    let records = vec![rec(7, "a.wav"), rec(7, "b.wav")];
    assert!(convert_and_filter(&records).is_empty());
    assert!(convert_and_filter(&[]).is_empty());
}

#[test]
fn flattening_gives_every_pair() {
    let groups = vec![
        IdGroup { filename: "a.wav".to_string(), ids: vec![1, 3] },
        IdGroup { filename: "b.wav".to_string(), ids: vec![2] },
    ];
    let recs = convert_to_filerecords(groups);
    let expected: BTreeSet<(String, usize)> =
        [("a.wav".to_string(), 1), ("a.wav".to_string(), 3), ("b.wav".to_string(), 2)].into_iter().collect();
    assert_eq!(pairs(&recs), expected);
    assert_eq!(recs.len(), 3);
}

#[test]
fn law_best_record_kept_on_example() {
    let groups = vec![
        IdGroup { filename: "a.wav".to_string(), ids: vec![1, 3, 5] },
        IdGroup { filename: "b.wav".to_string(), ids: vec![2] },
        IdGroup { filename: "c.wav".to_string(), ids: vec![4, 6] },
    ];
    let marked = flatten_without_best(groups, &[Some(3), Some(2), None]);
    let expected: BTreeSet<(String, usize)> = [
        ("a.wav".to_string(), 1),
        ("a.wav".to_string(), 5),
        ("b.wav".to_string(), 2),
        ("c.wav".to_string(), 4),
        ("c.wav".to_string(), 6),
    ]
    .into_iter()
    .collect();
    assert_eq!(pairs(&marked), expected);
}

#[test]
fn law_grouping_round_trip_on_example() {
    let groups = vec![
        IdGroup { filename: "a.wav".to_string(), ids: vec![1, 3] },
        IdGroup { filename: "c.wav".to_string(), ids: vec![4, 6, 8] },
    ];
    let before = as_map(&groups);
    let recs = convert_to_filerecords(groups);
    let regrouped = convert_and_filter(&recs);
    assert_eq!(as_map(&regrouped), before);
}

#[test]
fn law_only_duplicated_records_are_grouped_on_example() {
    let records = vec![rec(1, "a"), rec(2, "b"), rec(3, "a"), rec(9, "z")];
    let flattened = convert_to_filerecords(convert_and_filter(&records));
    let expected: BTreeSet<(String, usize)> = [("a".to_string(), 1), ("a".to_string(), 3)].into_iter().collect();
    assert_eq!(pairs(&flattened), expected);
}

fn sample_db() -> Connection {
    let conn = Connection::open_in_memory().unwrap();
    conn.execute_batch(
        "CREATE TABLE justinmetadata (record_id INTEGER, filename TEXT, duration INTEGER, samplerate INTEGER, entrydate INTEGER);
         INSERT INTO justinmetadata VALUES (1, 'a.wav', 10, 48000, 5);
         INSERT INTO justinmetadata VALUES (2, 'a.wav', 12, 96000, 1);
         INSERT INTO justinmetadata VALUES (3, 'a.wav', 12, 44100, 2);
         INSERT INTO justinmetadata VALUES (4, 'b.wav', 7, 48000, 1);
         INSERT INTO justinmetadata VALUES (5, 'b.wav', 7, 48000, 9);
         INSERT INTO justinmetadata VALUES (6, 'c.wav', 3, 48000, 1);",
    )
    .unwrap();
    conn
}

#[test]
fn best_record_is_ranked_by_the_database() {
    let conn = sample_db();
    assert_eq!(get_best_record_id(&conn, "a.wav").unwrap(), 3);
    assert_eq!(get_best_record_id(&conn, "b.wav").unwrap(), 5);
    assert_eq!(get_best_record_id(&conn, "c.wav").unwrap(), 6);
    assert!(get_best_record_id(&conn, "none.wav").is_err());
}

#[test]
fn remove_best_match_marks_the_rest() {
    let conn = sample_db();
    let groups = vec![
        IdGroup { filename: "a.wav".to_string(), ids: vec![1, 2, 3] },
        IdGroup { filename: "b.wav".to_string(), ids: vec![4, 5] },
        IdGroup { filename: "z.wav".to_string(), ids: vec![7, 8] },
    ];
    let marked = remove_best_match(&conn, groups).unwrap();
    let expected: BTreeSet<(String, usize)> = [
        ("a.wav".to_string(), 1),
        ("a.wav".to_string(), 2),
        ("b.wav".to_string(), 4),
        ("z.wav".to_string(), 7),
        ("z.wav".to_string(), 8),
    ]
    .into_iter()
    .collect();
    assert_eq!(pairs(&marked), expected);
}

#[test]
fn best_record_ids_fit_a_sqlite_integer() {
    let conn = Connection::open_in_memory().unwrap();
    conn.execute_batch(
        "CREATE TABLE justinmetadata (record_id INTEGER, filename TEXT, duration INTEGER, samplerate INTEGER, entrydate INTEGER);
         INSERT INTO justinmetadata VALUES (9223372036854775807, 'big.wav', 1, 48000, 1);
         INSERT INTO justinmetadata VALUES (-1, 'neg.wav', 1, 48000, 1);",
    )
    .unwrap();
    assert_eq!(get_best_record_id(&conn, "big.wav").unwrap(), i64::MAX as usize);
    assert!(get_best_record_id(&conn, "neg.wav").is_err());
}

#[test]
fn law_grouping_round_trip_keeps_only_several_ids() {
    let groups = vec![
        IdGroup { filename: "a.wav".to_string(), ids: vec![1, 3] },
        IdGroup { filename: "b.wav".to_string(), ids: vec![2] },
        IdGroup { filename: "c.wav".to_string(), ids: vec![] },
        IdGroup { filename: "d.wav".to_string(), ids: vec![4, 6, 8] },
    ];
    let mut expected = as_map(&groups);
    expected.retain(|_, ids| ids.len() >= 2);
    let recs = convert_to_filerecords(groups);
    let regrouped = convert_and_filter(&recs);
    assert_eq!(as_map(&regrouped), expected);
}
