use smduperemover::order::{descending_order, records_by_id_desc, rows_by_id_desc};
use smduperemover::records::FileRecord;

#[test]
fn order_matches_stable_sort() {
    let samples: Vec<Vec<i128>> = vec![
        vec![],
        vec![5],
        vec![1, 2, 3, 4],
        vec![4, 3, 2, 1],
        vec![3, 1, 3, 2, 1, 3, -7, 0, 12, 3],
        (0..100).map(|i| (i * 37 % 11) as i128).collect(),
    ];
    for keys in samples {
        let mut expected: Vec<usize> = (0..keys.len()).collect();
        expected.sort_by(|a, b| keys[*b].cmp(&keys[*a]));
        assert_eq!(descending_order(&keys), expected, "keys {:?}", keys);
    }
}

#[test]
fn records_sorted_by_id_desc() {
    let records = vec![
        FileRecord { id: 3, filename: "c".to_string() },
        FileRecord { id: 9, filename: "x".to_string() },
        FileRecord { id: 3, filename: "d".to_string() },
        FileRecord { id: 1, filename: "a".to_string() },
    ];
    let sorted = records_by_id_desc(&records);
    let got: Vec<(usize, &str)> = sorted.iter().map(|r| (r.id, r.filename.as_str())).collect();
    assert_eq!(got, vec![(9, "x"), (3, "c"), (3, "d"), (1, "a")]);
}

#[test]
fn rows_sorted_by_id_desc() {
    let rows = vec![(2i64, "b".to_string()), (-1, "n".to_string()), (10, "t".to_string()), (2, "bb".to_string())];
    let mut expected = rows.clone();
    expected.sort_by(|a, b| b.0.cmp(&a.0));
    assert_eq!(rows_by_id_desc(&rows), expected);
}
