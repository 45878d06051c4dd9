use smduperemover::deep::{base_name, deep_dive_groups};
use smduperemover::records::{flatten_without_best, FileRecord};
use std::collections::{BTreeMap, BTreeSet};

fn rec(id: usize, name: &str) -> FileRecord {
    FileRecord { id, filename: name.to_string() }
}

#[test]
fn numbered_and_m_copies_share_a_base_name() {
    for name in ["crash.flac", "crash.1.flac", "crash.1.2.1.flac", "crash.M.flac"] {
        assert_eq!(base_name(name), "crash.flac", "{}", name);
    }
}

#[test]
fn other_names_keep_their_parts() {
    assert_eq!(base_name("crash"), "crash");
    assert_eq!(base_name("crash.wav"), "crash.wav");
    assert_eq!(base_name("crash.take.flac"), "crash.take.flac");
    assert_eq!(base_name("crash.1a.flac"), "crash.1a.flac");
    assert_eq!(base_name("crash.MM.flac"), "crash.MM.flac");
    assert_eq!(base_name("crash.v2.1.flac"), "crash.v2.flac");
    assert_eq!(base_name("crash..flac"), "crash..flac");
    assert_eq!(base_name("17.wav"), "17.wav");
}

#[test]
fn copies_are_grouped_by_base_name() {
    let records = vec![
        rec(1, "crash.flac"),
        rec(2, "crash.1.flac"),
        rec(3, "boom.wav"),
        rec(4, "crash.M.flac"),
        rec(5, "boom.2.wav"),
        rec(6, "hit.wav"),
    ];
    let groups = deep_dive_groups(&records);
    let map: BTreeMap<String, BTreeSet<usize>> =
        groups.iter().map(|g| (g.filename.clone(), g.ids.iter().copied().collect())).collect();
    let mut expected = BTreeMap::new();
    expected.insert("crash.flac".to_string(), [1, 2, 4].into_iter().collect::<BTreeSet<usize>>());
    expected.insert("boom.wav".to_string(), [3, 5].into_iter().collect::<BTreeSet<usize>>());
    assert_eq!(map, expected);

    let best: Vec<Option<usize>> =
        groups.iter().map(|g| if g.filename == "crash.flac" { Some(2) } else { Some(3) }).collect();
    let marked: BTreeSet<usize> = flatten_without_best(groups, &best).iter().map(|r| r.id).collect();
    assert_eq!(marked, [1, 4, 5].into_iter().collect::<BTreeSet<usize>>());
}
