use smduperemover::compare::common_filenames;
use smduperemover::config::Config;
use smduperemover::listing::filenames_with_several_paths;
use smduperemover::config::found_pairs;
use smduperemover::run::{duplicate_search_query, finishing_steps, removal_steps, Step};
use smduperemover::sql::ranked_duplicates_query;
use smduperemover::tags::count_new_filenames;

fn strings(items: &[&str]) -> Vec<String> {
    items.iter().map(|s| s.to_string()).collect()
}

#[test]
fn common_filenames_once_each() {
    let a = strings(&["x", "y", "x", "z", "w"]);
    let b = strings(&["z", "x", "q", "x"]);
    assert_eq!(common_filenames(&a, &b), strings(&["x", "z"]));
    assert!(common_filenames(&a, &[]).is_empty());
}

#[test]
fn tag_counts_count_each_filename_once() {
    let found = vec![
        strings(&["a-RVRS_", "b-RVRS_", "a-RVRS_"]),
        strings(&["a-RVRS_", "c-NORM_"]),
        strings(&[]),
        strings(&["d", "c-NORM_", "d"]),
    ];
    let (counts, total) = count_new_filenames(&found);
    assert_eq!(counts, vec![2, 1, 0, 1]);
    assert_eq!(total, 4);
    assert_eq!(counts.iter().sum::<usize>(), total);
}

#[test]
fn paths_listed_for_repeated_filenames() {
    let rows = vec![
        ("Flight INT 1".to_string(), "/a".to_string()),
        ("Flight INT 2".to_string(), "/b".to_string()),
        ("Flight INT 1".to_string(), "/c".to_string()),
        ("Flight INT 1".to_string(), "/a".to_string()),
    ];
    let groups = filenames_with_several_paths(&rows);
    assert_eq!(groups.len(), 1);
    assert_eq!(groups[0].filename, "Flight INT 1");
    assert_eq!(groups[0].paths, strings(&["/a", "/c", "/a"]));
}

fn config(items: &[&str], exists: &[bool]) -> Config {
    match Config::from_args(&strings(items), &found_pairs(exists, exists)).config {
        Ok(c) => c,
        Err(e) => panic!("{:?}", e),
    }
}

#[test]
fn steps_follow_settings() {
    let c = config(&["prog", "db", "-t"], &[false, true, false]);
    assert_eq!(removal_steps(&c), vec![Step::RemoveDuplicateFilenames, Step::PruneTags]);
    assert_eq!(finishing_steps(&c, 0), vec![]);
    assert_eq!(finishing_steps(&c, 3), vec![Step::Vacuum]);

    let c = config(&["prog", "db", "-nud", "-c", "other"], &[false, true, false, false, true]);
    assert_eq!(removal_steps(&c), vec![Step::CompareDatabases]);
    assert_eq!(
        finishing_steps(&c, 1),
        vec![Step::Vacuum, Step::CreateDuplicatesDatabase, Step::ReplaceSource]
    );
}

#[test]
fn law_source_replaced_only_when_unsafe_on_examples() {
    let safe = config(&["prog", "db", "-d"], &[false, true, false]);
    assert!(!finishing_steps(&safe, 5).contains(&Step::ReplaceSource));
    let unsafe_run = config(&["prog", "db", "-u"], &[false, true, false]);
    assert_eq!(finishing_steps(&unsafe_run, 0), vec![Step::ReplaceSource]);
}

#[test]
fn deep_dive_runs_after_the_filename_search() {
    let c = config(&["prog", "db", "-a"], &[false, true, false]);
    assert_eq!(removal_steps(&c), vec![Step::RemoveDuplicateFilenames, Step::DeepDive, Step::PruneTags]);
    assert_eq!(finishing_steps(&c, 2), vec![Step::Vacuum, Step::CreateDuplicatesDatabase]);
    let c = config(&["prog", "db", "-nD"], &[false, true, false]);
    assert_eq!(removal_steps(&c), vec![Step::DeepDive]);
}

#[test]
fn null_group_values_skipped_unless_group_null() {
    let order = strings(&["duration DESC"]);
    let c = config(&["prog", "db", "-g", "category"], &[false, true, false, false]);
    let q = duplicate_search_query(&c, &order);
    assert!(q.contains("WHERE category IS NOT NULL AND category != ''"));
    assert_eq!(q, ranked_duplicates_query(&order, Some(&"category".to_string()), true));
    let c = config(&["prog", "db", "-s"], &[false, true, false]);
    assert!(duplicate_search_query(&c, &order).contains("WHERE show IS NOT NULL"));
    let c = config(&["prog", "db", "--group-null", "show"], &[false, true, false, false]);
    let q = duplicate_search_query(&c, &order);
    assert!(!q.contains("IS NOT NULL"));
    assert!(q.contains("PARTITION BY show, filename"));
    let c = config(&["prog", "db"], &[false, true]);
    assert!(duplicate_search_query(&c, &order).contains("PARTITION BY filename"));
}

#[test]
fn common_filenames_follow_the_first_list() {
    let a = strings(&["c", "a", "b", "a", "d", "c"]);
    let b = strings(&["a", "c", "e", "c"]);
    assert_eq!(common_filenames(&a, &b), strings(&["c", "a"]));
    assert_eq!(common_filenames(&b, &a), strings(&["a", "c"]));
}
