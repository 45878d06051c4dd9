use smduperemover::settings::{
    default_order, default_tags, order_file_lines, parse_order_lines, parse_tag_lines, tags_file_lines, ORDER_FILE,
    TAGS_FILE,
};

fn strings(items: &[&str]) -> Vec<String> {
    items.iter().map(|s| s.to_string()).collect()
}

#[test]
fn default_order_terms() {
    let order = default_order();
    assert_eq!(
        order,
        strings(&["duration DESC", "channels DESC", "sampleRate DESC", "bitDepth DESC", "BWDate ASC", "scannedDate ASC"])
    );
}

#[test]
fn generated_order_file_has_examples_as_comments() {
    let lines = order_file_lines();
    assert_eq!(lines.len(), 9);
    assert!(lines[0].starts_with("##"));
    assert_eq!(lines[1], "#CASE WHEN pathname LIKE '%LIBRARIES%' THEN 0 ELSE 1 END ASC");
    assert_eq!(lines[2], "#CASE WHEN pathname LIKE '%Audio Files%' THEN 1 ELSE 0 END ASC");
    assert_eq!(lines[3..].to_vec(), default_order());
}

#[test]
fn default_tag_list() {
    let tags = default_tags();
    assert_eq!(tags.len(), 29);
    assert_eq!(tags[0], "-Reverse_");
    assert_eq!(tags[21], "-AVSt");
    assert_eq!(tags[28], "-RING_");
}

#[test]
fn order_lines_are_trimmed_and_filtered() {
    let lines = strings(&["  duration DESC  ", "", "# comment", "   ", "\tchannels DESC", " #also comment", "BWDate ASC"]);
    assert_eq!(parse_order_lines(&lines), strings(&["duration DESC", "channels DESC", "BWDate ASC"]));
}

#[test]
fn tag_lines_keep_hashes() {
    let lines = strings(&[" -Reverse_ ", "", "#tag", "   "]);
    assert_eq!(parse_tag_lines(&lines), strings(&["-Reverse_", "#tag"]));
}

#[test]
fn law_generated_files_read_back_as_defaults() {
    assert_eq!(parse_order_lines(&order_file_lines()), default_order());
    assert_eq!(parse_tag_lines(&tags_file_lines()), default_tags());
    assert!(order_file_lines()[0].starts_with("##"));
}

#[test]
fn config_file_names() {
    assert_eq!(ORDER_FILE, "SMDupe_order.txt");
    assert_eq!(TAGS_FILE, "SMDupe_tags.txt");
}
