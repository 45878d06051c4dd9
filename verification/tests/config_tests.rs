use smduperemover::config::{check_path, existing_paths, found_pairs, Config, ConfigError, ParsedArgs};

fn args(items: &[&str]) -> Vec<String> {
    items.iter().map(|s| s.to_string()).collect()
}

fn parse(items: &[&str], exists: &[bool]) -> ParsedArgs {
    Config::from_args(&args(items), &found_pairs(exists, exists))
}

fn parse_with_files(items: &[&str], before: &[bool], after: &[bool]) -> ParsedArgs {
    Config::from_args(&args(items), &found_pairs(before, after))
}

fn config_of(p: ParsedArgs) -> Config {
    match p.config {
        Ok(c) => c,
        Err(e) => panic!("unexpected error {:?}", e),
    }
}

fn error_of(p: ParsedArgs) -> ConfigError {
    match p.config {
        Ok(_) => panic!("expected an error"),
        Err(e) => e,
    }
}

#[test]
fn defaults_with_only_a_database() {
    let c = config_of(parse(&["prog", "db.sqlite"], &[false, true]));
    assert_eq!(c.target_db.as_deref(), Some("db.sqlite"));
    assert_eq!(c.compare_db, None);
    assert!(!c.duplicate_db);
    assert!(c.filename_check);
    assert_eq!(c.group_sort, None);
    assert!(!c.group_null);
    assert!(!c.prune_tags);
    assert!(c.safe);
    assert!(c.prompt);
    assert!(!c.verbose);
}

#[test]
fn long_flags_set_their_settings() {
    let c = config_of(parse(
        &["prog", "--prune-tags", "db.sqlite", "--no-filename-check", "--create-duplicates-database", "--verbose", "--yes"],
        &[false, false, true, false, false, false, false],
    ));
    assert!(c.prune_tags);
    assert!(!c.filename_check);
    assert!(c.duplicate_db);
    assert!(c.verbose);
    assert!(!c.prompt);
    assert!(c.safe);
}

#[test]
fn short_flag_cluster_sets_each_flag() {
    let c = config_of(parse(&["prog", "db.sqlite", "-tndvy"], &[false, true, false]));
    assert!(c.prune_tags);
    assert!(!c.filename_check);
    assert!(c.duplicate_db);
    assert!(c.verbose);
    assert!(!c.prompt);
}

#[test]
fn unsafe_turns_off_safety_and_prompt() {
    let c = config_of(parse(&["prog", "db.sqlite", "--unsafe"], &[false, true, false]));
    assert!(!c.safe);
    assert!(!c.prompt);
    let c = config_of(parse(&["prog", "-u", "db.sqlite"], &[false, false, true]));
    assert!(!c.safe);
    assert!(!c.prompt);
}

#[test]
fn show_and_library_groups() {
    let c = config_of(parse(&["prog", "db.sqlite", "-s"], &[false, true, false]));
    assert_eq!(c.group_sort.as_deref(), Some("show"));
    let c = config_of(parse(&["prog", "db.sqlite", "--group-by-library"], &[false, true, false]));
    assert_eq!(c.group_sort.as_deref(), Some("library"));
    let c = config_of(parse(&["prog", "db.sqlite", "-sl"], &[false, true, false]));
    assert_eq!(c.group_sort.as_deref(), Some("library"));
}

#[test]
fn group_takes_next_argument() {
    let c = config_of(parse(&["prog", "--group", "category", "db.sqlite"], &[false, false, false, true]));
    assert_eq!(c.group_sort.as_deref(), Some("category"));
    assert!(!c.group_null);
    assert_eq!(c.target_db.as_deref(), Some("db.sqlite"));
}

#[test]
fn group_null_sets_both() {
    let c = config_of(parse(&["prog", "db.sqlite", "--group-null", "show"], &[false, true, false, false]));
    assert_eq!(c.group_sort.as_deref(), Some("show"));
    assert!(c.group_null);
}

#[test]
fn cluster_values_are_taken_in_order() {
    let c = config_of(parse(
        &["prog", "db.sqlite", "-gc", "category", "other.sqlite", "-v"],
        &[false, true, false, false, true, false],
    ));
    assert_eq!(c.group_sort.as_deref(), Some("category"));
    assert_eq!(c.compare_db.as_deref(), Some("other.sqlite"));
    assert!(c.verbose);
}

#[test]
fn compare_database_that_does_not_exist_is_dropped() {
    let c = config_of(parse(&["prog", "db.sqlite", "--compare", "missing.sqlite"], &[false, true, false, false]));
    assert_eq!(c.compare_db, None);
    let c = config_of(parse(&["prog", "db.sqlite", "--compare", "there.sqlite"], &[false, true, false, true]));
    assert_eq!(c.compare_db.as_deref(), Some("there.sqlite"));
}

#[test]
fn missing_target_then_existing_one() {
    let c = config_of(parse(&["prog", "gone.sqlite", "db.sqlite"], &[false, false, true]));
    assert_eq!(c.target_db.as_deref(), Some("db.sqlite"));
}

#[test]
fn error_no_primary_database() {
    assert_eq!(error_of(parse(&["prog"], &[false])), ConfigError::NoPrimaryDatabase);
    assert_eq!(error_of(parse(&["prog", "gone.sqlite"], &[false, false])), ConfigError::NoPrimaryDatabase);
    assert_eq!(error_of(parse(&[], &[])), ConfigError::NoPrimaryDatabase);
}

#[test]
fn error_multiple_primary_databases() {
    assert_eq!(
        error_of(parse(&["prog", "a.sqlite", "b.sqlite"], &[false, true, true])),
        ConfigError::MultiplePrimaryDatabases
    );
}

#[test]
fn error_group_argument_missing() {
    assert_eq!(error_of(parse(&["prog", "db.sqlite", "--group"], &[false, true, false])), ConfigError::GroupArgumentMissing);
    assert_eq!(error_of(parse(&["prog", "db.sqlite", "--group-null"], &[false, true, false])), ConfigError::GroupArgumentMissing);
    assert_eq!(error_of(parse(&["prog", "db.sqlite", "-g"], &[false, true, false])), ConfigError::GroupArgumentMissing);
}

#[test]
fn error_missing_compare_database() {
    assert_eq!(error_of(parse(&["prog", "db.sqlite", "--compare"], &[false, true, false])), ConfigError::MissingCompareDatabase);
    assert_eq!(error_of(parse(&["prog", "db.sqlite", "-c"], &[false, true, false])), ConfigError::MissingCompareDatabase);
}

#[test]
fn error_help() {
    assert_eq!(error_of(parse(&["prog", "db.sqlite", "--help"], &[false, true, false])), ConfigError::HelpRequested);
    assert_eq!(error_of(parse(&["prog", "-vh", "db.sqlite"], &[false, false, true])), ConfigError::AskedForHelp);
}

#[test]
fn error_unknown_option() {
    assert_eq!(error_of(parse(&["prog", "db.sqlite", "-vx"], &[false, true, false])), ConfigError::UnknownOption('x'));
    assert_eq!(error_of(parse(&["prog", "db.sqlite", "-p"], &[false, true, false])), ConfigError::UnknownOption('p'));
}

#[test]
fn error_messages() {
    assert_eq!(ConfigError::GroupArgumentMissing.message(), "group argument missing");
    assert_eq!(ConfigError::MissingCompareDatabase.message(), "Missing database name for --compare");
    assert_eq!(ConfigError::HelpRequested.message(), "Help requested");
    assert_eq!(ConfigError::AskedForHelp.message(), "Asked for Help");
    assert_eq!(ConfigError::UnknownOption('q').message(), "Unknown option");
    assert_eq!(ConfigError::MultiplePrimaryDatabases.message(), "Multiple primary databases specified");
    assert_eq!(ConfigError::NoPrimaryDatabase.message(), "No Primary Database Specified");
}

#[test]
fn generate_config_requests_are_counted() {
    let p = parse(&["prog", "--generate-config-files", "db.sqlite", "--generate-config-files"], &[false, false, true, false]);
    assert_eq!(p.generate_config_requests, 2);
    let p = parse(&["prog", "--generate-config-files"], &[false, false]);
    assert_eq!(p.generate_config_requests, 1);
    assert_eq!(error_of(p), ConfigError::NoPrimaryDatabase);
    let p = parse(&["prog", "--group", "--generate-config-files", "db.sqlite"], &[false, false, false, true]);
    assert_eq!(p.generate_config_requests, 0);
}

#[test]
fn single_dash_and_unknown_long_flag() {
    let c = config_of(parse(&["prog", "db.sqlite", "-"], &[false, true, false]));
    assert_eq!(c.target_db.as_deref(), Some("db.sqlite"));
    assert_eq!(
        error_of(parse(&["prog", "db.sqlite", "--bogus"], &[false, true, false])),
        ConfigError::MultiplePrimaryDatabases
    );
}

#[test]
fn law_unsafe_never_prompts_on_examples() {
    for line in [
        vec!["prog", "db.sqlite", "-u"],
        vec!["prog", "-u", "db.sqlite", "-v"],
        vec!["prog", "db.sqlite", "--unsafe", "--yes"],
        vec!["prog", "db.sqlite", "-yu", "--verbose"],
    ] {
        let exists: Vec<bool> = line.iter().map(|a| *a == "db.sqlite").collect();
        let c = config_of(parse(&line, &exists));
        assert!(!c.safe);
        assert!(!c.prompt);
    }
}

#[test]
fn check_path_on_real_paths() {
    assert_eq!(check_path("/").as_deref(), Some("/"));
    assert_eq!(check_path("/this/path/does/not/exist/at/all.sqlite"), None);
}

#[test]
fn new_looks_up_paths() {
    let p = Config::new(&args(&["prog", "/", "-v"]));
    let c = config_of(p);
    assert_eq!(c.target_db.as_deref(), Some("/"));
    assert!(c.verbose);
    let p = Config::new(&args(&["prog", "/this/path/does/not/exist.sqlite"]));
    assert_eq!(error_of(p), ConfigError::NoPrimaryDatabase);
}

fn same_settings(a: &Config, b: &Config) -> bool {
    a.target_db == b.target_db
        && a.compare_db == b.compare_db
        && a.duplicate_db == b.duplicate_db
        && a.filename_check == b.filename_check
        && a.deep_dive == b.deep_dive
        && a.group_sort == b.group_sort
        && a.group_null == b.group_null
        && a.prune_tags == b.prune_tags
        && a.safe == b.safe
        && a.prompt == b.prompt
        && a.verbose == b.verbose
}

#[test]
fn law_short_flags_match_long_options_on_examples() {
    let pairs = [
        ("-t", "--prune-tags"),
        ("-n", "--no-filename-check"),
        ("-s", "--group-by-show"),
        ("-l", "--group-by-library"),
        ("-y", "--no-prompt"),
        ("-u", "--unsafe"),
        ("-d", "--create-duplicates-database"),
        ("-v", "--verbose"),
        ("-a", "--all"),
        ("-D", "--deep-dive"),
        ("-g", "--group"),
        ("-c", "--compare"),
    ];
    for (short, long) in pairs {
        let exists = [false, true, false, true];
        let a = parse(&["prog", "db.sqlite", short, "other.sqlite"], &exists);
        let b = parse(&["prog", "db.sqlite", long, "other.sqlite"], &exists);
        assert_eq!(a.generate_config_requests, b.generate_config_requests);
        match (a.config, b.config) {
            (Ok(x), Ok(y)) => assert!(same_settings(&x, &y), "{} and {} differ", short, long),
            (Err(x), Err(y)) => assert_eq!(x, y, "{} and {} differ", short, long),
            _ => panic!("{} and {} differ", short, long),
        }
        let a = config_of(parse(&["prog", short, "x", "db.sqlite"], &[false, false, false, true]));
        let b = config_of(parse(&["prog", long, "x", "db.sqlite"], &[false, false, false, true]));
        assert!(same_settings(&a, &b), "{} and {} differ", short, long);
    }
    let c = config_of(parse(&["prog", "db.sqlite", "-c", "other.sqlite"], &[false, true, false, true]));
    assert_eq!(c.compare_db.as_deref(), Some("other.sqlite"));
    assert_eq!(
        error_of(parse(&["prog", "db.sqlite", "-g"], &[false, true, false])),
        error_of(parse(&["prog", "db.sqlite", "--group"], &[false, true, false]))
    );
}

#[test]
fn law_both_help_flags_stop_on_examples() {
    assert!(parse(&["prog", "db.sqlite", "-h"], &[false, true, false]).config.is_err());
    assert!(parse(&["prog", "db.sqlite", "--help"], &[false, true, false]).config.is_err());
    assert!(parse(&["prog", "-h"], &[false, false]).config.is_err());
}

#[test]
fn group_column_outranks_show_and_library() {
    let c = config_of(parse(&["prog", "db.sqlite", "-g", "category", "-s"], &[false, true, false, false, false]));
    assert_eq!(c.group_sort.as_deref(), Some("category"));
    assert!(!c.group_null);
    let c = config_of(parse(&["prog", "db.sqlite", "-l", "--group", "category"], &[false, true, false, false, false]));
    assert_eq!(c.group_sort.as_deref(), Some("category"));
    let c = config_of(parse(&["prog", "db.sqlite", "--group-null", "show", "-lv"], &[false, true, false, false, false]));
    assert_eq!(c.group_sort.as_deref(), Some("show"));
    assert!(c.group_null);
    assert!(c.verbose);
    let c = config_of(parse(&["prog", "db.sqlite", "-gs", "category"], &[false, true, false, false]));
    assert_eq!(c.group_sort.as_deref(), Some("category"));
    let c = config_of(parse(&["prog", "db.sqlite", "-s", "-l"], &[false, true, false, false]));
    assert_eq!(c.group_sort.as_deref(), Some("library"));
}

#[test]
fn all_turns_on_every_search() {
    let c = config_of(parse(&["prog", "db.sqlite", "-a"], &[false, true, false]));
    assert!(c.filename_check && c.prune_tags && c.deep_dive && c.duplicate_db);
    let c = config_of(parse(&["prog", "-n", "--all", "db.sqlite"], &[false, false, false, true]));
    assert!(c.filename_check && c.prune_tags && c.deep_dive && c.duplicate_db);
    let c = config_of(parse(&["prog", "db.sqlite"], &[false, true]));
    assert!(!c.deep_dive);
}

#[test]
fn deep_dive_flag() {
    let c = config_of(parse(&["prog", "db.sqlite", "-D"], &[false, true, false]));
    assert!(c.deep_dive);
    assert!(!c.prune_tags);
    let c = config_of(parse(&["prog", "--deep-dive", "db.sqlite"], &[false, false, true]));
    assert!(c.deep_dive);
}

#[test]
fn generated_configuration_file_counts_as_found() {
    let line = ["prog", "--generate-config-files", "./SMDupe_tags.txt"];
    let p = parse_with_files(&line, &[false, false, false], &[false, false, true]);
    assert_eq!(p.generate_config_requests, 1);
    assert_eq!(config_of(p).target_db.as_deref(), Some("./SMDupe_tags.txt"));
    let line = ["prog", "SMDupe_tags.txt", "--generate-config-files"];
    assert_eq!(
        error_of(parse_with_files(&line, &[false, false, false], &[false, true, false])),
        ConfigError::NoPrimaryDatabase
    );
    let line = ["prog", "--generate-config-files", "db.sqlite", "-c", "SMDupe_order.txt"];
    let c = config_of(parse_with_files(&line, &[false, false, true, false, false], &[false, false, true, false, true]));
    assert_eq!(c.compare_db.as_deref(), Some("SMDupe_order.txt"));
}

#[test]
fn law_files_are_asked_for_before_they_exist_on_examples() {
    let line = ["prog", "db.sqlite", "-v"];
    let before = [false, true, false];
    let after = [true, false, true];
    let first = parse_with_files(&line, &before, &before);
    let second = parse_with_files(&line, &before, &after);
    assert_eq!(first.generate_config_requests, 0);
    assert_eq!(second.generate_config_requests, 0);
    assert_eq!(config_of(first).target_db, config_of(second).target_db);
    let line = ["prog", "--generate-config-files", "x.sqlite", "y.sqlite"];
    let first = parse_with_files(&line, &[false, false, false, false], &[false, false, false, false]);
    let second = parse_with_files(&line, &[false, false, false, false], &[false, false, true, true]);
    assert_eq!(first.generate_config_requests, 1);
    assert_eq!(second.generate_config_requests, 1);
    assert_eq!(error_of(second), ConfigError::MultiplePrimaryDatabases);
}

#[test]
fn existing_paths_look_at_every_argument() {
    assert_eq!(existing_paths(&args(&["/", "/this/path/does/not/exist.sqlite"])), vec![true, false]);
}

#[test]
fn law_accepted_databases_are_found_arguments_on_examples() {
    let line = ["prog", "db.sqlite", "-c", "other.sqlite", "--group-null", "show"];
    let exists = [true, true, false, true, false, false];
    let c = config_of(parse(&line, &exists));
    assert_eq!(c.target_db.as_deref(), Some("db.sqlite"));
    assert_eq!(c.compare_db.as_deref(), Some("other.sqlite"));
    assert!(c.group_null && c.group_sort.is_some());
    assert_eq!(error_of(parse(&["prog"], &[true])), ConfigError::NoPrimaryDatabase);
}
