use smduperemover::paths::{dupes_db_path, strip_sqlite_extension, thinned_db_path};

#[test]
fn strip_matches_trim_end_matches() {
    for s in ["a.sqlite", "a.sqlite.sqlite", "a", ".sqlite", "", "db.sqlite3", "my.sqlite.db", "x.SQLITE"] {
        assert_eq!(strip_sqlite_extension(s), s.trim_end_matches(".sqlite"), "sample {:?}", s);
    }
}

#[test]
fn derived_paths() {
    assert_eq!(thinned_db_path("library.sqlite"), "library_thinned.sqlite");
    assert_eq!(dupes_db_path("library.sqlite"), "library_dupes.sqlite");
    assert_eq!(thinned_db_path("/dbs/a.sqlite.sqlite"), "/dbs/a_thinned.sqlite");
    assert_eq!(thinned_db_path("noext"), "noext_thinned.sqlite");
}

#[test]
fn law_paths_never_collide_on_examples() {
    for s in ["x_thinned.sqlite", "x_dupes.sqlite", ".sqlite", "", "_thinned", "a.sqlite"] {
        let t = thinned_db_path(s);
        let d = dupes_db_path(s);
        assert_ne!(t, s);
        assert_ne!(d, s);
        assert_ne!(t, d);
    }
}
