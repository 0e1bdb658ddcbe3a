use sql_api::plan_text::redact_working_dir;

#[test]
fn working_dir_is_cut_from_file_paths() {
    let plan = "DataSourceExec: file_groups={2 groups: [[home/me/proj/api/parquet/part/1.parquet], [home/me/proj/api/parquet/part/2.parquet]]}, file_type=parquet";
    let r = redact_working_dir(plan, "/home/me/proj");
    assert_eq!(
        r,
        "DataSourceExec: file_groups={2 groups: [[/api/parquet/part/1.parquet], [/api/parquet/part/2.parquet]]}, file_type=parquet"
    );
}

#[test]
fn redaction_twice_changes_nothing() {
    let plan = "ProjectionExec\n  DataSourceExec: file_groups={1 group: [[srv/app/api/parquet/weather]]}";
    let once = redact_working_dir(plan, "/srv/app");
    let twice = redact_working_dir(&once, "/srv/app");
    assert_eq!(once, twice);
    assert!(!once.contains("srv/app"));
    assert_eq!(redact_working_dir(plan, "/srv/app"), once);
}

#[test]
fn root_working_dir_cuts_nothing() {
    let plan = "DataSourceExec: [[api/parquet/x.parquet]]";
    assert_eq!(redact_working_dir(plan, "/"), plan);
    assert_eq!(redact_working_dir(plan, ""), plan);
}

#[test]
fn all_leading_slashes_are_dropped_from_the_dir() {
    assert_eq!(redact_working_dir("[a/b/c]", "//a/b"), "[/c]");
}

#[test]
fn cutting_resumes_after_each_match() {
    assert_eq!(redact_working_dir("abab-ab", "ab"), "-");
    assert_eq!(redact_working_dir("aaa", "aa"), "a");
    // Cutting can join two halves into a new copy; it is not cut again.
    assert_eq!(redact_working_dir("aabb", "ab"), "ab");
}

#[test]
fn text_without_the_dir_is_unchanged() {
    assert_eq!(redact_working_dir("héllo wörld", "/tmp/x"), "héllo wörld");
    assert_eq!(redact_working_dir("", "/tmp/x"), "");
}
