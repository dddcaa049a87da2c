use mxqueue::queue::{
    get_dst_dir, is_job_file, map_paths, select_job_files, MappingError, PathMapping,
};

fn strings(items: &[&str]) -> Vec<String> {
    items.iter().map(|s| s.to_string()).collect()
}

fn mapping(src: &str, dst: &str, entries: &[&str]) -> Result<PathMapping, MappingError> {
    map_paths(src, dst, Some(strings(entries)))
}

#[test]
fn map_run1_scenario() {
    let m = mapping(
        "jobs/run1",
        "./jobs",
        &["jobs/run1/a.mx3", "jobs/run1/b.mx3"],
    )
    .unwrap();
    assert_eq!(m.remote_dir, "./jobs/run1");
    assert_eq!(m.pairs.len(), 2);
    assert_eq!(m.pairs[0].0, "jobs/run1/a.mx3");
    assert_eq!(m.pairs[0].1, "./jobs/run1/a.mx3");
    assert_eq!(m.pairs[1].0, "jobs/run1/b.mx3");
    assert_eq!(m.pairs[1].1, "./jobs/run1/b.mx3");
}

#[test]
fn map_accepts_trailing_slash_on_source() {
    let m = mapping("jobs/run1/", "./jobs", &["jobs/run1/a.mx3"]).unwrap();
    assert_eq!(m.remote_dir, "./jobs/run1");
    assert_eq!(m.pairs[0].1, "./jobs/run1/a.mx3");
}

#[test]
fn map_no_input_files() {
    let r = mapping("jobs/run1", "./jobs", &["jobs/run1/notes.txt"]);
    assert_eq!(r.unwrap_err(), MappingError::NoInputFiles);
}

#[test]
fn map_empty_listing() {
    let r = mapping("jobs/run1", "./jobs", &[]);
    assert_eq!(r.unwrap_err(), MappingError::NoInputFiles);
}

#[test]
fn map_missing_source_dir_is_distinct_error() {
    let r = map_paths("jobs/absent", "./jobs", None);
    assert_eq!(r.unwrap_err(), MappingError::SourceDirMissing);
}

#[test]
fn map_rejects_file_outside_source() {
    let r = mapping("jobs/run1", "./jobs", &["elsewhere/a.mx3"]);
    assert_eq!(r.unwrap_err(), MappingError::NotUnderSource);
}

#[test]
fn remote_paths_start_with_root_and_source_name() {
    let m = mapping(
        "jobs/run1",
        "/remote/jobs",
        &["jobs/run1/a.mx3", "jobs/run1/b.mx3"],
    )
    .unwrap();
    let prefix = "/remote/jobs/run1/";
    for (local, remote) in &m.pairs {
        assert!(remote.starts_with(prefix));
        let rel = &remote[prefix.len()..];
        assert_eq!(format!("jobs/run1/{}", rel), *local);
    }
}

#[test]
fn extension_filter_is_exact() {
    assert!(is_job_file("jobs/run1/a.mx3"));
    assert!(!is_job_file("jobs/run1/.mx3"));
    assert!(!is_job_file(".mx3"));
    assert!(!is_job_file("jobs/run1/a.mx3x"));
    assert!(!is_job_file("jobs/run1/A.MX3"));
    assert!(!is_job_file("mx3"));
}

#[test]
fn select_keeps_order() {
    let picked = select_job_files(&strings(&[
        "d/b.mx3",
        "d/readme.md",
        "d/a.mx3",
        "d/.mx3",
    ]));
    assert_eq!(picked, strings(&["d/b.mx3", "d/a.mx3"]));
}

#[test]
fn dst_dir_mirrors_source_name() {
    assert_eq!(get_dst_dir("jobs/run1", "./jobs"), "./jobs/run1");
    assert_eq!(get_dst_dir("jobs/run1//", "dst"), "dst/run1");
    assert_eq!(get_dst_dir("run1", "dst"), "dst/run1");
}
