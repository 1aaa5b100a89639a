use shield_backup::paths::{get_workspace_index_path, get_workspace_snapshots_dir, get_pid_file_path, StorePath};

fn path(root: &str, segments: &[&str]) -> StorePath {
    StorePath { root: root.to_string(), segments: segments.iter().map(|s| s.to_string()).collect() }
}

#[test]
fn index_path_is_below_the_shield_directory() {
    assert_eq!(get_workspace_index_path("/work"), path("/work", &[".shield", "index.json"]));
}

#[test]
fn snapshots_dir_is_below_the_shield_directory() {
    assert_eq!(get_workspace_snapshots_dir("/work"), path("/work", &[".shield", "snapshots"]));
}

#[test]
fn pid_file_is_below_the_shield_directory() {
    assert_eq!(get_pid_file_path("/work"), path("/work", &[".shield", "shield.pid"]));
}

#[test]
fn blob_path_is_below_the_snapshots_directory() {
    assert_eq!(
        shield_backup::paths::resolve_blob_path("/work", "2024/blob.bin"),
        path("/work", &[".shield", "snapshots", "2024/blob.bin"])
    );
}

#[test]
fn target_path_is_below_the_workspace() {
    assert_eq!(
        shield_backup::paths::resolve_target_path("/work", "src/main.rs"),
        path("/work", &["src/main.rs"])
    );
}

#[test]
fn global_config_is_below_the_home_directory() {
    assert_eq!(
        shield_backup::paths::get_global_config_path("/home/me"),
        path("/home/me", &[".shield", "config.json"])
    );
}

#[test]
fn joining_appends_one_segment() {
    let joined = StorePath::new("/r").join("a").join("b");
    assert_eq!(joined, path("/r", &["a", "b"]));
    assert_eq!(StorePath::new(""), path("", &[]));
}
