use shield_backup::registry::{
    add_workspace, add_workspace_at, get_workspaces, has_workspace, load_global_config,
    remove_workspace, GlobalConfig, PathProbe, RegistryError, Workspace,
};

fn workspace(path: &str, name: &str, added_at: i64) -> Workspace {
    Workspace { path: path.to_string(), name: name.to_string(), added_at }
}

fn directory(file_name: Option<&str>) -> PathProbe {
    PathProbe { exists: true, is_dir: true, file_name: file_name.map(|s| s.to_string()) }
}

#[test]
fn default_config_knows_no_workspace() {
    assert_eq!(GlobalConfig::default(), GlobalConfig { workspaces: vec![] });
    assert_eq!(load_global_config(None), GlobalConfig { workspaces: vec![] });
}

#[test]
fn decoded_config_is_taken_as_it_is() {
    let config = GlobalConfig { workspaces: vec![workspace("/a", "a", 1), workspace("/b", "b", 2)] };
    let loaded = load_global_config(Some(GlobalConfig {
        workspaces: vec![workspace("/a", "a", 1), workspace("/b", "b", 2)],
    }));
    assert_eq!(loaded, config);
    assert_eq!(get_workspaces(loaded), vec![workspace("/a", "a", 1), workspace("/b", "b", 2)]);
}

#[test]
fn a_directory_is_added_at_the_end() {
    let mut config = GlobalConfig { workspaces: vec![workspace("/a", "a", 1)] };
    let added = add_workspace_at(&mut config, "/home/me/proj".to_string(), &directory(Some("proj")), 42);
    assert_eq!(added, Ok(workspace("/home/me/proj", "proj", 42)));
    assert_eq!(
        config.workspaces,
        vec![workspace("/a", "a", 1), workspace("/home/me/proj", "proj", 42)]
    );
}

#[test]
fn a_path_without_a_last_component_is_named_unknown() {
    let mut config = GlobalConfig::default();
    let added = add_workspace_at(&mut config, "/".to_string(), &directory(None), 5);
    assert_eq!(added, Ok(workspace("/", "Unknown", 5)));
}

#[test]
fn a_missing_directory_is_refused() {
    let mut config = GlobalConfig { workspaces: vec![workspace("/a", "a", 1)] };
    let probe = PathProbe { exists: false, is_dir: false, file_name: Some("x".to_string()) };
    assert_eq!(
        add_workspace_at(&mut config, "/x".to_string(), &probe, 9),
        Err(RegistryError::DirectoryMissing)
    );
    assert_eq!(config.workspaces, vec![workspace("/a", "a", 1)]);
}

#[test]
fn a_file_is_refused() {
    let mut config = GlobalConfig::default();
    let probe = PathProbe { exists: true, is_dir: false, file_name: Some("x".to_string()) };
    assert_eq!(
        add_workspace_at(&mut config, "/x".to_string(), &probe, 9),
        Err(RegistryError::NotADirectory)
    );
    assert!(config.workspaces.is_empty());
}

#[test]
fn a_known_path_is_refused() {
    let mut config = GlobalConfig { workspaces: vec![workspace("/a", "a", 1)] };
    assert_eq!(
        add_workspace_at(&mut config, "/a".to_string(), &directory(Some("a")), 9),
        Err(RegistryError::AlreadyRegistered)
    );
    assert_eq!(config.workspaces, vec![workspace("/a", "a", 1)]);
}

#[test]
fn what_is_missing_is_named_before_what_is_known() {
    let mut config = GlobalConfig { workspaces: vec![workspace("/a", "a", 1)] };
    let gone = PathProbe { exists: false, is_dir: true, file_name: None };
    assert_eq!(
        add_workspace_at(&mut config, "/a".to_string(), &gone, 9),
        Err(RegistryError::DirectoryMissing)
    );
    let file = PathProbe { exists: true, is_dir: false, file_name: None };
    assert_eq!(
        add_workspace_at(&mut config, "/a".to_string(), &file, 9),
        Err(RegistryError::NotADirectory)
    );
}

#[test]
fn registry_error_messages() {
    assert_eq!(RegistryError::DirectoryMissing.message(), "Directory does not exist");
    assert_eq!(RegistryError::NotADirectory.message(), "Path is not a directory");
    assert_eq!(RegistryError::AlreadyRegistered.message(), "Workspace already exists");
}

#[test]
fn adding_by_the_clock_stamps_the_workspace_with_the_time_it_read() {
    let mut config = GlobalConfig::default();
    let added = add_workspace(&mut config, "/p".to_string(), &directory(Some("p"))).unwrap();
    assert_eq!(added.path, "/p");
    assert_eq!(added.name, "p");
    assert!(added.added_at > 1_600_000_000_000);
    assert_eq!(config.workspaces, vec![added.clone()]);
    assert_eq!(
        add_workspace(&mut config, "/p".to_string(), &directory(Some("p"))),
        Err(RegistryError::AlreadyRegistered)
    );
}

#[test]
fn removing_takes_out_every_workspace_with_the_path() {
    let mut config = GlobalConfig {
        workspaces: vec![
            workspace("/a", "a", 1),
            workspace("/b", "b", 2),
            workspace("/a", "again", 3),
            workspace("/c", "c", 4),
        ],
    };
    remove_workspace(&mut config, "/a");
    assert_eq!(config.workspaces, vec![workspace("/b", "b", 2), workspace("/c", "c", 4)]);
    assert!(!has_workspace(&config, &"/a".to_string()));
    assert!(has_workspace(&config, &"/b".to_string()));
}

#[test]
fn removing_an_unknown_path_changes_nothing() {
    let mut config = GlobalConfig { workspaces: vec![workspace("/a", "a", 1)] };
    remove_workspace(&mut config, "/zzz");
    assert_eq!(config.workspaces, vec![workspace("/a", "a", 1)]);
    let mut empty = GlobalConfig::default();
    remove_workspace(&mut empty, "/a");
    assert!(empty.workspaces.is_empty());
}
