use mote::path_resolver::{
    is_absolute, join, resolve_ignore_file_path, resolve_path, starts_with_path, strip_prefix,
    tree_path,
};

#[test]
fn test_resolve_path_absolute() {
    let base = "/base";
    let path = "/absolute/path";
    assert_eq!(resolve_path(base, path), "/absolute/path");
}

#[test]
fn test_resolve_path_relative() {
    let base = "/base";
    let path = "relative/path";
    assert_eq!(resolve_path(base, path), "/base/relative/path");
}

#[test]
fn test_resolve_ignore_file_path_with_cli() {
    let project_root = "/project";
    let cli_path = Some("custom/my.ignore");
    let result = resolve_ignore_file_path(project_root, cli_path, ".moteignore");
    assert_eq!(result, "/project/custom/my.ignore");
}

#[test]
fn test_resolve_ignore_file_path_without_cli() {
    let project_root = "/project";
    let result = resolve_ignore_file_path(project_root, None, ".moteignore");
    assert_eq!(result, "/project/.moteignore");
}

#[test]
fn test_resolve_ignore_file_path_absolute() {
    let project_root = "/project";
    let cli_path = Some("/tmp/my.ignore");
    let result = resolve_ignore_file_path(project_root, cli_path, ".moteignore");
    assert_eq!(result, "/tmp/my.ignore");
}

#[test]
fn test_directory_structure_documentation() {
    let config_dir = "/home/user/.config/mote";
    let project_name = "my-project";
    let context_name = "default";

    let project_dir = join(&join(config_dir, "projects"), project_name);
    assert_eq!(project_dir, "/home/user/.config/mote/projects/my-project");

    let context_dir = join(&join(&project_dir, "contexts"), context_name);
    assert_eq!(
        context_dir,
        "/home/user/.config/mote/projects/my-project/contexts/default"
    );

    let storage_dir = join(&context_dir, "storage");
    assert_eq!(
        storage_dir,
        "/home/user/.config/mote/projects/my-project/contexts/default/storage"
    );

    // the same with std's paths
    let std_dir = std::path::PathBuf::from(config_dir).join("projects").join(project_name);
    assert_eq!(std_dir, std::path::PathBuf::from(&project_dir));
}

#[test]
fn test_config_file_paths() {
    let config_dir = "/home/user/.config/mote";

    let global_config = join(config_dir, "config.toml");
    assert_eq!(global_config, "/home/user/.config/mote/config.toml");

    let project_config = join(&join(&join(config_dir, "projects"), "my-project"), "config.toml");
    assert_eq!(
        project_config,
        "/home/user/.config/mote/projects/my-project/config.toml"
    );

    let context_config = join(
        &join(
            &join(&join(&join(config_dir, "projects"), "my-project"), "contexts"),
            "default",
        ),
        "config.toml",
    );
    assert_eq!(
        context_config,
        "/home/user/.config/mote/projects/my-project/contexts/default/config.toml"
    );
}

#[test]
fn join_adds_one_separator() {
    assert_eq!(join("/a", "b"), "/a/b");
    assert_eq!(join("/a/", "b"), "/a/b");
    assert_eq!(join("", "b"), "b");
    assert_eq!(join("/a", ""), "/a/");
    assert_eq!(join("/a", "/b"), "/b");
    assert_eq!(join("/", "b"), "/b");
}

#[test]
fn join_agrees_with_std_paths() {
    let cases = vec![("/a", "b"), ("/a/", "b"), ("", "b"), ("/a", "/b"), ("a/b", "c/d"), ("/a", "")];
    for (base, segment) in cases {
        let expected = std::path::Path::new(base).join(segment);
        assert_eq!(std::path::PathBuf::from(join(base, segment)), expected);
    }
}

#[test]
fn absolute_paths_start_with_a_slash() {
    assert!(is_absolute("/x"));
    assert!(is_absolute("/"));
    assert!(!is_absolute("x/y"));
    assert!(!is_absolute(""));
}

#[test]
fn paths_within_a_directory() {
    assert!(starts_with_path("/a/b/c", "/a/b"));
    assert!(starts_with_path("/a/b", "/a/b"));
    assert!(starts_with_path("/a/b", "/a/b/"));
    assert!(starts_with_path("/a/b/c", "/"));
    assert!(!starts_with_path("/a/bc", "/a/b"));
    assert!(!starts_with_path("/a", "/a/b"));
    assert!(!starts_with_path("/x/b", "/a/b"));
    assert_eq!(strip_prefix("/a/b/c", "/a"), "b/c");
    assert_eq!(strip_prefix("/a/b/c", "/a/"), "b/c");
    assert_eq!(strip_prefix("/a", "/a"), "");
    assert_eq!(strip_prefix("/ab", "/a"), "/ab");
}

#[test]
fn paths_within_agree_with_std() {
    for (path, base) in [
        ("/a/b/c", "/a/b"),
        ("/a/b", "/a/b"),
        ("/a/bc", "/a/b"),
        ("/a", "/a/b"),
        ("/a/b/c", "/"),
        ("/a/b", "/a/b/"),
    ] {
        assert_eq!(
            starts_with_path(path, base),
            std::path::Path::new(path).starts_with(base),
            "{} {}",
            path,
            base
        );
    }
}

#[test]
fn paths_inside_a_tree() {
    for path in ["a", "a/b.txt", "a/..b", "a../b", "...", "a/.../b", ".hidden", "", "a/./b"] {
        assert!(tree_path(path), "{}", path);
    }
    for path in ["/a", "/", "..", "../a", "a/..", "a/../b", "a/b/.."] {
        assert!(!tree_path(path), "{}", path);
    }
}

#[test]
fn paths_inside_a_tree_agree_with_std_components() {
    for path in ["a", "a/b", "/a", "..", "../a", "a/..", "a/../b", "a/..b", "...", ".", "a/./b"] {
        let p = std::path::Path::new(path);
        let expected = !p.is_absolute()
            && !p.components().any(|c| c == std::path::Component::ParentDir);
        assert_eq!(tree_path(path), expected, "{}", path);
    }
}
