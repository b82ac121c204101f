use mote::cli::{Cli, Commands, IgnoreCommands, SnapCommands};
use mote::commands::context::{may_delete, validate_context_name};
use mote::commands::delete::cmd_delete;
use mote::commands::ignore::{
    add_pattern, editor_command, editor_from_words, remove_pattern, trim, EditorCommand,
};
use mote::commands::init::{cmd_setup_shell, ShellScript};
use mote::commands::migrate::sanitize_project_name;
use mote::commands::CommandContext;
use mote::config::{Config, LocationStrategy};
use mote::error::MoteError;
use mote::storage::location::{LocationProbe, StorageLocation};
use mote::text::{contains, decimal, starts_with, str_eq};

fn nothing() -> LocationProbe {
    LocationProbe {
        custom_exists: false,
        mote_exists: false,
        git_mote_exists: false,
        jj_mote_exists: false,
        git_is_dir: false,
        jj_is_dir: false,
    }
}

fn config_with(strategy: LocationStrategy) -> Config {
    let mut config = Config::default();
    config.storage.location_strategy = strategy;
    config
}

fn cli() -> Cli {
    Cli {
        context_spec: None,
        context_dir: None,
        project_root: None,
        config_dir: None,
        project: None,
        old_context: None,
        command: Commands::Init,
    }
}

#[test]
fn repository_layout() {
    let location =
        StorageLocation::init("/tree", &Config::default(), None, &nothing()).unwrap();
    assert_eq!(location.root(), "/tree/.mote");
    assert_eq!(location.objects_dir(), "/tree/.mote/objects");
    assert_eq!(location.snapshots_dir(), "/tree/.mote/snapshots");
    assert_eq!(location.index_path(), "/tree/.mote/index");
    assert_eq!(
        location.directories(),
        vec!["/tree/.mote", "/tree/.mote/objects", "/tree/.mote/snapshots"]
    );
}

#[test]
fn init_chooses_by_strategy() {
    let git = LocationProbe { git_is_dir: true, ..nothing() };
    let jj = LocationProbe { jj_is_dir: true, ..nothing() };
    let both = LocationProbe { git_is_dir: true, jj_is_dir: true, ..nothing() };
    let root = config_with(LocationStrategy::Root);
    let vcs = config_with(LocationStrategy::Vcs);
    let auto = config_with(LocationStrategy::Auto);
    let dir = |config: &Config, probe: &LocationProbe| {
        StorageLocation::init("/tree", config, None, probe).map(|l| l.root().to_string())
    };
    assert_eq!(dir(&root, &git), Ok("/tree/.mote".to_string()));
    assert_eq!(dir(&vcs, &git), Ok("/tree/.git/mote".to_string()));
    assert_eq!(dir(&vcs, &jj), Ok("/tree/.jj/mote".to_string()));
    assert_eq!(dir(&vcs, &both), Ok("/tree/.git/mote".to_string()));
    assert_eq!(dir(&vcs, &nothing()), Err(MoteError::NoVcsDirectory));
    assert_eq!(dir(&auto, &jj), Ok("/tree/.jj/mote".to_string()));
    assert_eq!(dir(&auto, &nothing()), Ok("/tree/.mote".to_string()));
}

#[test]
fn init_refuses_an_existing_repository() {
    let root = config_with(LocationStrategy::Root);
    let there = LocationProbe { mote_exists: true, ..nothing() };
    assert_eq!(
        StorageLocation::init("/tree", &root, None, &there),
        Err(MoteError::AlreadyInitialized)
    );
    let vcs = config_with(LocationStrategy::Vcs);
    let git_there = LocationProbe { git_is_dir: true, git_mote_exists: true, ..nothing() };
    assert_eq!(
        StorageLocation::init("/tree", &vcs, None, &git_there),
        Err(MoteError::AlreadyInitialized)
    );
    // another repository does not stand in the way
    let mote_only = LocationProbe { git_is_dir: true, mote_exists: true, ..nothing() };
    assert!(StorageLocation::init("/tree", &vcs, None, &mote_only).is_ok());
    let custom_there = LocationProbe { custom_exists: true, ..nothing() };
    assert_eq!(
        StorageLocation::init("/tree", &root, Some("/own"), &custom_there),
        Err(MoteError::AlreadyInitialized)
    );
    assert_eq!(
        StorageLocation::init("/tree", &root, Some("/own"), &there).map(|l| l.root().to_string()),
        Ok("/own".to_string())
    );
}

#[test]
fn storage_path_and_vcs_directory() {
    let git = LocationProbe { git_is_dir: true, ..nothing() };
    assert_eq!(StorageLocation::find_vcs_dir("/t", &git), Some("/t/.git".to_string()));
    assert_eq!(StorageLocation::find_vcs_dir("/t", &nothing()), None);
    assert_eq!(
        StorageLocation::determine_storage_path("/t", &LocationStrategy::Auto, &git),
        Ok("/t/.git/mote".to_string())
    );
    assert_eq!(
        StorageLocation::determine_storage_path("/t", &LocationStrategy::Vcs, &nothing()),
        Err(MoteError::NoVcsDirectory)
    );
}

#[test]
fn find_existing_probes_in_order() {
    let find = |custom: Option<&str>, probe: &LocationProbe| {
        StorageLocation::find_existing("/tree", custom, probe).map(|l| l.root().to_string())
    };
    assert_eq!(find(None, &nothing()), Err(MoteError::NotInitialized));
    let all = LocationProbe {
        custom_exists: true,
        mote_exists: true,
        git_mote_exists: true,
        jj_mote_exists: true,
        ..nothing()
    };
    assert_eq!(find(None, &all), Ok("/tree/.mote".to_string()));
    assert_eq!(find(Some("/own"), &all), Ok("/own".to_string()));
    let git_and_jj = LocationProbe { git_mote_exists: true, jj_mote_exists: true, ..nothing() };
    assert_eq!(find(None, &git_and_jj), Ok("/tree/.git/mote".to_string()));
    let jj = LocationProbe { jj_mote_exists: true, ..nothing() };
    assert_eq!(find(None, &jj), Ok("/tree/.jj/mote".to_string()));
    // a named directory that does not exist: the probe goes on
    let mote = LocationProbe { mote_exists: true, ..nothing() };
    assert_eq!(find(Some("/own"), &mote), Ok("/tree/.mote".to_string()));
    assert_eq!(find(Some("/own"), &git_and_jj), Ok("/tree/.git/mote".to_string()));
    assert_eq!(find(Some("/own"), &jj), Ok("/tree/.jj/mote".to_string()));
    assert_eq!(find(Some("/own"), &nothing()), Err(MoteError::NotInitialized));
    // one that exists comes before all others
    let own_and_mote = LocationProbe { custom_exists: true, mote_exists: true, ..nothing() };
    assert_eq!(find(Some("/own"), &own_and_mote), Ok("/own".to_string()));
}

#[test]
fn commands_resolve_their_repository() {
    let mut ctx = CommandContext {
        project_root: "/tree".to_string(),
        config: Config::default(),
        storage_dir: None,
        ignore_file_path: "/tree/.moteignore".to_string(),
    };
    assert_eq!(ctx.resolve_location(&nothing()), Err(MoteError::NotInitialized));
    let mote = LocationProbe { mote_exists: true, ..nothing() };
    let found = ctx.resolve_location(&mote).unwrap();
    assert_eq!(found.location.root(), "/tree/.mote");
    assert!(!found.create);
    // a named directory that does not exist: the repository in the root is found
    ctx.storage_dir = Some("/own".to_string());
    let found = ctx.resolve_location(&mote).unwrap();
    assert_eq!(found.location.root(), "/tree/.mote");
    assert!(!found.create);
    // where no repository exists, the named directory is created
    let made = ctx.resolve_location(&nothing()).unwrap();
    assert_eq!(made.location.root(), "/own");
    assert!(made.create);
    let there = LocationProbe { custom_exists: true, ..nothing() };
    let found = ctx.resolve_location(&there).unwrap();
    assert_eq!(found.location.root(), "/own");
    assert!(!found.create);
}

#[test]
fn context_specifier() {
    let mut c = cli();
    assert_eq!(c.parse_context_spec(), Ok((None, None)));
    c.context_spec = Some("myproject/feature".to_string());
    assert_eq!(
        c.parse_context_spec(),
        Ok((Some("myproject".to_string()), Some("feature".to_string())))
    );
    c.context_spec = Some("feature".to_string());
    assert_eq!(c.parse_context_spec(), Ok((None, Some("feature".to_string()))));
    for bad in ["a/b/c", "/b", "a/", "/", "a//b"] {
        c.context_spec = Some(bad.to_string());
        assert_eq!(
            c.parse_context_spec(),
            Err(MoteError::InvalidArguments(
                "Invalid context specifier format. Use [project/]context".to_string()
            )),
            "{}",
            bad
        );
    }
    c.context_spec = None;
    c.project = Some("p".to_string());
    assert_eq!(c.parse_context_spec(), Ok((Some("p".to_string()), None)));
    c.old_context = Some("o".to_string());
    assert_eq!(c.parse_context_spec(), Ok((Some("p".to_string()), Some("o".to_string()))));
}

#[test]
fn context_directory_stands_alone() {
    let mut c = cli();
    c.context_dir = Some("/ctx".to_string());
    assert_eq!(c.parse_context_spec(), Ok((None, None)));
    c.old_context = Some("o".to_string());
    assert_eq!(
        c.parse_context_spec(),
        Err(MoteError::InvalidArguments(
            "-d/--context-dir cannot be used with --old-context".to_string()
        ))
    );
    c.project = Some("p".to_string());
    assert_eq!(
        c.parse_context_spec(),
        Err(MoteError::InvalidArguments(
            "-d/--context-dir cannot be used with -p/--project".to_string()
        ))
    );
    c.config_dir = Some("/cfg".to_string());
    assert_eq!(
        c.parse_context_spec(),
        Err(MoteError::InvalidArguments(
            "-d/--context-dir cannot be used with --config-dir".to_string()
        ))
    );
    c.context_spec = Some("x".to_string());
    assert_eq!(
        c.parse_context_spec(),
        Err(MoteError::InvalidArguments(
            "-d/--context-dir cannot be used with -c/--context".to_string()
        ))
    );
}

#[test]
fn commands_are_plain_values() {
    let c = Cli {
        command: Commands::Snap {
            command: Some(SnapCommands::Gc { dry_run: true, verbose: false }),
        },
        ..cli()
    };
    assert_eq!(c.clone(), c);
    assert_ne!(
        Commands::Ignore { command: IgnoreCommands::List },
        Commands::Ignore { command: IgnoreCommands::Edit }
    );
}

#[test]
fn project_names_are_sanitized() {
    assert_eq!(sanitize_project_name("my project"), "my_project");
    assert_eq!(sanitize_project_name("ok-name_1"), "ok-name_1");
    assert_eq!(sanitize_project_name("1st"), "m1st");
    assert_eq!(sanitize_project_name(""), "m");
    assert_eq!(sanitize_project_name("é.ü"), "___");
    assert_eq!(sanitize_project_name(&"a".repeat(300)), "a".repeat(255));
    assert_eq!(
        sanitize_project_name(&"9".repeat(255)),
        format!("m{}", "9".repeat(254))
    );
    assert_eq!(sanitize_project_name("-x"), "-x");
}

#[test]
fn context_names() {
    assert_eq!(validate_context_name("default"), Ok(()));
    assert_eq!(validate_context_name("feature-1_x.y"), Ok(()));
    assert_eq!(validate_context_name("_temp"), Ok(()));
    let fault = |name: &str| match validate_context_name(name) {
        Err(MoteError::InvalidName(text)) => text,
        other => panic!("{:?}", other),
    };
    assert_eq!(fault(""), "Context name cannot be empty");
    assert_eq!(fault(&"a".repeat(256)), "Context name must be 255 characters or less");
    assert_eq!(fault("."), "Context name cannot be '.' or '..'");
    assert_eq!(fault(".."), "Context name cannot be '.' or '..'");
    assert_eq!(
        fault("1x"),
        "Invalid context name '1x': must start with ASCII letter or underscore"
    );
    assert_eq!(
        fault("a\tb"),
        "Invalid context name 'a\tb': cannot contain control characters"
    );
    assert_eq!(
        fault("a\u{85}b"),
        "Invalid context name 'a\u{85}b': cannot contain control characters"
    );
    assert_eq!(
        fault("a/b"),
        "Invalid context name 'a/b': cannot contain path separators or '..'"
    );
    assert_eq!(
        fault("a..b"),
        "Invalid context name 'a..b': cannot contain path separators or '..'"
    );
    assert_eq!(fault("a."), "Invalid context name 'a.': cannot end with space or dot");
    assert_eq!(fault("a "), "Invalid context name 'a ': cannot end with space or dot");
    assert_eq!(
        fault("a b"),
        "Invalid context name 'a b': only ASCII letters, digits, hyphen, underscore, and dot allowed"
    );
    assert_eq!(
        fault("com1"),
        "Invalid context name 'com1': reserved device name on Windows"
    );
    assert_eq!(may_delete("feature"), Ok(()));
    assert_eq!(
        may_delete("default"),
        Err(MoteError::ConfigRead("Cannot delete default context".to_string()))
    );
}

#[test]
fn ignore_patterns_are_added_and_removed() {
    assert_eq!(add_pattern("", "*.log"), "*.log\n");
    assert_eq!(add_pattern("a\n", "*.log"), "a\n*.log\n");
    assert_eq!(add_pattern("a", "*.log"), "a\n*.log\n");
    assert_eq!(remove_pattern("a\n*.log\nb\n", "*.log"), "a\nb\n");
    assert_eq!(remove_pattern("a\n  *.log \nb", " *.log"), "a\nb\n");
    assert_eq!(remove_pattern("a\nb\n", "zzz"), "a\nb\n");
    assert_eq!(remove_pattern("x\n", "x"), "\n");
    assert_eq!(remove_pattern("", "x"), "\n");
    assert_eq!(remove_pattern("x\nx\ny\r\n", "x"), "y\n");
}

#[test]
fn trim_agrees_with_std() {
    for s in ["", " ", " a ", "\t\na b\r\n", "\u{a0}x\u{3000}", "x", "\u{2003}\u{feff}y "] {
        assert_eq!(trim(s), s.trim(), "{:?}", s);
    }
}

#[test]
fn editor_command_is_split_as_a_shell_splits_it() {
    assert_eq!(
        editor_command("vi"),
        Ok(EditorCommand { program: "vi".to_string(), args: Vec::new() })
    );
    assert_eq!(
        editor_command("code --wait 'my file'"),
        Ok(EditorCommand {
            program: "code".to_string(),
            args: vec!["--wait".to_string(), "my file".to_string()],
        })
    );
    assert_eq!(
        editor_command("   "),
        Err(MoteError::ConfigRead("EDITOR variable is empty".to_string()))
    );
    assert_eq!(
        editor_command("vi 'unclosed"),
        Err(MoteError::ConfigRead(
            "Failed to parse EDITOR: missing closing quote".to_string()
        ))
    );
    assert_eq!(
        editor_from_words(Err("why".to_string())),
        Err(MoteError::ConfigRead("Failed to parse EDITOR: why".to_string()))
    );
}

#[test]
fn shell_scripts() {
    assert_eq!(cmd_setup_shell("bash"), Ok(ShellScript::Posix));
    assert_eq!(cmd_setup_shell("zsh"), Ok(ShellScript::Posix));
    assert_eq!(cmd_setup_shell("fish"), Ok(ShellScript::Fish));
    assert_eq!(
        cmd_setup_shell("tcsh"),
        Err(MoteError::ConfigRead(
            "Unsupported shell: tcsh. Use bash, zsh, or fish.".to_string()
        ))
    );
}

#[test]
fn answers_that_confirm() {
    for yes in ["y", "Y", "yes", "YES", "Yes\n", "  y  "] {
        assert!(cmd_delete(yes), "{:?}", yes);
    }
    for no in ["", "n", "no", "yess", "ye", "yes!", "y e s", "\n"] {
        assert!(!cmd_delete(no), "{:?}", no);
    }
}

#[test]
fn text_helpers() {
    assert_eq!(decimal(0), "0");
    assert_eq!(decimal(7), "7");
    assert_eq!(decimal(1234567890), "1234567890");
    assert_eq!(decimal(u64::MAX), "18446744073709551615");
    assert!(starts_with("abcdef", "abc"));
    assert!(starts_with("abc", ""));
    assert!(!starts_with("ab", "abc"));
    assert!(contains("hello world", "lo w"));
    assert!(contains("x", ""));
    assert!(!contains("hello", "lol"));
    assert!(str_eq("é", "é"));
    assert!(!str_eq("a", "b"));
}

#[test]
fn white_space_is_what_std_calls_white_space() {
    let mut c = '\0';
    loop {
        let s = format!("{}x{}", c, c);
        assert_eq!(trim(&s), s.trim(), "{:?}", c);
        match char::from_u32(c as u32 + 1).or_else(|| char::from_u32(0xE000)) {
            Some(next) if (c as u32) < 0x3100 => c = next,
            _ => break,
        }
    }
    for c in ['\u{feff}', '\u{200b}', '\u{e000}', '\u{10ffff}'] {
        let s = format!("{}x{}", c, c);
        assert_eq!(trim(&s), s.trim(), "{:?}", c);
    }
}

#[test]
fn control_characters_are_what_std_calls_control() {
    let said = "cannot contain control characters";
    for code in 0u32..0x400 {
        let c = char::from_u32(code).unwrap();
        let name = format!("a{}b", c);
        let refused_as_control = match validate_context_name(&name) {
            Err(MoteError::InvalidName(text)) => text.ends_with(said),
            _ => false,
        };
        assert_eq!(refused_as_control, c.is_control(), "{:?}", c);
    }
}
