use code_flattener::aggregate::AllowRules;
use code_flattener::config::ConfigFile;
use code_flattener::options::{
    apply_profile, merge_config_with_args, validate_config, Args, ConfigError,
    DEFAULT_MAX_DEPTH, DEFAULT_MAX_SIZE, MAX_FILE_SIZE_LIMIT,
};
use code_flattener::profiles::Profile;

fn names(items: &[&str]) -> Vec<String> {
    items.iter().map(|s| s.to_string()).collect()
}

#[test]
fn default_options() {
    let args = Args::default();
    assert_eq!(args.target_dirs, names(&["."]));
    assert_eq!(args.max_size, 2 * 1024 * 1024);
    assert_eq!(args.max_size, DEFAULT_MAX_SIZE);
    assert_eq!(args.max_depth, 100);
    assert_eq!(args.max_depth, DEFAULT_MAX_DEPTH);
    assert_eq!(args.markdown, 0);
    assert_eq!(args.profile, None);
    assert_eq!(args.include_globs, None);
    assert!(!args.dry_run);
    assert!(!args.parallel);
}

#[test]
fn config_fills_what_the_command_line_left_open() {
    let config = ConfigFile {
        profile: Some("rust".to_string()),
        extensions: Some(names(&[".rs"])),
        allowed_filenames: Some(names(&["Makefile"])),
        include_globs: Some(names(&["src/**"])),
        exclude_globs: Some(names(&["**/gen/**"])),
        markdown: Some(true),
        exclude_node_modules: Some(true),
        exclude_build_dirs: Some(false),
        include_git_changes: Some(true),
        max_size: Some(5),
        max_depth: Some(9),
        gpt4_tokens: Some(true),
        include_dirs: Some(names(&["src"])),
        ..ConfigFile::default()
    };
    let merged = merge_config_with_args(Args::default(), &Some(config));
    assert_eq!(merged.profile, Some("rust".to_string()));
    assert_eq!(merged.extensions, Some(names(&[".rs"])));
    assert_eq!(merged.allowed_filenames, Some(names(&["Makefile"])));
    assert_eq!(merged.include_globs, Some(names(&["src/**"])));
    assert_eq!(merged.exclude_globs, Some(names(&["**/gen/**"])));
    assert_eq!(merged.markdown, 1);
    assert!(merged.exclude_node_modules);
    assert!(!merged.exclude_build_dirs);
    assert!(!merged.exclude_hidden_dirs);
    assert!(merged.include_git_changes);
    assert_eq!(merged.max_size, DEFAULT_MAX_SIZE);
    assert_eq!(merged.max_depth, DEFAULT_MAX_DEPTH);
    assert!(!merged.gpt4_tokens);
    assert_eq!(merged.include_dirs, None);
    assert_eq!(merged.target_dirs, names(&["."]));
}

#[test]
fn command_line_wins_over_config() {
    let config = ConfigFile {
        profile: Some("rust".to_string()),
        extensions: Some(names(&[".rs"])),
        include_globs: Some(names(&["src/**"])),
        markdown: Some(false),
        exclude_hidden_dirs: Some(false),
        ..ConfigFile::default()
    };
    let mut args = Args::default();
    args.profile = Some("cpp-cmake".to_string());
    args.extensions = Some(names(&[".c"]));
    args.include_globs = Some(Vec::new());
    args.markdown = 2;
    args.exclude_hidden_dirs = true;
    let merged = merge_config_with_args(args, &Some(config));
    assert_eq!(merged.profile, Some("cpp-cmake".to_string()));
    assert_eq!(merged.extensions, Some(names(&[".c"])));
    assert_eq!(merged.include_globs, Some(Vec::new()));
    assert_eq!(merged.markdown, 2);
    assert!(merged.exclude_hidden_dirs);
}

#[test]
fn no_config_changes_nothing() {
    let mut args = Args::default();
    args.profile = Some("rust".to_string());
    args.markdown = 0;
    let merged = merge_config_with_args(args, &None);
    assert_eq!(merged.profile, Some("rust".to_string()));
    assert_eq!(merged.markdown, 0);
    assert_eq!(merged.extensions, None);
}

#[test]
fn profile_fills_open_options() {
    let mut profile = Profile::new("p".to_string(), names(&[".rs"]), names(&["Cargo.toml"]));
    profile.markdown = Some(true);
    profile.max_size = Some(77);
    profile.max_depth = Some(5);
    profile.gpt4_tokens = Some(true);
    profile.exclude_dirs = Some(names(&["target"]));
    profile.exclude_build_dirs = Some(true);
    let mut args = Args::default();
    args.max_size = 0;
    args.max_depth = 0;
    let applied = apply_profile(args, &profile);
    assert_eq!(applied.extensions, Some(names(&[".rs"])));
    assert_eq!(applied.allowed_filenames, Some(names(&["Cargo.toml"])));
    assert_eq!(applied.include_globs, None);
    assert_eq!(applied.markdown, 1);
    assert_eq!(applied.max_size, 77);
    assert_eq!(applied.max_depth, 5);
    assert!(applied.gpt4_tokens);
    assert_eq!(applied.exclude_dirs, Some(names(&["target"])));
    assert!(applied.exclude_build_dirs);
    assert!(!applied.exclude_hidden_dirs);
}

#[test]
fn options_win_over_profile() {
    let mut profile = Profile::new("p".to_string(), names(&[".rs"]), names(&["Cargo.toml"]));
    profile.markdown = Some(false);
    profile.max_size = Some(77);
    profile.max_depth = Some(5);
    profile.exclude_dirs = Some(names(&["target"]));
    profile.no_staged_diff = Some(false);
    let mut args = Args::default();
    args.extensions = Some(names(&[".md"]));
    args.markdown = 1;
    args.exclude_dirs = Some(names(&["dist"]));
    args.no_staged_diff = true;
    let applied = apply_profile(args, &profile);
    assert_eq!(applied.extensions, Some(names(&[".md"])));
    assert_eq!(applied.allowed_filenames, Some(names(&["Cargo.toml"])));
    assert_eq!(applied.markdown, 1);
    assert_eq!(applied.max_size, DEFAULT_MAX_SIZE);
    assert_eq!(applied.max_depth, DEFAULT_MAX_DEPTH);
    assert_eq!(applied.exclude_dirs, Some(names(&["dist"])));
    assert!(applied.no_staged_diff);
}

#[test]
fn profile_globs_are_added_to_those_of_the_options() {
    let mut profile = Profile::new("p".to_string(), Vec::new(), Vec::new());
    profile.include_globs = names(&["src/**", "docs/**", "src/**"]);
    let applied = apply_profile(Args::default(), &profile);
    assert_eq!(applied.include_globs, Some(names(&["src/**", "docs/**"])));
    let mut args = Args::default();
    args.include_globs = Some(names(&["docs/**", "x", "x"]));
    let applied = apply_profile(args, &profile);
    assert_eq!(applied.include_globs, Some(names(&["docs/**", "x", "x", "src/**"])));
}

#[test]
fn profile_without_globs_leaves_the_glob_options_alone() {
    let profile = Profile::new("p".to_string(), names(&[".rs"]), Vec::new());
    let applied = apply_profile(Args::default(), &profile);
    assert_eq!(applied.include_globs, None);
    let mut args = Args::default();
    args.include_globs = Some(Vec::new());
    let applied = apply_profile(args, &profile);
    assert_eq!(applied.include_globs, Some(Vec::new()));
}

#[test]
fn validate_accepts_plain_options() {
    assert!(validate_config(&Args::default(), '/').is_ok());
    let mut args = Args::default();
    args.include_dirs = Some(names(&["src"]));
    args.exclude_dirs = Some(names(&["target", "srcs"]));
    args.max_size = MAX_FILE_SIZE_LIMIT;
    assert!(validate_config(&args, '/').is_ok());
}

#[test]
fn validate_refuses_exclude_within_include() {
    let mut args = Args::default();
    args.include_dirs = Some(names(&["docs", "src"]));
    args.exclude_dirs = Some(names(&["target", "src/generated", "docs"]));
    match validate_config(&args, '/') {
        Err(ConfigError::ExcludeWithinInclude { excluded, included }) => {
            assert_eq!(excluded, "docs");
            assert_eq!(included, "docs");
        }
        other => panic!("unexpected: {:?}", other),
    }
    args.exclude_dirs = Some(names(&["target", "src/generated"]));
    let err = validate_config(&args, '/').unwrap_err();
    assert_eq!(
        err.message(),
        "Conflict: exclude directory 'src/generated' is within include directory 'src'"
    );
}

#[test]
fn validate_refuses_a_size_above_the_limit() {
    let mut args = Args::default();
    args.max_size = 100 * 1024 * 1024 + 1;
    let err = validate_config(&args, '/').unwrap_err();
    assert!(matches!(err, ConfigError::MaxSizeTooLarge));
    assert_eq!(err.message(), "Max file size cannot exceed 100MB");
    args.include_dirs = Some(names(&["a"]));
    args.exclude_dirs = Some(names(&["a/b"]));
    assert!(matches!(
        validate_config(&args, '/'),
        Err(ConfigError::ExcludeWithinInclude { .. })
    ));
}

#[test]
fn allow_rules_need_something_to_allow() {
    let err = AllowRules::from_args(&Args::default()).unwrap_err();
    assert!(matches!(err, ConfigError::NothingAllowed));
    assert_eq!(err.message(), "No allowed extensions, filenames, or include globs specified");
    let mut args = Args::default();
    args.extensions = Some(Vec::new());
    args.allowed_filenames = Some(Vec::new());
    assert!(AllowRules::from_args(&args).is_err());
    args.include_globs = Some(Vec::new());
    let rules = AllowRules::from_args(&args).unwrap();
    assert!(rules.any_glob);
    assert!(rules.extensions.is_empty());
}

#[test]
fn allow_rules_normalize_extensions() {
    let mut args = Args::default();
    args.extensions = Some(names(&["rs", ".rs", "md"]));
    args.allowed_filenames = Some(names(&["Makefile", "Makefile"]));
    let rules = AllowRules::from_args(&args).unwrap();
    assert_eq!(rules.extensions, names(&[".rs", ".md"]));
    assert_eq!(rules.filenames, names(&["Makefile"]));
    assert!(!rules.any_glob);
    assert!(rules.allows("lib.rs", "rs"));
    assert!(rules.allows("Makefile", ""));
    assert!(!rules.allows("lib.py", "py"));
    assert!(!rules.allows("makefile", ""));
    assert!(rules.allows_path("src/lib.rs", '/'));
    assert!(rules.allows_path("build/Makefile", '/'));
    assert!(!rules.allows_path("src/lib.RS", '/'));
    assert!(!rules.allows_path("rs", '/'));
}
