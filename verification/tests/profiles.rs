use code_flattener::builtin::BuiltInProfiles;
use code_flattener::config::CustomProfile;
use code_flattener::manager::{ProfileManager, ResolveWarning};
use code_flattener::profiles::{Profile, ProfilePlugin};
use code_flattener::wordpress_profile::WordPressProfilePlugin;

fn texts(items: &[&str]) -> Vec<String> {
    items.iter().map(|s| s.to_string()).collect()
}

fn custom(extends: Option<&str>, extensions: &[&str], filenames: &[&str]) -> CustomProfile {
    CustomProfile {
        extends: extends.map(|s| s.to_string()),
        extensions: Some(texts(extensions)),
        allowed_filenames: Some(texts(filenames)),
        ..CustomProfile::default()
    }
}

#[test]
fn new_profile_normalizes_and_dedups() {
    let p = Profile::new(
        "demo".to_string(),
        texts(&["rs", ".rs", ".md", "md"]),
        texts(&["Cargo.toml", "Cargo.toml", "Makefile"]),
    );
    assert_eq!(p.description, "demo");
    assert_eq!(p.allowed_extensions, texts(&[".rs", ".md"]));
    assert_eq!(p.allowed_filenames, texts(&["Cargo.toml", "Makefile"]));
    assert!(p.include_globs.is_empty());
    assert_eq!(p.markdown, None);
    assert_eq!(p.max_size, None);
    assert_eq!(p.max_depth, None);
    assert_eq!(p.include_dirs, None);
    assert_eq!(p.exclude_globs, None);
}

#[test]
fn merge_unites_lists_in_parent_then_child_order() {
    let parent = Profile::new("parent".to_string(), texts(&[".rs", ".toml"]), texts(&["a", "b"]));
    let mut child = Profile::new("child".to_string(), texts(&[".md", ".rs"]), texts(&["b", "c"]));
    child.include_globs = texts(&["src/**"]);
    let merged = parent.merge_with(&child);
    assert_eq!(merged.description, "child");
    assert_eq!(merged.allowed_extensions, texts(&[".rs", ".toml", ".md"]));
    assert_eq!(merged.allowed_filenames, texts(&["a", "b", "c"]));
    assert_eq!(merged.include_globs, texts(&["src/**"]));
}

#[test]
fn merge_child_settings_override_parent_settings() {
    let mut parent = Profile::new("p".to_string(), Vec::new(), Vec::new());
    parent.markdown = Some(true);
    parent.max_size = Some(10);
    parent.max_depth = Some(3);
    parent.exclude_dirs = Some(texts(&["target"]));
    parent.gpt4_tokens = Some(true);
    let mut child = Profile::new("c".to_string(), Vec::new(), Vec::new());
    child.markdown = Some(false);
    child.max_depth = Some(7);
    child.exclude_dirs = Some(texts(&["dist"]));
    child.exclude_hidden_dirs = Some(true);
    let merged = parent.merge_with(&child);
    assert_eq!(merged.markdown, Some(false));
    assert_eq!(merged.max_size, Some(10));
    assert_eq!(merged.max_depth, Some(7));
    assert_eq!(merged.exclude_dirs, Some(texts(&["dist"])));
    assert_eq!(merged.gpt4_tokens, Some(true));
    assert_eq!(merged.exclude_hidden_dirs, Some(true));
    assert_eq!(merged.include_dirs, None);
}

#[test]
fn merge_removes_repetitions_of_the_parent_too() {
    let mut parent = Profile::new("p".to_string(), Vec::new(), Vec::new());
    parent.allowed_extensions = texts(&[".a", ".a", ".b"]);
    let child = Profile::new("c".to_string(), texts(&[".b", ".c"]), Vec::new());
    let merged = parent.merge_with(&child);
    assert_eq!(merged.allowed_extensions, texts(&[".a", ".b", ".c"]));
}

#[test]
fn merge_is_associative_on_a_sample() {
    let mut a = Profile::new("a".to_string(), texts(&[".x", ".y"]), texts(&["one"]));
    a.max_size = Some(1);
    a.markdown = Some(true);
    let mut b = Profile::new("b".to_string(), texts(&[".y", ".z"]), texts(&["two", "one"]));
    b.max_size = Some(2);
    let mut c = Profile::new("c".to_string(), texts(&[".w", ".x"]), texts(&["three"]));
    c.include_globs = texts(&["**/*.w"]);
    let left = a.merge_with(&b).merge_with(&c);
    let right = a.merge_with(&b.merge_with(&c));
    assert_eq!(left.description, right.description);
    assert_eq!(left.allowed_extensions, right.allowed_extensions);
    assert_eq!(left.allowed_extensions, texts(&[".x", ".y", ".z", ".w"]));
    assert_eq!(left.allowed_filenames, right.allowed_filenames);
    assert_eq!(left.include_globs, right.include_globs);
    assert_eq!(left.max_size, right.max_size);
    assert_eq!(left.max_size, Some(2));
    assert_eq!(left.markdown, right.markdown);
}

#[test]
fn built_in_profiles_hold_their_lists() {
    let store = BuiltInProfiles::new();
    let rust = store.get_profile("rust").unwrap();
    assert_eq!(rust.description, "Rust project files.");
    assert_eq!(rust.allowed_extensions, texts(&[".rs", ".toml", ".md", ".yml", ".json"]));
    assert_eq!(rust.allowed_filenames, texts(&["Cargo.toml", "Cargo.lock"]));
    let cpp = store.get_profile("cpp-cmake").unwrap();
    assert_eq!(cpp.description, "C/C++ and CMake project files.");
    assert_eq!(
        cpp.allowed_extensions,
        texts(&[".c", ".cpp", ".h", ".hpp", ".cmake", ".txt", ".md"])
    );
    assert_eq!(cpp.allowed_filenames, texts(&["CMakeLists.txt"]));
    let next = store.get_profile("nextjs-ts-prisma").unwrap();
    assert_eq!(next.description, "Next.js, TypeScript, Prisma project files.");
    assert_eq!(next.allowed_extensions.len(), 11);
    assert_eq!(next.allowed_extensions[10], ".prisma");
    assert_eq!(next.allowed_filenames.len(), 5);
    assert!(store.get_profile("Rust").is_none());
    assert!(store.get_profile("").is_none());
    assert_eq!(store.list_profiles(), texts(&["cpp-cmake", "nextjs-ts-prisma", "rust"]));
}

#[test]
fn wordpress_default_profile() {
    let plugin = WordPressProfilePlugin;
    let p = plugin.get_profile("wordpress").unwrap();
    assert_eq!(p.description, "WordPress site with active theme and plugins.");
    assert_eq!(p.allowed_extensions.len(), 20);
    assert_eq!(p.allowed_extensions[0], ".php");
    assert_eq!(p.allowed_extensions[19], ".txt");
    assert_eq!(
        p.allowed_filenames,
        texts(&[
            "wp-config.php",
            "wp-cli.yml",
            "composer.json",
            "package.json",
            "webpack.config.js",
            "tailwind.config.js",
            "postcss.config.js"
        ])
    );
    assert!(plugin.get_profile("rust").is_none());
    assert_eq!(plugin.list_profiles(), texts(&["wordpress"]));
}

#[test]
fn resolve_finds_static_profiles_and_reports_unknown_names() {
    let manager = ProfileManager::new(None);
    assert_eq!(manager.resolve("rust").unwrap().description, "Rust project files.");
    assert_eq!(
        manager.resolve("wordpress").unwrap().description,
        "WordPress site with active theme and plugins."
    );
    assert!(manager.resolve("nope").is_none());
}

#[test]
fn resolve_custom_without_parent_is_the_child_alone() {
    let manager = ProfileManager::new(Some(vec![(
        "docs".to_string(),
        custom(None, &["md", "md", ".txt"], &["README"]),
    )]));
    let p = manager.resolve("docs").unwrap();
    assert_eq!(p.description, "docs");
    assert_eq!(p.allowed_extensions, texts(&[".md", ".txt"]));
    assert_eq!(p.allowed_filenames, texts(&["README"]));
    assert!(p.include_globs.is_empty());
}

#[test]
fn resolve_custom_extends_built_in_adds_one_extension() {
    let manager =
        ProfileManager::new(Some(vec![("rust-plus".to_string(), custom(Some("rust"), &[".proto"], &[]))]));
    let p = manager.resolve("rust-plus").unwrap();
    assert_eq!(p.description, "rust-plus");
    assert_eq!(
        p.allowed_extensions,
        texts(&[".rs", ".toml", ".md", ".yml", ".json", ".proto"])
    );
    assert_eq!(p.allowed_filenames, texts(&["Cargo.toml", "Cargo.lock"]));
}

#[test]
fn resolve_chain_equals_manual_fold_from_the_root() {
    let mut def_a = custom(None, &[".a", ".shared"], &["a.txt"]);
    def_a.max_size = Some(100);
    def_a.markdown = Some(true);
    let mut def_b = custom(Some("A"), &[".b", ".shared"], &["b.txt", "a.txt"]);
    def_b.max_size = Some(200);
    def_b.include_globs = Some(texts(&["b/**"]));
    let mut def_c = custom(Some("B"), &[".c", ".a"], &["c.txt"]);
    def_c.description = Some("the leaf".to_string());
    def_c.include_globs = Some(texts(&["c/**", "b/**"]));
    let manager = ProfileManager::new(Some(vec![
        ("C".to_string(), def_c),
        ("A".to_string(), def_a),
        ("B".to_string(), def_b),
    ]));
    let resolved = manager.resolve("C").unwrap();

    let a = Profile::new("A".to_string(), texts(&[".a", ".shared"]), texts(&["a.txt"]));
    let mut b = Profile::new("B".to_string(), texts(&[".b", ".shared"]), texts(&["b.txt", "a.txt"]));
    b.include_globs = texts(&["b/**"]);
    let mut c = Profile::new("the leaf".to_string(), texts(&[".c", ".a"]), texts(&["c.txt"]));
    c.include_globs = texts(&["c/**", "b/**"]);
    let folded = a.merge_with(&b).merge_with(&c);

    assert_eq!(resolved.allowed_extensions, folded.allowed_extensions);
    assert_eq!(resolved.allowed_extensions, texts(&[".a", ".shared", ".b", ".c"]));
    assert_eq!(resolved.allowed_filenames, folded.allowed_filenames);
    assert_eq!(resolved.allowed_filenames, texts(&["a.txt", "b.txt", "c.txt"]));
    assert_eq!(resolved.include_globs, texts(&["b/**", "c/**"]));
    assert_eq!(resolved.description, "the leaf");
    assert_eq!(resolved.max_size, Some(200));
    assert_eq!(resolved.markdown, Some(true));
}

#[test]
fn resolve_self_extension_degrades_to_child() {
    let manager =
        ProfileManager::new(Some(vec![("loop".to_string(), custom(Some("loop"), &[".x"], &["f"]))]));
    let p = manager.resolve("loop").unwrap();
    assert_eq!(p.description, "loop");
    assert_eq!(p.allowed_extensions, texts(&[".x"]));
    assert_eq!(p.allowed_filenames, texts(&["f"]));
}

#[test]
fn resolve_self_extension_under_a_built_in_name_ignores_the_built_in() {
    let manager =
        ProfileManager::new(Some(vec![("rust".to_string(), custom(Some("rust"), &[".x"], &[]))]));
    let p = manager.resolve("rust").unwrap();
    assert_eq!(p.allowed_extensions, texts(&[".x"]));
    assert!(p.allowed_filenames.is_empty());
}

#[test]
fn resolve_longer_cycle_ends() {
    let manager = ProfileManager::new(Some(vec![
        ("one".to_string(), custom(Some("two"), &[".1"], &[])),
        ("two".to_string(), custom(Some("three"), &[".2"], &[])),
        ("three".to_string(), custom(Some("one"), &[".3"], &[])),
    ]));
    let p = manager.resolve("one").unwrap();
    assert_eq!(p.description, "one");
    assert_eq!(p.allowed_extensions, texts(&[".3", ".2", ".1"]));
    let q = manager.resolve("two").unwrap();
    assert_eq!(q.allowed_extensions, texts(&[".1", ".3", ".2"]));
}

#[test]
fn resolve_unknown_parent_degrades_to_child() {
    let manager =
        ProfileManager::new(Some(vec![("orphan".to_string(), custom(Some("missing"), &[".o"], &[]))]));
    let p = manager.resolve("orphan").unwrap();
    assert_eq!(p.allowed_extensions, texts(&[".o"]));
}

#[test]
fn resolve_never_yields_duplicates() {
    let manager = ProfileManager::new(Some(vec![
        ("base".to_string(), custom(Some("rust"), &[".rs", "rs", ".md", ".md"], &["Cargo.toml", "x", "x"])),
        ("top".to_string(), custom(Some("base"), &["md", ".json", ".zz"], &["x", "Cargo.lock"])),
    ]));
    let p = manager.resolve("top").unwrap();
    for list in [&p.allowed_extensions, &p.allowed_filenames, &p.include_globs] {
        for i in 0..list.len() {
            for j in 0..i {
                assert_ne!(list[i], list[j]);
            }
        }
    }
    assert_eq!(p.allowed_extensions, texts(&[".rs", ".toml", ".md", ".yml", ".json", ".zz"]));
    assert_eq!(p.allowed_filenames, texts(&["Cargo.toml", "Cargo.lock", "x"]));
}

#[test]
fn manager_keeps_the_first_of_two_custom_profiles_with_one_name() {
    let manager = ProfileManager::new(Some(vec![
        ("twice".to_string(), custom(None, &[".first"], &[])),
        ("twice".to_string(), custom(None, &[".second"], &[])),
    ]));
    assert_eq!(manager.resolve("twice").unwrap().allowed_extensions, texts(&[".first"]));
    let listed: Vec<String> = manager.list_all().into_iter().map(|(n, _)| n).collect();
    assert_eq!(listed.iter().filter(|n| n.as_str() == "twice").count(), 1);
}

#[test]
fn list_all_is_sorted_and_complete() {
    let manager = ProfileManager::new(None);
    let list = manager.list_all();
    assert_eq!(
        list,
        vec![
            ("cpp-cmake".to_string(), "C/C++ and CMake project files.".to_string()),
            (
                "nextjs-ts-prisma".to_string(),
                "Next.js, TypeScript, Prisma project files.".to_string()
            ),
            ("rust".to_string(), "Rust project files.".to_string()),
            (
                "wordpress".to_string(),
                "WordPress site with active theme and plugins.".to_string()
            ),
        ]
    );
}

#[test]
fn list_all_lets_custom_profiles_win_and_describes_them() {
    let mut described = custom(None, &[], &[]);
    described.description = Some("My own rust".to_string());
    let manager = ProfileManager::new(Some(vec![
        ("zeta".to_string(), custom(Some("rust"), &[], &[])),
        ("rust".to_string(), described),
        ("Alpha".to_string(), custom(None, &[], &[])),
    ]));
    let list = manager.list_all();
    let names: Vec<&str> = list.iter().map(|(n, _)| n.as_str()).collect();
    assert_eq!(names, vec!["Alpha", "cpp-cmake", "nextjs-ts-prisma", "rust", "wordpress", "zeta"]);
    assert_eq!(list[0].1, "Custom profile extending None");
    assert_eq!(list[3].1, "My own rust");
    assert_eq!(list[5].1, "Custom profile extending Some(\"rust\")");
}

#[test]
fn resolve_warns_where_a_parent_is_left_out() {
    let manager = ProfileManager::new(Some(vec![
        ("loop".to_string(), custom(Some("loop"), &[".x"], &[])),
        ("orphan".to_string(), custom(Some("missing"), &[".o"], &[])),
        ("one".to_string(), custom(Some("two"), &[".1"], &[])),
        ("two".to_string(), custom(Some("one"), &[".2"], &[])),
        ("fine".to_string(), custom(Some("rust"), &[".f"], &[])),
        ("above".to_string(), custom(Some("orphan"), &[".a"], &[])),
        ("root".to_string(), custom(None, &[".r"], &[])),
    ]));
    match manager.resolve_with_warning("loop") {
        (Some(p), Some(ResolveWarning::SelfExtension { profile })) => {
            assert_eq!(profile, "loop");
            assert_eq!(p.allowed_extensions, texts(&[".x"]));
        }
        other => panic!("unexpected: {:?}", other),
    }
    match manager.resolve_with_warning("orphan") {
        (Some(_), Some(ResolveWarning::ParentNotFound { profile, parent })) => {
            assert_eq!(profile, "orphan");
            assert_eq!(parent, "missing");
        }
        other => panic!("unexpected: {:?}", other),
    }
    match manager.resolve_with_warning("one") {
        (Some(p), Some(ResolveWarning::Cycle { profile, parent })) => {
            assert_eq!(profile, "two");
            assert_eq!(parent, "one");
            assert_eq!(p.allowed_extensions, texts(&[".2", ".1"]));
        }
        other => panic!("unexpected: {:?}", other),
    }
    match manager.resolve_with_warning("above") {
        (Some(p), Some(ResolveWarning::ParentNotFound { profile, parent })) => {
            assert_eq!(profile, "orphan");
            assert_eq!(parent, "missing");
            assert_eq!(p.allowed_extensions, texts(&[".o", ".a"]));
        }
        other => panic!("unexpected: {:?}", other),
    }
    assert!(matches!(manager.resolve_with_warning("fine"), (Some(_), None)));
    assert!(matches!(manager.resolve_with_warning("root"), (Some(_), None)));
    assert!(matches!(manager.resolve_with_warning("rust"), (Some(_), None)));
    assert!(matches!(manager.resolve_with_warning("nothing"), (None, None)));
}

#[test]
fn resolve_warning_messages() {
    let own = ResolveWarning::SelfExtension { profile: "a".to_string() };
    assert_eq!(own.message(), "Profile 'a' extends itself. Ignoring parent.");
    let missing =
        ResolveWarning::ParentNotFound { profile: "child".to_string(), parent: "base".to_string() };
    assert_eq!(missing.message(), "Parent profile 'base' not found for 'child'");
    let cycle = ResolveWarning::Cycle { profile: "b".to_string(), parent: "a".to_string() };
    assert_eq!(
        cycle.message(),
        "Profile 'b' extends 'a', which extends it in turn. Ignoring parent."
    );
}

#[test]
fn wordpress_source_supports_its_name_only() {
    let plugin = WordPressProfilePlugin;
    assert!(plugin.supports("wordpress"));
    assert!(!plugin.supports("WordPress"));
    assert!(!plugin.supports("rust"));
    assert!(!plugin.supports(""));
}
