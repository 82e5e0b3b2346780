use code_flattener::filter::{
    decide, has_binary_content, has_binary_extension, is_binary_file, is_ignored_by_file,
    is_strict, load_ignore_patterns, match_facts, passes_path_rules, passes_scope_rules,
    should_process_path, under_any_plugin, under_selected_plugin, under_selected_theme,
    lies_within, MatchFacts, ScanEntry,
};
use code_flattener::globs::{match_any_glob, match_glob};
use code_flattener::options::Args;

fn list(items: &[&str]) -> Vec<String> {
    items.iter().map(|s| s.to_string()).collect()
}

fn file(relative: &str) -> ScanEntry {
    ScanEntry {
        path: format!("/project/{}", relative),
        relative: relative.to_string(),
        under_root: true,
        is_dir: false,
    }
}

fn admits(args: &Args, relative: &str) -> bool {
    should_process_path(&file(relative), args, &Vec::new(), b"plain text\n", '/')
}

#[test]
fn glob_matching_follows_the_glob_crate() {
    assert!(match_glob("*.rs", "main.rs", '/'));
    assert!(!match_glob("*.rs", "main.txt", '/'));
    assert!(match_glob("src/**", "src/lib.rs", '/'));
    assert!(match_glob("src/**", "src/a/b/c.rs", '/'));
    assert!(!match_glob("src/**", "tests/a.rs", '/'));
    assert!(match_glob("Cargo.toml", "Cargo.toml", '/'));
    assert!(!match_glob("Cargo.toml", "Cargo.lock", '/'));
    assert!(match_glob("**/*.md", "docs/guide/intro.md", '/'));
    assert!(match_glob("c?t.txt", "cat.txt", '/'));
    assert!(match_glob("[a-c].txt", "b.txt", '/'));
    assert!(!match_glob("[a-c].txt", "d.txt", '/'));
}

#[test]
fn glob_that_does_not_compile_matches_nothing() {
    assert!(!match_glob("a***b", "a***b", '/'));
    assert!(!match_glob("[", "[", '/'));
    assert!(!match_glob("a**/b", "a/b", '/'));
}

#[test]
fn glob_matches_backslash_paths_in_forward_form() {
    assert!(match_glob("src/*.rs", "src\\main.rs", '/'));
    assert!(!match_glob("src/*.rs", "lib\\main.rs", '/'));
}

#[test]
fn any_glob_of_a_list() {
    let globs = list(&["docs/**", "*.toml"]);
    assert!(match_any_glob(&globs, "Cargo.toml", '/'));
    assert!(match_any_glob(&globs, "docs/a.md", '/'));
    assert!(!match_any_glob(&globs, "src/a.rs", '/'));
    assert!(!match_any_glob(&Vec::new(), "src/a.rs", '/'));
}

#[test]
fn ignore_file_lines_are_trimmed_and_comments_dropped() {
    let patterns = load_ignore_patterns("# build output\n  target/**  \n\n*.log\r\n   \n#*.rs\nnotes.txt");
    assert_eq!(patterns, list(&["target/**", "*.log", "notes.txt"]));
    assert_eq!(load_ignore_patterns(""), Vec::<String>::new());
    assert_eq!(load_ignore_patterns("\n\n"), Vec::<String>::new());
}

#[test]
fn ignore_patterns_match_the_relative_path() {
    let patterns = list(&["target/**", "*.log", "[broken"]);
    assert!(is_ignored_by_file("target/debug/app", &patterns));
    assert!(is_ignored_by_file("run.log", &patterns));
    assert!(!is_ignored_by_file("src/main.rs", &patterns));
    assert!(!is_ignored_by_file("[broken", &patterns));
    assert!(!is_ignored_by_file("anything", &Vec::new()));
}

#[test]
fn directories_are_rejected() {
    let args = Args::default();
    let mut dir = file("src");
    dir.is_dir = true;
    assert!(!should_process_path(&dir, &args, &Vec::new(), b"", '/'));
    let facts = match_facts(&dir, &args, &Vec::new(), '/');
    assert!(!passes_path_rules(&dir, &args, &facts, '/'));
    assert!(admits(&args, "src"));
}

#[test]
fn ignore_wins_over_include_glob() {
    let mut args = Args::default();
    args.include_globs = Some(list(&["src/**"]));
    let patterns = list(&["src/secret.rs"]);
    let entry = file("src/secret.rs");
    assert!(should_process_path(&entry, &args, &Vec::new(), b"fn x() {}", '/'));
    assert!(!should_process_path(&entry, &args, &patterns, b"fn x() {}", '/'));
    assert!(should_process_path(&file("src/open.rs"), &args, &patterns, b"fn x() {}", '/'));
}

#[test]
fn excluded_directories_reject_what_lies_under_them() {
    let mut args = Args::default();
    args.exclude_dirs = Some(list(&["target", "docs/private"]));
    assert!(!admits(&args, "target/debug/build.rs"));
    assert!(!admits(&args, "docs/private/plan.md"));
    assert!(admits(&args, "docs/public/plan.md"));
    assert!(admits(&args, "targets/a.rs"));
    assert!(admits(&args, "src/target/a.rs"));
}

#[test]
fn included_directories_hide_everything_else() {
    let mut args = Args::default();
    args.include_dirs = Some(list(&["src", "docs"]));
    assert!(admits(&args, "src/lib.rs"));
    assert!(admits(&args, "docs/a.md"));
    assert!(!admits(&args, "Cargo.toml"));
    assert!(!admits(&args, "tests/a.rs"));
    args.include_dirs = Some(Vec::new());
    assert!(!admits(&args, "src/lib.rs"));
}

#[test]
fn exclude_globs_reject_matches() {
    let mut args = Args::default();
    args.exclude_globs = Some(list(&["**/*.min.js", "*.lock"]));
    assert!(!admits(&args, "static/app.min.js"));
    assert!(!admits(&args, "Cargo.lock"));
    assert!(admits(&args, "static/app.js"));
}

#[test]
fn include_globs_none_restricts_nothing_and_empty_rejects_all() {
    let mut args = Args::default();
    assert!(admits(&args, "src/lib.rs"));
    assert!(admits(&args, "README"));
    args.include_globs = Some(Vec::new());
    assert!(!admits(&args, "src/lib.rs"));
    assert!(!admits(&args, "README"));
    args.include_globs = Some(list(&["src/**"]));
    assert!(admits(&args, "src/lib.rs"));
    assert!(!admits(&args, "README"));
}

#[test]
fn excluded_plugins_are_rejected_whatever_the_case() {
    let mut args = Args::default();
    args.wp_exclude_plugins = Some(list(&["WooCommerce/woocommerce.php", "akismet"]));
    assert!(!admits(&args, "wp-content/plugins/woocommerce/includes/a.php"));
    assert!(!admits(&args, "WP-Content/Plugins/Akismet/akismet.php"));
    assert!(admits(&args, "wp-content/plugins/hello/hello.php"));
    assert!(admits(&args, "wp-content/themes/woocommerce/a.php"));
    let mut outside = file("wp-content/plugins/akismet/akismet.php");
    outside.under_root = false;
    assert!(should_process_path(&outside, &args, &Vec::new(), b"<?php", '/'));
}

#[test]
fn binary_extensions_are_rejected_whatever_the_case() {
    let args = Args::default();
    for path in ["img/logo.png", "img/LOGO.PNG", "a.tar.gz", "font.woff2", "lib.so", "x.eot", "a.Pdf"] {
        assert!(!admits(&args, path), "{}", path);
    }
    for path in ["main.rs", "png", ".png", "data.dat", "a.pngx"] {
        assert!(admits(&args, path), "{}", path);
    }
}

#[test]
fn binary_extension_list() {
    let all = [
        "png", "jpg", "jpeg", "gif", "ico", "webp", "svg", "bmp", "tiff", "tif", "mp4", "avi",
        "mov", "wmv", "flv", "webm", "mkv", "mp3", "wav", "ogg", "zip", "tar", "gz", "bz2", "7z",
        "rar", "pdf", "doc", "docx", "xls", "xlsx", "exe", "dll", "so", "dylib", "woff", "woff2",
        "ttf", "eot",
    ];
    for ext in all {
        assert!(has_binary_extension(&Some(ext.to_string())), "{}", ext);
    }
    assert!(!has_binary_extension(&Some("PNG".to_string())));
    assert!(!has_binary_extension(&Some("rs".to_string())));
    assert!(!has_binary_extension(&Some("".to_string())));
    assert!(!has_binary_extension(&None));
}

#[test]
fn binary_content_is_sniffed_in_the_first_bytes() {
    assert!(!has_binary_content(b""));
    assert!(!has_binary_content(b"tab\tline\nreturn\r plain ~"));
    assert!(has_binary_content(b"ab\0cd"));
    assert!(has_binary_content(&[b'a', 27, b'b']));
    assert!(has_binary_content(&[1]));
    assert!(has_binary_content(&[31]));
    assert!(!has_binary_content(&[32, 200, 255]));
    let mut late = vec![b'a'; 1024];
    late.push(0);
    assert!(!has_binary_content(&late));
    let mut last = vec![b'a'; 1023];
    last.push(0);
    assert!(has_binary_content(&last));
}

#[test]
fn binary_sniff_rejects_dat_with_nul_and_admits_it_without() {
    let args = Args::default();
    let entry = file("data/blob.dat");
    let dat = Some("dat".to_string());
    assert!(is_binary_file(&dat, b"hello\0world"));
    assert!(!is_binary_file(&dat, b"hello world"));
    assert!(is_binary_file(&Some("zip".to_string()), b"hello world"));
    assert!(!is_binary_file(&None, b""));
    assert!(!should_process_path(&entry, &args, &Vec::new(), b"hello\0world", '/'));
    assert!(should_process_path(&entry, &args, &Vec::new(), b"hello world", '/'));
}

#[test]
fn strict_mode_needs_the_wordpress_profile_and_a_selection() {
    let mut args = Args::default();
    assert!(!is_strict(&args));
    args.wp_include_theme = Some("astra".to_string());
    assert!(!is_strict(&args));
    args.profile = Some("wordpress".to_string());
    assert!(is_strict(&args));
    args.wp_include_theme = None;
    assert!(!is_strict(&args));
    args.wp_include_only_plugins = Some(Vec::new());
    assert!(is_strict(&args));
    args.profile = Some("rust".to_string());
    assert!(!is_strict(&args));
}

#[test]
fn strict_inclusion_rejects_other_packages() {
    let mut args = Args::default();
    args.profile = Some("wordpress".to_string());
    args.wp_include_only_plugins = Some(list(&["Akismet/akismet.php"]));
    assert!(admits(&args, "wp-content/plugins/akismet/akismet.php"));
    assert!(admits(&args, "wp-content/plugins/akismet/views/a.php"));
    assert!(admits(&args, "WP-Content/Plugins/AKISMET/b.php"));
    assert!(!admits(&args, "wp-content/plugins/hello-dolly/hello.php"));
    assert!(!admits(&args, "wp-content/themes/astra/functions.php"));
    assert!(!admits(&args, "index.php"));
    assert!(admits(&args, "wp-config.php"));
    assert!(admits(&args, "WP-Config.php"));
}

#[test]
fn strict_inclusion_with_a_theme() {
    let mut args = Args::default();
    args.profile = Some("wordpress".to_string());
    args.wp_include_theme = Some("Astra".to_string());
    assert!(admits(&args, "wp-content/themes/astra/functions.php"));
    assert!(!admits(&args, "wp-content/themes/twentytwenty/functions.php"));
    assert!(!admits(&args, "wp-content/plugins/akismet/akismet.php"));
    let style = file("wp-content/themes/astra/style.css");
    let facts = match_facts(&style, &args, &Vec::new(), '/');
    assert_eq!(facts.selected_theme, Some("astra".to_string()));
    assert!(passes_scope_rules(&style, &args, &facts, '/'));
}

#[test]
fn strict_inclusion_goes_by_whole_package_names() {
    let mut args = Args::default();
    args.profile = Some("wordpress".to_string());
    args.wp_include_only_plugins = Some(list(&["woo", "foo"]));
    assert!(admits(&args, "wp-content/plugins/woo/a.php"));
    assert!(admits(&args, "wp-content/plugins/foo/x.php"));
    assert!(admits(&args, "wp-content/plugins/foo"));
    assert!(!admits(&args, "wp-content/plugins/woocommerce/a.php"));
    assert!(!admits(&args, "wp-content/plugins/foobar/x.php"));
    assert!(!admits(&args, "wp-content/plugins/bar/x.php"));
    assert!(!admits(&args, "wp-content/plugins/other/a.php"));
    assert!(!admits(&args, "wp-content/plugins/foo.php"));
    args.wp_include_only_plugins = None;
    args.wp_include_theme = Some("astra".to_string());
    assert!(admits(&args, "wp-content/themes/astra/style.css"));
    assert!(!admits(&args, "wp-content/themes/astra-child/style.css"));
}

#[test]
fn strict_inclusion_still_rejects_core_files() {
    let mut args = Args::default();
    args.profile = Some("wordpress".to_string());
    args.wp_include_only_plugins = Some(list(&["foo"]));
    assert!(admits(&args, "wp-content/plugins/foo/main.php"));
    assert!(!admits(&args, "wp-content/plugins/foo/wp-login.php"));
    assert!(!admits(&args, "wp-content/plugins/foo/inc/xmlrpc.php"));
    let entry = file("wp-content/plugins/foo/wp-login.php");
    let facts = match_facts(&entry, &args, &Vec::new(), '/');
    assert!(!passes_scope_rules(&entry, &args, &facts, '/'));
    assert!(!decide(&entry, &args, &facts, b"<?php", '/'));
}

#[test]
fn exclusion_of_plugins_goes_by_slug_prefix() {
    let mut args = Args::default();
    args.wp_exclude_plugins = Some(list(&["woo"]));
    assert!(!admits(&args, "wp-content/plugins/woo/a.php"));
    assert!(!admits(&args, "wp-content/plugins/woocommerce/a.php"));
    assert!(admits(&args, "wp-content/plugins/other/a.php"));
}

#[test]
fn core_wordpress_files_are_rejected() {
    let args = Args::default();
    for name in [
        "xmlrpc.php",
        "wp-activate.php",
        "wp-cron.php",
        "wp-load.php",
        "wp-blog-header.php",
        "wp-settings.php",
        "wp-login.php",
        "wp-signup.php",
        "wp-trackback.php",
        "wp-comments-post.php",
        "wp-links-opml.php",
        "wp-mail.php",
    ] {
        assert!(!admits(&args, name));
        assert!(!admits(&args, &format!("site/{}", name)));
    }
    assert!(admits(&args, "wp-config.php"));
    assert!(admits(&args, "index.php"));
    assert!(admits(&args, "WP-LOGIN.PHP"));
}

#[test]
fn scan_entry_is_made_relative_to_the_root() {
    let entry = ScanEntry::new("/project/src/lib.rs".to_string(), "/project", false, '/');
    assert_eq!(entry.path, "/project/src/lib.rs");
    assert_eq!(entry.relative, "src/lib.rs");
    assert!(entry.under_root);
    assert!(!entry.is_dir);
    let outside = ScanEntry::new("/elsewhere/a.rs".to_string(), "/project", true, '/');
    assert_eq!(outside.relative, "/elsewhere/a.rs");
    assert!(!outside.under_root);
    assert!(outside.is_dir);
    let root = ScanEntry::new("/project".to_string(), "/project", true, '/');
    assert_eq!(root.relative, "");
    assert!(root.under_root);
}

fn plain_facts(lower_relative: &str) -> MatchFacts {
    MatchFacts {
        ignored: false,
        excluded_by_glob: false,
        included_by_glob: false,
        lower_relative: lower_relative.to_string(),
        lower_extension: None,
        excluded_plugins: Vec::new(),
        selected_plugins: Vec::new(),
        selected_theme: None,
    }
}

#[test]
fn match_facts_hold_what_the_matchers_answer() {
    let mut args = Args::default();
    args.exclude_globs = Some(list(&["*.LOCK"]));
    args.include_globs = Some(list(&["Src/**"]));
    args.wp_exclude_plugins = Some(list(&["Woo/woo.php", "AKISMET"]));
    args.wp_include_only_plugins = Some(list(&["Hello/Dolly"]));
    args.wp_include_theme = Some("Astra".to_string());
    let entry = file("Src/Main.RS");
    let facts = match_facts(&entry, &args, &list(&["*.RS"]), '/');
    assert!(facts.ignored);
    assert!(!facts.excluded_by_glob);
    assert!(facts.included_by_glob);
    assert_eq!(facts.lower_relative, "src/main.rs");
    assert_eq!(facts.lower_extension, Some("rs".to_string()));
    assert_eq!(facts.excluded_plugins, list(&["woo", "akismet"]));
    assert_eq!(facts.selected_plugins, list(&["hello"]));
    assert_eq!(facts.selected_theme, Some("astra".to_string()));
    let none = match_facts(&file("Makefile"), &Args::default(), &Vec::new(), '/');
    assert!(!none.ignored && !none.excluded_by_glob && !none.included_by_glob);
    assert_eq!(none.lower_extension, None);
    assert!(none.excluded_plugins.is_empty() && none.selected_plugins.is_empty());
    assert_eq!(none.selected_theme, None);
}

#[test]
fn decide_runs_the_stages_on_given_facts() {
    let mut args = Args::default();
    let entry = file("src/a.rs");
    let facts = plain_facts("src/a.rs");
    assert!(decide(&entry, &args, &facts, b"text", '/'));

    let mut ignored = plain_facts("src/a.rs");
    ignored.ignored = true;
    ignored.included_by_glob = true;
    args.include_globs = Some(list(&["src/**"]));
    assert!(!decide(&entry, &args, &ignored, b"text", '/'));

    let mut included = plain_facts("src/a.rs");
    assert!(!decide(&entry, &args, &included, b"text", '/'));
    included.included_by_glob = true;
    assert!(decide(&entry, &args, &included, b"text", '/'));
    args.include_globs = None;

    let mut excluded = plain_facts("src/a.rs");
    excluded.excluded_by_glob = true;
    assert!(decide(&entry, &args, &excluded, b"text", '/'));
    args.exclude_globs = Some(Vec::new());
    assert!(!decide(&entry, &args, &excluded, b"text", '/'));
    args.exclude_globs = None;

    let mut binary = plain_facts("src/a.rs");
    binary.lower_extension = Some("exe".to_string());
    assert!(!decide(&entry, &args, &binary, b"text", '/'));
    assert!(!decide(&entry, &args, &facts, b"te\0xt", '/'));
}

#[test]
fn decide_on_plugins_and_themes_from_given_facts() {
    let mut args = Args::default();
    let entry = file("wp-content/plugins/akismet/a.php");
    let mut facts = plain_facts("wp-content/plugins/akismet/a.php");
    facts.excluded_plugins = list(&["akismet"]);
    assert!(decide(&entry, &args, &facts, b"<?php", '/'));
    args.wp_exclude_plugins = Some(list(&["anything"]));
    assert!(!decide(&entry, &args, &facts, b"<?php", '/'));
    args.wp_exclude_plugins = None;

    args.profile = Some("wordpress".to_string());
    args.wp_include_only_plugins = Some(list(&["anything"]));
    let mut strict = plain_facts("wp-content/plugins/akismet/a.php");
    assert!(!decide(&entry, &args, &strict, b"<?php", '/'));
    strict.selected_plugins = list(&["hello", "akismet"]);
    assert!(decide(&entry, &args, &strict, b"<?php", '/'));
    strict.selected_plugins = Vec::new();
    strict.selected_theme = Some("akismet".to_string());
    assert!(!decide(&entry, &args, &strict, b"<?php", '/'));
    strict.lower_relative = "wp-content/themes/akismet/a.php".to_string();
    assert!(decide(&entry, &args, &strict, b"<?php", '/'));
    strict.lower_relative = "wp-content/themes/akismet-child/a.php".to_string();
    assert!(!decide(&entry, &args, &strict, b"<?php", '/'));
    strict.lower_relative = "wp-config.php".to_string();
    strict.selected_theme = None;
    assert!(decide(&entry, &args, &strict, b"<?php", '/'));
    let core = file("wp-content/plugins/akismet/wp-cron.php");
    let mut chosen = plain_facts("wp-content/plugins/akismet/wp-cron.php");
    chosen.selected_plugins = list(&["akismet"]);
    assert!(!decide(&core, &args, &chosen, b"<?php", '/'));
}

#[test]
fn plugin_and_theme_prefixes() {
    let slugs = list(&["akismet", "woo"]);
    assert!(under_any_plugin(&slugs, "wp-content/plugins/akismet/akismet.php"));
    assert!(under_any_plugin(&slugs, "wp-content/plugins/woocommerce/x.php"));
    assert!(!under_any_plugin(&slugs, "wp-content/plugins/hello/x.php"));
    assert!(!under_any_plugin(&slugs, "plugins/akismet/akismet.php"));
    assert!(!under_any_plugin(&Vec::new(), "wp-content/plugins/akismet/akismet.php"));
    assert!(under_selected_plugin(&slugs, "wp-content/plugins/akismet/akismet.php"));
    assert!(under_selected_plugin(&slugs, "wp-content/plugins/woo/x.php"));
    assert!(under_selected_plugin(&slugs, "wp-content/plugins/woo"));
    assert!(!under_selected_plugin(&slugs, "wp-content/plugins/woocommerce/x.php"));
    assert!(!under_selected_plugin(&slugs, "wp-content/plugins/wo/x.php"));
    assert!(!under_selected_plugin(&Vec::new(), "wp-content/plugins/woo/x.php"));
    assert!(under_selected_theme("astra", "wp-content/themes/astra/style.css"));
    assert!(under_selected_theme("astra", "wp-content/themes/astra"));
    assert!(!under_selected_theme("astra", "wp-content/themes/astra2/style.css"));
    assert!(!under_selected_theme("astra", "wp-content/themes/other/style.css"));
    assert!(!under_selected_theme("astra", "wp-content/plugins/astra/style.css"));
    assert!(lies_within("a/b", "a/b/c"));
    assert!(lies_within("a/b", "a/b"));
    assert!(lies_within("", "/x"));
    assert!(!lies_within("a/b", "a/bc"));
    assert!(!lies_within("a/b", "a"));
}
