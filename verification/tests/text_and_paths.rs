use std::path::Path;

use code_flattener::paths::{
    extension, file_name, is_safe_path, path_starts_with, split_components, strip_prefix,
};
use code_flattener::profiles::{normalize_extension, normalize_extensions};
use code_flattener::text::{
    append_new, char_is_whitespace, chars_of, joined, contains_text, count_words, dedup_texts, replace_char,
    segment_before, split_at_char, starts_with, text_eq, text_less, trim,
};

fn strings(items: &[&str]) -> Vec<String> {
    items.iter().map(|s| s.to_string()).collect()
}

#[test]
fn chars_of_a_text() {
    let chars = chars_of("héllo/wörld");
    assert_eq!(chars.len(), 11);
    assert_eq!(chars[1], 'é');
    assert_eq!(chars[5], '/');
    assert_eq!(chars_of(""), Vec::<char>::new());
}

#[test]
fn text_eq_compares_characters() {
    assert!(text_eq("rust", "rust"));
    assert!(!text_eq("rust", "Rust"));
    assert!(!text_eq("rust", "rusty"));
    assert!(text_eq("", ""));
}

#[test]
fn text_less_is_the_order_of_strings() {
    assert!(text_less("a", "b"));
    assert!(!text_less("b", "a"));
    assert!(!text_less("a", "a"));
    assert!(text_less("a", "ab"));
    assert!(!text_less("ab", "a"));
    assert!(text_less("", "a"));
    assert!(text_less("Zeta", "alpha"));
    assert!(text_less("cpp-cmake", "nextjs-ts-prisma"));
    assert_eq!(text_less("é", "z"), "é" < "z");
    assert_eq!(text_less("z", "é"), "z" < "é");
}

#[test]
fn concat_and_prefix() {
    assert_eq!(joined("wp-content/", "plugins"), "wp-content/plugins");
    assert!(starts_with("wp-content/plugins/akismet", "wp-content/plugins/"));
    assert!(!starts_with("wp-content", "wp-content/plugins/"));
    assert!(starts_with("anything", ""));
    assert!(!starts_with("abc", "abd"));
}

#[test]
fn replace_char_replaces_every_occurrence() {
    assert_eq!(replace_char("a\\b\\c", '\\', '/'), "a/b/c");
    assert_eq!(replace_char("src/**/*.rs", '/', '\\'), "src\\**\\*.rs");
    assert_eq!(replace_char("plain", '/', '\\'), "plain");
}

#[test]
fn segment_before_takes_the_first_piece() {
    assert_eq!(segment_before("woocommerce/woocommerce.php", '/'), "woocommerce");
    assert_eq!(segment_before("akismet", '/'), "akismet");
    assert_eq!(segment_before("/rooted", '/'), "");
    assert_eq!(segment_before("", '/'), "");
}

#[test]
fn trim_drops_surrounding_white_space() {
    assert_eq!(trim("  *.log \t\r\n"), "*.log");
    assert_eq!(trim("a b"), "a b");
    assert_eq!(trim(" \n "), "");
    assert_eq!(trim("\u{a0}x\u{2003}"), "x");
}

#[test]
fn count_words_counts_runs() {
    assert_eq!(count_words(""), 0);
    assert_eq!(count_words("   "), 0);
    assert_eq!(count_words("one"), 1);
    assert_eq!(count_words("  hello   world \n foo"), 3);
    assert_eq!(count_words("a\tb\nc d"), 4);
}

#[test]
fn split_at_char_keeps_empty_pieces() {
    assert_eq!(split_at_char("a\nb", '\n'), strings(&["a", "b"]));
    assert_eq!(split_at_char("a\n", '\n'), strings(&["a", ""]));
    assert_eq!(split_at_char("", '\n'), strings(&[""]));
    assert_eq!(split_at_char("\n\n", '\n'), strings(&["", "", ""]));
}

#[test]
fn dedup_keeps_first_occurrences() {
    let list = strings(&[".rs", ".md", ".rs", ".toml", ".md"]);
    assert_eq!(dedup_texts(&list), strings(&[".rs", ".md", ".toml"]));
    assert!(contains_text(&list, ".toml"));
    assert!(!contains_text(&list, "toml"));
}

#[test]
fn append_new_adds_what_is_missing() {
    let mut target = strings(&["a", "a", "b"]);
    append_new(&mut target, &strings(&["b", "c", "c", "a", "d"]));
    assert_eq!(target, strings(&["a", "a", "b", "c", "d"]));
}

#[test]
fn extensions_get_their_dot() {
    assert_eq!(normalize_extension("rs"), ".rs");
    assert_eq!(normalize_extension(".rs"), ".rs");
    assert_eq!(normalize_extension(""), ".");
    assert_eq!(normalize_extensions(&strings(&["rs", ".md"])), strings(&[".rs", ".md"]));
}

#[test]
fn components_are_runs_between_separators() {
    assert_eq!(split_components("src/lib.rs", '/'), strings(&["src", "lib.rs"]));
    assert_eq!(split_components("/a//b/", '/'), strings(&["a", "b"]));
    assert_eq!(split_components("a\\b/c", '\\'), strings(&["a", "b", "c"]));
    assert_eq!(split_components("a\\b/c", '/'), strings(&["a\\b", "c"]));
    assert_eq!(split_components("", '/'), Vec::<String>::new());
}

#[test]
fn directory_prefix_counts_whole_components() {
    assert!(path_starts_with("src/lib.rs", "src", '/'));
    assert!(path_starts_with("src/lib.rs", "src/", '/'));
    assert!(path_starts_with("src", "src", '/'));
    assert!(!path_starts_with("srcs/lib.rs", "src", '/'));
    assert!(!path_starts_with("src", "src/gen", '/'));
    assert!(path_starts_with("src/gen/a.rs", "src/gen", '/'));
    assert!(path_starts_with("/etc/passwd", "/etc", '/'));
    assert!(!path_starts_with("etc/passwd", "/etc", '/'));
    assert!(!path_starts_with("/etc/passwd", "etc", '/'));
    assert!(path_starts_with("a/b", "", '/'));
    assert!(path_starts_with("src\\gen\\a.rs", "src/gen", '\\'));
    assert!(!path_starts_with("src\\gen\\a.rs", "src/gen", '/'));
}

#[test]
fn file_name_is_the_last_component() {
    assert_eq!(file_name("src/lib.rs", '/'), "lib.rs");
    assert_eq!(file_name("lib.rs", '/'), "lib.rs");
    assert_eq!(file_name("dir/", '/'), "dir");
    assert_eq!(file_name("", '/'), "");
    assert_eq!(file_name("C:\\x\\y.txt", '\\'), "y.txt");
}

#[test]
fn extension_follows_the_last_dot() {
    assert_eq!(extension("lib.rs"), Some("rs".to_string()));
    assert_eq!(extension("a.tar.gz"), Some("gz".to_string()));
    assert_eq!(extension("noext"), None);
    assert_eq!(extension(".gitignore"), None);
    assert_eq!(extension(".env.local"), Some("local".to_string()));
    assert_eq!(extension("foo."), Some("".to_string()));
    assert_eq!(extension(".."), None);
    assert_eq!(extension(""), None);
}

#[test]
fn safe_paths_stay_within_their_base() {
    assert!(is_safe_path("/srv/site", "/srv/site", "/srv/site", true, '/'));
    assert!(is_safe_path("/srv/site/a", "/srv/site", "/data/site", true, '/'));
    assert!(is_safe_path("/data/site/a", "/srv/site", "/data/site", true, '/'));
    assert!(!is_safe_path("/etc/passwd", "/srv/site", "/data/site", true, '/'));
    assert!(!is_safe_path("/srv/sites", "/srv/site", "/srv/site", true, '/'));
    assert!(is_safe_path("a/b", "/srv/site", "/srv/site", false, '/'));
}

#[test]
fn strip_prefix_gives_the_relative_path() {
    assert_eq!(strip_prefix("/project/src/lib.rs", "/project", '/'), Some("src/lib.rs".to_string()));
    assert_eq!(strip_prefix("/project/src/lib.rs", "/project/", '/'), Some("src/lib.rs".to_string()));
    assert_eq!(strip_prefix("/project", "/project", '/'), Some("".to_string()));
    assert_eq!(strip_prefix("/projects/a", "/project", '/'), None);
    assert_eq!(strip_prefix("project/a", "/project", '/'), None);
    assert_eq!(strip_prefix("a/b/c", "a", '/'), Some("b/c".to_string()));
    assert_eq!(strip_prefix("a/b", "", '/'), Some("a/b".to_string()));
    assert_eq!(strip_prefix("C:\\site\\wp\\a.php", "C:\\site", '\\'), Some("wp\\a.php".to_string()));
}

#[test]
fn white_space_is_what_the_standard_library_takes_for_it() {
    let mut count = 0;
    for code in 0..=0x10FFFFu32 {
        if let Some(c) = char::from_u32(code) {
            assert_eq!(char_is_whitespace(c), c.is_whitespace(), "U+{:04X}", code);
            if char_is_whitespace(c) {
                count += 1;
            }
        }
    }
    assert_eq!(count, 25);
    assert!(char_is_whitespace(' ') && char_is_whitespace('\n') && char_is_whitespace('\u{3000}'));
    assert!(!char_is_whitespace('a') && !char_is_whitespace('\u{200B}'));
}

#[test]
fn dot_components_count_only_at_the_start() {
    assert_eq!(split_components("./a/./b/.", '/'), strings(&[".", "a", "b"]));
    assert_eq!(split_components("/./a", '/'), strings(&["a"]));
    assert_eq!(split_components(".", '/'), strings(&["."]));
    assert_eq!(split_components("a/../b", '/'), strings(&["a", "..", "b"]));
    assert_eq!(split_components(".hidden/.", '/'), strings(&[".hidden"]));
    assert_eq!(file_name("a/.", '/'), "a");
    assert_eq!(file_name("a/..", '/'), "");
    assert_eq!(file_name(".", '/'), "");
    assert_eq!(file_name("..", '/'), "");
    assert!(path_starts_with("src/./lib.rs", "src", '/'));
    assert!(path_starts_with("./src/lib.rs", "./src", '/'));
    assert!(!path_starts_with("src/lib.rs", "./src", '/'));
    assert_eq!(strip_prefix("./src/./lib.rs", "./src", '/'), Some("lib.rs".to_string()));
}

#[test]
fn paths_follow_the_standard_library_where_there_is_no_prefix() {
    let paths = [
        "", ".", "..", "/", "a", "a/", "a/b", "/a/b", "a//b", "a/./b", "./a", "./a/b", "/./a",
        "a/.", "a/..", "../a", "src/lib.rs", "src/gen/", "/etc/passwd", "etc/passwd", ".hidden",
        "a/.hidden", "a.tar.gz", "dir/a.tar.gz", "dir.d/file", "foo.", ".a.b", "a b/c d.txt",
        "wp-content/plugins/akismet/akismet.php", "srcs/lib.rs", "src", "a/b/c", "a/b/", "é/ü.rs",
    ];
    for path in paths {
        let std_name = Path::new(path).file_name().map(|n| n.to_str().unwrap().to_string());
        assert_eq!(file_name(path, '/'), std_name.clone().unwrap_or_default(), "name of {:?}", path);
        let std_extension = Path::new(path).extension().map(|e| e.to_str().unwrap().to_string());
        assert_eq!(extension(&file_name(path, '/')), std_extension, "extension of {:?}", path);
        for base in paths {
            if base.is_empty() {
                continue;
            }
            assert_eq!(
                path_starts_with(path, base, '/'),
                Path::new(path).starts_with(base),
                "{:?} under {:?}",
                path,
                base
            );
            assert_eq!(
                strip_prefix(path, base, '/').is_some(),
                Path::new(path).strip_prefix(base).is_ok(),
                "{:?} without {:?}",
                path,
                base
            );
        }
    }
    for (path, base) in [("/p/src/lib.rs", "/p"), ("a/b/c", "a"), ("a/b/c", "a/b/"), ("./a/b", ".")] {
        let std_relative = Path::new(path).strip_prefix(base).unwrap().to_str().unwrap().to_string();
        assert_eq!(strip_prefix(path, base, '/'), Some(std_relative));
    }
}
