//! The filter pipeline: whether one entry of a directory walk is admitted, decided stage by
//! stage, the first stage that rejects being final.

use vstd::prelude::*;
use crate::globs::{glob_match, glob_matches, match_any_glob, matches_any};
use crate::options::{Args, ArgsView};
use crate::paths::{
    extension, extension_of, file_name, file_name_of, path_starts_with, path_under, relative_to,
    strip_prefix,
};
use crate::text::{
    before_first, chars_of, joined, lowercase, opt_text, opt_texts, or_empty, segment_before,
    slice_texts, split, split_at_char, starts_with, text_eq, to_lowercase, trim, trimmed,
};

verus! {

/// How many bytes of a file are looked at to tell text from binary content.
pub const SNIFF_LENGTH: usize = 1024;

/// One entry of a directory walk.
#[derive(Debug)]
pub struct ScanEntry {
    /// The path as the walk gave it.
    pub path: String,
    /// The path relative to the scanned root; `path` itself where it is not under the root.
    pub relative: String,
    /// Whether the entry lies under the scanned root.
    pub under_root: bool,
    /// Whether the entry is a directory.
    pub is_dir: bool,
}

/// What a [`ScanEntry`] holds, with every string as its characters.
pub struct ScanEntryView {
    pub path: Seq<char>,
    pub relative: Seq<char>,
    pub under_root: bool,
    pub is_dir: bool,
}

impl ScanEntry {
    /// The entry for a path that a walk from `root` gave. Its relative path is the one from
    /// `root`, where the path lies at or under `root`, and else the path itself.
    pub fn new(path: String, root: &str, is_dir: bool, separator: char) -> (entry: ScanEntry)
        ensures
            entry@ == (ScanEntryView {
                path: path@,
                relative: match relative_to(path@, root@, separator) {
                    Some(r) => r,
                    None => path@,
                },
                under_root: relative_to(path@, root@, separator) is Some,
                is_dir: is_dir,
            }),
    {
        match strip_prefix(path.as_str(), root, separator) {
            Some(relative) => ScanEntry { path, relative, under_root: true, is_dir },
            None => {
                let relative = path.clone();
                ScanEntry { path, relative, under_root: false, is_dir }
            },
        }
    }
}

impl View for ScanEntry {
    type V = ScanEntryView;

    open spec fn view(&self) -> ScanEntryView {
        ScanEntryView {
            path: self.path@,
            relative: self.relative@,
            under_root: self.under_root,
            is_dir: self.is_dir,
        }
    }
}

/// The extensions of files that are binary whatever they hold, in lower case, without dot.
pub open spec fn binary_extensions() -> Seq<Seq<char>> {
    seq![
        "png"@,
        "jpg"@,
        "jpeg"@,
        "gif"@,
        "ico"@,
        "webp"@,
        "svg"@,
        "bmp"@,
        "tiff"@,
        "tif"@,
        "mp4"@,
        "avi"@,
        "mov"@,
        "wmv"@,
        "flv"@,
        "webm"@,
        "mkv"@,
        "mp3"@,
        "wav"@,
        "ogg"@,
        "zip"@,
        "tar"@,
        "gz"@,
        "bz2"@,
        "7z"@,
        "rar"@,
        "pdf"@,
        "doc"@,
        "docx"@,
        "xls"@,
        "xlsx"@,
        "exe"@,
        "dll"@,
        "so"@,
        "dylib"@,
        "woff"@,
        "woff2"@,
        "ttf"@,
        "eot"@,
    ]
}

/// The files of the WordPress core that are never selected.
pub open spec fn core_wp_files() -> Seq<Seq<char>> {
    seq![
        "xmlrpc.php"@,
        "wp-activate.php"@,
        "wp-cron.php"@,
        "wp-load.php"@,
        "wp-blog-header.php"@,
        "wp-settings.php"@,
        "wp-login.php"@,
        "wp-signup.php"@,
        "wp-trackback.php"@,
        "wp-comments-post.php"@,
        "wp-links-opml.php"@,
        "wp-mail.php"@,
    ]
}

/// The patterns of an ignore file: its lines without surrounding white space, blank lines and
/// lines that begin with `#` left out.
pub open spec fn ignore_lines(content: Seq<char>) -> Seq<Seq<char>> {
    kept_lines(split(content, '\n'))
}

/// Whether a trimmed line of an ignore file is a pattern: it is not blank and no comment.
pub open spec fn is_pattern_line(line: Seq<char>) -> bool {
    line.len() > 0 && line[0] != '#'
}

/// The patterns among `lines`, each trimmed.
pub open spec fn kept_lines(lines: Seq<Seq<char>>) -> Seq<Seq<char>>
    decreases lines.len(),
{
    if lines.len() == 0 {
        Seq::empty()
    } else {
        let init = kept_lines(lines.drop_last());
        let line = trimmed(lines.last());
        if is_pattern_line(line) {
            init.push(line)
        } else {
            init
        }
    }
}

/// Whether one of the ignore patterns matches the path. A pattern that does not compile
/// matches nothing.
pub open spec fn ignored(patterns: Seq<Seq<char>>, path: Seq<char>) -> bool {
    exists|i: int| 0 <= i < patterns.len() && #[trigger] glob_match(patterns[i], path) == Some(true)
}

/// Whether the path lies at or under one of the directories.
pub open spec fn under_any(dirs: Seq<Seq<char>>, path: Seq<char>, separator: char) -> bool {
    exists|i: int| 0 <= i < dirs.len() && #[trigger] path_under(path, dirs[i], separator)
}

/// The directory of each plugin, in lower case. Of a plugin given as `directory/file` only
/// the directory counts.
pub open spec fn lower_slugs(plugins: Seq<Seq<char>>) -> Seq<Seq<char>> {
    Seq::new(plugins.len(), |i: int| lowercase(before_first(plugins[i], '/')))
}

/// Whether a lower-case relative path begins with the text of one of the plugin directories,
/// themselves in lower case, under `wp-content/plugins/`: a match by slug prefix, so that
/// excluding `foo` excludes `foobar` too.
pub open spec fn in_any_plugin(slugs: Seq<Seq<char>>, lower: Seq<char>) -> bool {
    exists|i: int|
        0 <= i < slugs.len() && ("wp-content/plugins/"@ + #[trigger] slugs[i]).is_prefix_of(lower)
}

/// Whether a path lies in a directory: it is the directory itself, or it begins with the
/// directory followed by `/`. So `plugins/foo` holds `plugins/foo/a.php` and not
/// `plugins/foobar/a.php`.
pub open spec fn within(dir: Seq<char>, path: Seq<char>) -> bool {
    path == dir || (dir + seq!['/']).is_prefix_of(path)
}

/// Whether a lower-case relative path lies in the directory of one of the selected plugins,
/// given in lower case, under `wp-content/plugins/`.
pub open spec fn in_selected_plugin(slugs: Seq<Seq<char>>, lower: Seq<char>) -> bool {
    exists|i: int|
        0 <= i < slugs.len() && within("wp-content/plugins/"@ + #[trigger] slugs[i], lower)
}

/// Whether a lower-case relative path lies in the directory of the selected theme, given in
/// lower case, under `wp-content/themes/`.
pub open spec fn in_selected_theme(theme: Seq<char>, lower: Seq<char>) -> bool {
    within("wp-content/themes/"@ + theme, lower)
}

/// Whether a byte marks content as binary: NUL, or a control byte other than tab, line feed
/// and carriage return.
pub open spec fn binary_byte(b: u8) -> bool {
    b == 0 || (b < 32 && b != 9 && b != 10 && b != 13)
}

/// Whether the first bytes of a file, at most [`SNIFF_LENGTH`] of them, hold a binary byte.
pub open spec fn binary_content(head: Seq<u8>) -> bool {
    exists|i: int| 0 <= i < head.len() && i < SNIFF_LENGTH && binary_byte(#[trigger] head[i])
}

/// Whether an extension, given in lower case, is one of the binary extensions.
pub open spec fn binary_extension(lower_extension: Option<Seq<char>>) -> bool {
    match lower_extension {
        Some(e) => binary_extensions().contains(e),
        None => false,
    }
}

/// Whether a file is binary: by its extension, or else by its first bytes.
pub open spec fn is_binary(lower_extension: Option<Seq<char>>, head: Seq<u8>) -> bool {
    binary_extension(lower_extension) || binary_content(head)
}

/// Whether strict inclusion is on: the profile is `wordpress` and plugins or a theme were
/// selected explicitly.
pub open spec fn strict_mode(args: ArgsView) -> bool {
    args.profile == Some("wordpress"@) && (args.wp_include_only_plugins is Some
        || args.wp_include_theme is Some)
}

/// What the matchers answer for one entry: the part of a decision that rests on glob matching
/// and on lower-casing. The pipeline decides from these answers and the entry alone.
#[derive(Debug)]
pub struct MatchFacts {
    /// Whether an ignore pattern matches the relative path.
    pub ignored: bool,
    /// Whether an exclude glob matches the relative path.
    pub excluded_by_glob: bool,
    /// Whether an include glob matches the relative path.
    pub included_by_glob: bool,
    /// The relative path in lower case.
    pub lower_relative: String,
    /// The extension of the file name in lower case, without its dot.
    pub lower_extension: Option<String>,
    /// The directories of the excluded plugins, in lower case.
    pub excluded_plugins: Vec<String>,
    /// The directories of the plugins selected explicitly, in lower case.
    pub selected_plugins: Vec<String>,
    /// The theme selected explicitly, in lower case.
    pub selected_theme: Option<String>,
}

/// What [`MatchFacts`] holds, with every string as its characters.
pub struct MatchFactsView {
    pub ignored: bool,
    pub excluded_by_glob: bool,
    pub included_by_glob: bool,
    pub lower_relative: Seq<char>,
    pub lower_extension: Option<Seq<char>>,
    pub excluded_plugins: Seq<Seq<char>>,
    pub selected_plugins: Seq<Seq<char>>,
    pub selected_theme: Option<Seq<char>>,
}

impl View for MatchFacts {
    type V = MatchFactsView;

    open spec fn view(&self) -> MatchFactsView {
        MatchFactsView {
            ignored: self.ignored,
            excluded_by_glob: self.excluded_by_glob,
            included_by_glob: self.included_by_glob,
            lower_relative: self.lower_relative@,
            lower_extension: opt_text(self.lower_extension),
            excluded_plugins: self.excluded_plugins.deep_view(),
            selected_plugins: self.selected_plugins.deep_view(),
            selected_theme: opt_text(self.selected_theme),
        }
    }
}

/// The facts that the matchers give for an entry under the options of a run.
pub open spec fn facts_of(
    entry: ScanEntryView,
    args: ArgsView,
    patterns: Seq<Seq<char>>,
    separator: char,
) -> MatchFactsView {
    MatchFactsView {
        ignored: ignored(patterns, entry.relative),
        excluded_by_glob: matches_any(or_empty(args.exclude_globs), entry.relative, separator),
        included_by_glob: matches_any(or_empty(args.include_globs), entry.relative, separator),
        lower_relative: lowercase(entry.relative),
        lower_extension: match extension_of(file_name_of(entry.path, separator)) {
            Some(e) => Some(lowercase(e)),
            None => None,
        },
        excluded_plugins: lower_slugs(or_empty(args.wp_exclude_plugins)),
        selected_plugins: lower_slugs(or_empty(args.wp_include_only_plugins)),
        selected_theme: match args.wp_include_theme {
            Some(t) => Some(lowercase(t)),
            None => None,
        },
    }
}

/// Stage: the entry is no directory.
pub open spec fn stage_file(entry: ScanEntryView) -> bool {
    !entry.is_dir
}

/// Stage: no ignore pattern matches the relative path.
pub open spec fn stage_ignore(facts: MatchFactsView) -> bool {
    !facts.ignored
}

/// Stage: the relative path lies under no excluded directory.
pub open spec fn stage_exclude_dirs(entry: ScanEntryView, args: ArgsView, separator: char) -> bool {
    args.exclude_dirs is Some ==> !under_any(args.exclude_dirs->0, entry.relative, separator)
}

/// Stage: where directories are included, the relative path lies under one of them.
pub open spec fn stage_include_dirs(entry: ScanEntryView, args: ArgsView, separator: char) -> bool {
    args.include_dirs is Some ==> under_any(args.include_dirs->0, entry.relative, separator)
}

/// Stage: no exclude glob matches the relative path.
pub open spec fn stage_exclude_globs(args: ArgsView, facts: MatchFactsView) -> bool {
    args.exclude_globs is Some ==> !facts.excluded_by_glob
}

/// Stage: where include globs are set, one of them matches the relative path. A list that is
/// set and empty therefore rejects everything; no list rejects nothing.
pub open spec fn stage_include_globs(args: ArgsView, facts: MatchFactsView) -> bool {
    args.include_globs is Some ==> facts.included_by_glob
}

/// Stage: the entry lies under no excluded plugin.
pub open spec fn stage_plugin_excludes(
    entry: ScanEntryView,
    args: ArgsView,
    facts: MatchFactsView,
) -> bool {
    !(args.wp_exclude_plugins is Some && entry.under_root && in_any_plugin(
        facts.excluded_plugins,
        facts.lower_relative,
    ))
}

/// The stages that need the path alone, in their order.
pub open spec fn path_stages(
    entry: ScanEntryView,
    args: ArgsView,
    facts: MatchFactsView,
    separator: char,
) -> bool {
    &&& stage_file(entry)
    &&& stage_ignore(facts)
    &&& stage_exclude_dirs(entry, args, separator)
    &&& stage_include_dirs(entry, args, separator)
    &&& stage_exclude_globs(args, facts)
    &&& stage_include_globs(args, facts)
    &&& stage_plugin_excludes(entry, args, facts)
}

/// What strict inclusion admits: the site's `wp-config.php`, what lies in the directory of a
/// selected plugin, and what lies in the directory of the selected theme. A package whose
/// name only begins like that of a selected one is another package.
pub open spec fn strict_allows(args: ArgsView, facts: MatchFactsView) -> bool {
    ||| facts.lower_relative == "wp-config.php"@
    ||| (args.wp_include_only_plugins is Some && in_selected_plugin(
        facts.selected_plugins,
        facts.lower_relative,
    ))
    ||| (facts.selected_theme is Some && in_selected_theme(
        facts.selected_theme->0,
        facts.lower_relative,
    ))
}

/// Stage: under strict inclusion, an entry under the root was selected.
pub open spec fn stage_strict(entry: ScanEntryView, args: ArgsView, facts: MatchFactsView) -> bool {
    strict_mode(args) && entry.under_root ==> strict_allows(args, facts)
}

/// Stage: the entry is none of the files of the WordPress core.
pub open spec fn stage_core_files(entry: ScanEntryView, separator: char) -> bool {
    !core_wp_files().contains(file_name_of(entry.path, separator))
}

/// The last stages: strict inclusion, then the files of the WordPress core, which are
/// rejected also where strict inclusion selected them.
pub open spec fn scope_stages(
    entry: ScanEntryView,
    args: ArgsView,
    facts: MatchFactsView,
    separator: char,
) -> bool {
    &&& stage_strict(entry, args, facts)
    &&& stage_core_files(entry, separator)
}

/// The decision of the pipeline on an entry, given what the matchers answered: every stage
/// passes.
pub open spec fn decision(
    entry: ScanEntryView,
    args: ArgsView,
    facts: MatchFactsView,
    head: Seq<u8>,
    separator: char,
) -> bool {
    &&& path_stages(entry, args, facts, separator)
    &&& !is_binary(facts.lower_extension, head)
    &&& scope_stages(entry, args, facts, separator)
}

/// Whether the pipeline admits an entry: its decision on what the matchers answer for the
/// entry.
pub open spec fn admitted(
    entry: ScanEntryView,
    args: ArgsView,
    patterns: Seq<Seq<char>>,
    head: Seq<u8>,
    separator: char,
) -> bool {
    decision(entry, args, facts_of(entry, args, patterns, separator), head, separator)
}

/// Whether `list` holds the text `x`.
fn listed_in(list: &[&str], x: &str) -> (r: bool)
    ensures
        r == slice_texts(list@).contains(x@),
{
    let mut i: usize = 0;
    while i < list.len()
        invariant
            i <= list.len(),
            forall|j: int| 0 <= j < i ==> slice_texts(list@)[j] != x@,
        decreases list.len() - i,
    {
        if text_eq(list[i], x) {
            assert(slice_texts(list@)[i as int] == x@);
            return true;
        }
        i += 1;
    }
    false
}

/// The patterns of an ignore file: its lines without surrounding white space, blank lines and
/// lines that begin with `#` left out.
pub fn load_ignore_patterns(content: &str) -> (patterns: Vec<String>)
    ensures
        patterns.deep_view() == ignore_lines(content@),
{
    let lines = split_at_char(content, '\n');
    let mut patterns: Vec<String> = Vec::new();
    let mut i: usize = 0;
    assert(lines.deep_view().take(0) =~= Seq::<Seq<char>>::empty());
    assert(patterns.deep_view() =~= Seq::<Seq<char>>::empty());
    while i < lines.len()
        invariant
            i <= lines.len(),
            patterns.deep_view() == kept_lines(lines.deep_view().take(i as int)),
        decreases lines.len() - i,
    {
        let ghost before = patterns.deep_view();
        let ghost next = lines.deep_view().take(i as int + 1);
        assert(next.drop_last() =~= lines.deep_view().take(i as int));
        assert(next.last() == lines[i as int]@);
        let line = trim(lines[i].as_str());
        let cs = chars_of(line.as_str());
        if cs.len() > 0 && cs[0] != '#' {
            patterns.push(line);
            assert(patterns.deep_view() =~= before.push(line@));
        }
        i += 1;
    }
    assert(lines.deep_view().take(lines.len() as int) =~= lines.deep_view());
    patterns
}

/// Whether one of the ignore patterns matches the relative path.
pub fn is_ignored_by_file(relative: &str, patterns: &Vec<String>) -> (r: bool)
    ensures
        r == ignored(patterns.deep_view(), relative@),
{
    let mut i: usize = 0;
    while i < patterns.len()
        invariant
            i <= patterns.len(),
            forall|j: int|
                0 <= j < i ==> #[trigger] glob_match(patterns.deep_view()[j], relative@) != Some(
                    true,
                ),
        decreases patterns.len() - i,
    {
        match glob_matches(patterns[i].as_str(), relative) {
            Some(true) => {
                assert(glob_match(patterns.deep_view()[i as int], relative@) == Some(true));
                return true;
            },
            _ => {},
        }
        i += 1;
    }
    false
}

/// Whether the path lies at or under one of the directories.
pub fn under_any_dir(dirs: &Vec<String>, path: &str, separator: char) -> (r: bool)
    ensures
        r == under_any(dirs.deep_view(), path@, separator),
{
    let mut i: usize = 0;
    while i < dirs.len()
        invariant
            i <= dirs.len(),
            forall|j: int|
                0 <= j < i ==> !#[trigger] path_under(path@, dirs.deep_view()[j], separator),
        decreases dirs.len() - i,
    {
        if path_starts_with(path, dirs[i].as_str(), separator) {
            assert(path_under(path@, dirs.deep_view()[i as int], separator));
            return true;
        }
        i += 1;
    }
    false
}

/// Whether a lower-case relative path begins with the text of one of the plugin directories.
pub fn under_any_plugin(slugs: &Vec<String>, lower: &str) -> (r: bool)
    ensures
        r == in_any_plugin(slugs.deep_view(), lower@),
{
    let mut i: usize = 0;
    while i < slugs.len()
        invariant
            i <= slugs.len(),
            forall|j: int|
                0 <= j < i ==> !("wp-content/plugins/"@
                    + #[trigger] slugs.deep_view()[j]).is_prefix_of(lower@),
        decreases slugs.len() - i,
    {
        let prefix = joined("wp-content/plugins/", slugs[i].as_str());
        if starts_with(lower, prefix.as_str()) {
            assert(("wp-content/plugins/"@ + slugs.deep_view()[i as int]).is_prefix_of(lower@));
            return true;
        }
        i += 1;
    }
    false
}

/// Whether a path lies in a directory: it is the directory, or begins with it and a `/`.
pub fn lies_within(dir: &str, path: &str) -> (r: bool)
    ensures
        r == within(dir@, path@),
{
    if text_eq(path, dir) {
        return true;
    }
    proof {
        reveal_strlit("/");
        assert("/"@ =~= seq!['/']);
    }
    let with_slash = joined(dir, "/");
    starts_with(path, with_slash.as_str())
}

/// Whether a lower-case relative path lies in the directory of one of the selected plugins.
pub fn under_selected_plugin(slugs: &Vec<String>, lower: &str) -> (r: bool)
    ensures
        r == in_selected_plugin(slugs.deep_view(), lower@),
{
    let mut i: usize = 0;
    while i < slugs.len()
        invariant
            i <= slugs.len(),
            forall|j: int|
                0 <= j < i ==> !within(
                    "wp-content/plugins/"@ + #[trigger] slugs.deep_view()[j],
                    lower@,
                ),
        decreases slugs.len() - i,
    {
        let dir = joined("wp-content/plugins/", slugs[i].as_str());
        if lies_within(dir.as_str(), lower) {
            assert(within("wp-content/plugins/"@ + slugs.deep_view()[i as int], lower@));
            return true;
        }
        i += 1;
    }
    false
}

/// Whether a lower-case relative path lies in the directory of the selected theme.
pub fn under_selected_theme(theme: &str, lower: &str) -> (r: bool)
    ensures
        r == in_selected_theme(theme@, lower@),
{
    let dir = joined("wp-content/themes/", theme);
    lies_within(dir.as_str(), lower)
}

/// The directory of each plugin, in lower case.
fn lower_slugs_of(plugins: &Option<Vec<String>>) -> (out: Vec<String>)
    ensures
        out.deep_view() == lower_slugs(or_empty(opt_texts(*plugins))),
{
    let mut out: Vec<String> = Vec::new();
    match plugins {
        Some(list) => {
            let ghost all = lower_slugs(list.deep_view());
            let mut i: usize = 0;
            while i < list.len()
                invariant
                    i <= list.len(),
                    all == lower_slugs(list.deep_view()),
                    out.deep_view() == all.take(i as int),
                decreases list.len() - i,
            {
                let ghost before = out.deep_view();
                let directory = segment_before(list[i].as_str(), '/');
                let slug = to_lowercase(directory.as_str());
                out.push(slug);
                assert(out.deep_view() =~= before.push(slug@));
                i += 1;
                assert(all.take(i as int) =~= before.push(slug@));
            }
            assert(all.take(list.len() as int) =~= all);
        },
        None => {
            assert(out.deep_view() =~= lower_slugs(Seq::<Seq<char>>::empty()));
        },
    }
    out
}

/// Asks the matchers about an entry: which globs match its relative path, and what its path,
/// its extension and the selected and excluded packages are in lower case.
pub fn match_facts(
    entry: &ScanEntry,
    args: &Args,
    ignore_patterns: &Vec<String>,
    separator: char,
) -> (facts: MatchFacts)
    ensures
        facts@ == facts_of(entry@, args@, ignore_patterns.deep_view(), separator),
{
    let relative = entry.relative.as_str();
    let excluded_by_glob = match &args.exclude_globs {
        Some(globs) => match_any_glob(globs, relative, separator),
        None => {
            assert(!matches_any(Seq::<Seq<char>>::empty(), relative@, separator));
            false
        },
    };
    let included_by_glob = match &args.include_globs {
        Some(globs) => match_any_glob(globs, relative, separator),
        None => {
            assert(!matches_any(Seq::<Seq<char>>::empty(), relative@, separator));
            false
        },
    };
    let name = file_name(entry.path.as_str(), separator);
    let lower_extension = match extension(name.as_str()) {
        Some(e) => Some(to_lowercase(e.as_str())),
        None => None,
    };
    let selected_theme = match &args.wp_include_theme {
        Some(t) => Some(to_lowercase(t.as_str())),
        None => None,
    };
    MatchFacts {
        ignored: is_ignored_by_file(relative, ignore_patterns),
        excluded_by_glob,
        included_by_glob,
        lower_relative: to_lowercase(relative),
        lower_extension,
        excluded_plugins: lower_slugs_of(&args.wp_exclude_plugins),
        selected_plugins: lower_slugs_of(&args.wp_include_only_plugins),
        selected_theme,
    }
}

/// Whether an extension, given in lower case and without its dot, is a binary one.
pub fn has_binary_extension(lower_extension: &Option<String>) -> (r: bool)
    ensures
        r == binary_extension(opt_text(*lower_extension)),
{
    match lower_extension {
        Some(e) => {
            let denied: [&str; 39] = [
                "png",
                "jpg",
                "jpeg",
                "gif",
                "ico",
                "webp",
                "svg",
                "bmp",
                "tiff",
                "tif",
                "mp4",
                "avi",
                "mov",
                "wmv",
                "flv",
                "webm",
                "mkv",
                "mp3",
                "wav",
                "ogg",
                "zip",
                "tar",
                "gz",
                "bz2",
                "7z",
                "rar",
                "pdf",
                "doc",
                "docx",
                "xls",
                "xlsx",
                "exe",
                "dll",
                "so",
                "dylib",
                "woff",
                "woff2",
                "ttf",
                "eot",
            ];
            assert(slice_texts(denied@) =~= binary_extensions());
            listed_in(&denied, e.as_str())
        },
        None => false,
    }
}

/// Whether the first bytes of a file mark its content as binary.
pub fn has_binary_content(head: &[u8]) -> (r: bool)
    ensures
        r == binary_content(head@),
{
    let mut i: usize = 0;
    while i < head.len() && i < SNIFF_LENGTH
        invariant
            i <= head.len(),
            i <= SNIFF_LENGTH,
            forall|j: int| 0 <= j < i ==> !binary_byte(#[trigger] head@[j]),
        decreases head.len() - i,
    {
        let b = head[i];
        if b == 0 || (b < 32 && b != 9 && b != 10 && b != 13) {
            return true;
        }
        i += 1;
    }
    false
}

/// Whether a file is binary: its extension, given in lower case, is one of the binary ones,
/// or its first bytes, at most [`SNIFF_LENGTH`] of them, hold a NUL or a control byte other
/// than tab, line feed and carriage return. `head` is what was read from the start of the
/// file; it is empty where the file could not be read.
pub fn is_binary_file(lower_extension: &Option<String>, head: &[u8]) -> (r: bool)
    ensures
        r == is_binary(opt_text(*lower_extension), head@),
{
    if has_binary_extension(lower_extension) {
        return true;
    }
    has_binary_content(head)
}

/// Whether an entry passes the stages that need its path alone: it is no directory, no ignore
/// pattern matches it, it lies under no excluded and, where any are set, under an included
/// directory, no exclude glob and, where any are set, an include glob matches it, and it
/// lies under no excluded plugin.
pub fn passes_path_rules(
    entry: &ScanEntry,
    args: &Args,
    facts: &MatchFacts,
    separator: char,
) -> (r: bool)
    ensures
        r == path_stages(entry@, args@, facts@, separator),
{
    if entry.is_dir {
        return false;
    }
    if facts.ignored {
        return false;
    }
    let relative = entry.relative.as_str();
    match &args.exclude_dirs {
        Some(dirs) => {
            if under_any_dir(dirs, relative, separator) {
                return false;
            }
        },
        None => {},
    }
    match &args.include_dirs {
        Some(dirs) => {
            if !under_any_dir(dirs, relative, separator) {
                return false;
            }
        },
        None => {},
    }
    if args.exclude_globs.is_some() && facts.excluded_by_glob {
        return false;
    }
    if args.include_globs.is_some() && !facts.included_by_glob {
        return false;
    }
    if args.wp_exclude_plugins.is_some() && entry.under_root {
        if under_any_plugin(&facts.excluded_plugins, facts.lower_relative.as_str()) {
            return false;
        }
    }
    true
}

/// Whether strict inclusion is on.
pub fn is_strict(args: &Args) -> (r: bool)
    ensures
        r == strict_mode(args@),
{
    let wordpress = match &args.profile {
        Some(p) => text_eq(p.as_str(), "wordpress"),
        None => false,
    };
    wordpress && (args.wp_include_only_plugins.is_some() || args.wp_include_theme.is_some())
}

/// Whether an entry passes the last stages: under strict inclusion it must be the site's
/// `wp-config.php` or lie in the directory of a selected plugin or of the selected theme; and
/// in any case it must not be one of the files of the WordPress core.
pub fn passes_scope_rules(
    entry: &ScanEntry,
    args: &Args,
    facts: &MatchFacts,
    separator: char,
) -> (r: bool)
    ensures
        r == scope_stages(entry@, args@, facts@, separator),
{
    if is_strict(args) && entry.under_root {
        let lower = facts.lower_relative.as_str();
        let in_plugin = args.wp_include_only_plugins.is_some() && under_selected_plugin(
            &facts.selected_plugins,
            lower,
        );
        let in_theme = match &facts.selected_theme {
            Some(theme) => under_selected_theme(theme.as_str(), lower),
            None => false,
        };
        let selected = text_eq(lower, "wp-config.php") || in_plugin || in_theme;
        if !selected {
            return false;
        }
    }
    let name = file_name(entry.path.as_str(), separator);
    let core: [&str; 12] = [
        "xmlrpc.php",
        "wp-activate.php",
        "wp-cron.php",
        "wp-load.php",
        "wp-blog-header.php",
        "wp-settings.php",
        "wp-login.php",
        "wp-signup.php",
        "wp-trackback.php",
        "wp-comments-post.php",
        "wp-links-opml.php",
        "wp-mail.php",
    ];
    assert(slice_texts(core@) =~= core_wp_files());
    !listed_in(&core, name.as_str())
}

/// The decision of the pipeline on an entry, given what the matchers answered for it. The
/// stages run in a fixed order and the first one that rejects decides: directory, ignore
/// patterns, excluded directories, included directories, exclude globs, include globs,
/// excluded plugins, binary content, strict inclusion, files of the WordPress core.
pub fn decide(
    entry: &ScanEntry,
    args: &Args,
    facts: &MatchFacts,
    head: &[u8],
    separator: char,
) -> (r: bool)
    ensures
        r == decision(entry@, args@, facts@, head@, separator),
{
    if !passes_path_rules(entry, args, facts, separator) {
        return false;
    }
    if is_binary_file(&facts.lower_extension, head) {
        return false;
    }
    passes_scope_rules(entry, args, facts, separator)
}

/// Whether the pipeline admits an entry: the matchers are asked about the entry, and the
/// pipeline decides on their answers.
pub fn should_process_path(
    entry: &ScanEntry,
    args: &Args,
    ignore_patterns: &Vec<String>,
    head: &[u8],
    separator: char,
) -> (r: bool)
    ensures
        r == admitted(entry@, args@, ignore_patterns.deep_view(), head@, separator),
{
    let facts = match_facts(entry, args, ignore_patterns, separator);
    decide(entry, args, &facts, head, separator)
}

/// An ignore pattern that matches wins over every include glob: the entry is rejected.
pub proof fn law_ignore_precedence(
    entry: ScanEntryView,
    args: ArgsView,
    patterns: Seq<Seq<char>>,
    head: Seq<u8>,
    separator: char,
)
    requires
        ignored(patterns, entry.relative),
    ensures
        !admitted(entry, args, patterns, head, separator),
{
}

/// Under strict inclusion, an entry under the root that is not the site's `wp-config.php` and
/// lies in no selected package is rejected, whatever its extension.
pub proof fn law_strict_scope(
    entry: ScanEntryView,
    args: ArgsView,
    patterns: Seq<Seq<char>>,
    head: Seq<u8>,
    separator: char,
)
    requires
        strict_mode(args),
        entry.under_root,
        lowercase(entry.relative) != "wp-config.php"@,
        !in_selected_plugin(
            lower_slugs(or_empty(args.wp_include_only_plugins)),
            lowercase(entry.relative),
        ),
        args.wp_include_theme is Some ==> !in_selected_theme(
            lowercase(args.wp_include_theme->0),
            lowercase(entry.relative),
        ),
    ensures
        !admitted(entry, args, patterns, head, separator),
{
}

/// A file of one package lies in no other package: a path in the directory of the package
/// `other` lies in the directory of the package `slug` only where the two names are the same.
/// So with `foo` selected, neither `bar` nor `foobar` is.
pub proof fn law_packages_are_apart(
    parent: Seq<char>,
    slug: Seq<char>,
    other: Seq<char>,
    rest: Seq<char>,
)
    requires
        !slug.contains('/'),
        !other.contains('/'),
        slug != other,
    ensures
        !within(parent + slug, parent + other + seq!['/'] + rest),
{
    let dir = parent + slug;
    let path = parent + other + seq!['/'] + rest;
    let n = parent.len() as int;
    let shorter = if slug.len() < other.len() {
        slug.len() as int
    } else {
        other.len() as int
    };
    if within(dir, path) {
        // Either way the path begins with the directory.
        assert(dir.is_prefix_of(path)) by {
            if path != dir {
                assert(dir =~= (dir + seq!['/']).subrange(0, dir.len() as int));
                assert(dir =~= path.subrange(0, dir.len() as int));
            } else {
                assert(dir =~= path.subrange(0, dir.len() as int));
            }
        }
        assert forall|k: int| 0 <= k < shorter implies slug[k] == other[k] by {
            assert(dir[n + k] == slug[k]);
            assert(path[n + k] == other[k]);
            assert(path.subrange(0, dir.len() as int)[n + k] == path[n + k]);
        }
        if slug.len() > other.len() {
            let k = other.len() as int;
            assert(dir[n + k] == slug[k]);
            assert(path[n + k] == '/');
            assert(path.subrange(0, dir.len() as int)[n + k] == path[n + k]);
            assert(slug.contains(slug[k]));
        } else if slug.len() < other.len() {
            let k = slug.len() as int;
            assert(path != dir);
            let longer = dir + seq!['/'];
            assert(longer[n + k] == '/');
            assert(path[n + k] == other[k]);
            assert(path.subrange(0, longer.len() as int)[n + k] == path[n + k]);
            assert(other.contains(other[k]));
        } else {
            assert(slug =~= other);
        }
    }
}

/// With one plugin selected and no theme, a file of any other plugin is rejected, whatever
/// its extension: strict inclusion goes by the package, not by the file.
pub proof fn law_other_plugin_rejected(
    entry: ScanEntryView,
    args: ArgsView,
    patterns: Seq<Seq<char>>,
    head: Seq<u8>,
    separator: char,
    other: Seq<char>,
    rest: Seq<char>,
)
    requires
        strict_mode(args),
        entry.under_root,
        args.wp_include_theme is None,
        args.wp_include_only_plugins is Some,
        lowercase(entry.relative) == "wp-content/plugins/"@ + other + seq!['/'] + rest,
        !other.contains('/'),
        forall|i: int|
            0 <= i < args.wp_include_only_plugins->0.len() ==> {
                let slug = #[trigger] lower_slugs(args.wp_include_only_plugins->0)[i];
                !slug.contains('/') && slug != other
            },
    ensures
        !admitted(entry, args, patterns, head, separator),
{
    let facts = facts_of(entry, args, patterns, separator);
    let slugs = lower_slugs(args.wp_include_only_plugins->0);
    let lower = lowercase(entry.relative);
    assert forall|i: int| 0 <= i < slugs.len() implies !within(
        "wp-content/plugins/"@ + #[trigger] slugs[i],
        lower,
    ) by {
        law_packages_are_apart("wp-content/plugins/"@, slugs[i], other, rest);
    }
    assert(lower != "wp-config.php"@) by {
        reveal_strlit("wp-config.php");
        reveal_strlit("wp-content/plugins/");
        assert(lower[6] == 't');
        assert("wp-config.php"@[6] == 'f');
    }
}

/// An empty list of include globs, set explicitly, rejects every entry.
pub proof fn law_empty_globs_reject_all(
    entry: ScanEntryView,
    args: ArgsView,
    patterns: Seq<Seq<char>>,
    head: Seq<u8>,
    separator: char,
)
    requires
        args.include_globs == Some(Seq::<Seq<char>>::empty()),
    ensures
        !admitted(entry, args, patterns, head, separator),
{
}

/// Without include globs the glob stage rejects nothing: whether an entry is admitted does
/// not depend on it.
pub proof fn law_no_globs_no_restriction(args: ArgsView, facts: MatchFactsView)
    requires
        args.include_globs is None,
    ensures
        stage_include_globs(args, facts),
{
}

} // verus!
