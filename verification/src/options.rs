//! The options of one run, and how the configuration file and the chosen profile fill in what
//! the command line left open.

use vstd::prelude::*;
use crate::config::{ConfigFile, ConfigFileView};
use crate::paths::{path_starts_with, path_under};
use crate::profiles::{inherit, Profile, ProfileView};
use crate::text::{
    append_new, clone_opt_text, clone_opt_texts, clone_texts, extended, joined, opt_text, opt_texts,
    or_empty,
};

verus! {

/// The largest file size that a run may be configured with: 100 MiB, in bytes.
pub const MAX_FILE_SIZE_LIMIT: u64 = 104857600;

/// The options of a run. What the command line gives stands here first; the configuration
/// file and then the profile fill in what it left open.
#[derive(Debug)]
pub struct Args {
    /// The directories to scan.
    pub target_dirs: Vec<String>,
    /// Where the bundle is written; the console where there is none.
    pub output: Option<String>,
    pub profile: Option<String>,
    pub list_profiles: bool,
    pub extensions: Option<Vec<String>>,
    pub allowed_filenames: Option<Vec<String>>,
    /// Largest file to read, in bytes.
    pub max_size: u64,
    /// How often the markdown switch was given; any number above zero turns it on.
    pub markdown: u8,
    pub gpt4_tokens: bool,
    pub include_git_changes: bool,
    pub no_staged_diff: bool,
    pub no_unstaged_diff: bool,
    pub verbose: bool,
    pub config: Option<String>,
    pub include_dirs: Option<Vec<String>>,
    pub exclude_dirs: Option<Vec<String>>,
    pub exclude_node_modules: bool,
    pub exclude_build_dirs: bool,
    pub exclude_hidden_dirs: bool,
    pub max_depth: usize,
    pub exclude_patterns: Option<Vec<String>>,
    pub include_patterns: Option<Vec<String>>,
    pub exclude_globs: Option<Vec<String>>,
    /// The globs of which a file must match one. `None` restricts nothing; a list, even an
    /// empty one, admits only what matches one of its patterns.
    pub include_globs: Option<Vec<String>>,
    pub parallel: bool,
    pub progress: bool,
    pub dry_run: bool,
    pub wp_exclude_plugins: Option<Vec<String>>,
    pub wp_include_only_plugins: Option<Vec<String>>,
    pub wp_include_theme: Option<String>,
}

/// What [`Args`] holds, with every string as its characters.
pub struct ArgsView {
    pub target_dirs: Seq<Seq<char>>,
    pub output: Option<Seq<char>>,
    pub profile: Option<Seq<char>>,
    pub list_profiles: bool,
    pub extensions: Option<Seq<Seq<char>>>,
    pub allowed_filenames: Option<Seq<Seq<char>>>,
    pub max_size: u64,
    pub markdown: u8,
    pub gpt4_tokens: bool,
    pub include_git_changes: bool,
    pub no_staged_diff: bool,
    pub no_unstaged_diff: bool,
    pub verbose: bool,
    pub config: Option<Seq<char>>,
    pub include_dirs: Option<Seq<Seq<char>>>,
    pub exclude_dirs: Option<Seq<Seq<char>>>,
    pub exclude_node_modules: bool,
    pub exclude_build_dirs: bool,
    pub exclude_hidden_dirs: bool,
    pub max_depth: usize,
    pub exclude_patterns: Option<Seq<Seq<char>>>,
    pub include_patterns: Option<Seq<Seq<char>>>,
    pub exclude_globs: Option<Seq<Seq<char>>>,
    pub include_globs: Option<Seq<Seq<char>>>,
    pub parallel: bool,
    pub progress: bool,
    pub dry_run: bool,
    pub wp_exclude_plugins: Option<Seq<Seq<char>>>,
    pub wp_include_only_plugins: Option<Seq<Seq<char>>>,
    pub wp_include_theme: Option<Seq<char>>,
}

impl View for Args {
    type V = ArgsView;

    open spec fn view(&self) -> ArgsView {
        ArgsView {
            target_dirs: self.target_dirs.deep_view(),
            output: opt_text(self.output),
            profile: opt_text(self.profile),
            list_profiles: self.list_profiles,
            extensions: opt_texts(self.extensions),
            allowed_filenames: opt_texts(self.allowed_filenames),
            max_size: self.max_size,
            markdown: self.markdown,
            gpt4_tokens: self.gpt4_tokens,
            include_git_changes: self.include_git_changes,
            no_staged_diff: self.no_staged_diff,
            no_unstaged_diff: self.no_unstaged_diff,
            verbose: self.verbose,
            config: opt_text(self.config),
            include_dirs: opt_texts(self.include_dirs),
            exclude_dirs: opt_texts(self.exclude_dirs),
            exclude_node_modules: self.exclude_node_modules,
            exclude_build_dirs: self.exclude_build_dirs,
            exclude_hidden_dirs: self.exclude_hidden_dirs,
            max_depth: self.max_depth,
            exclude_patterns: opt_texts(self.exclude_patterns),
            include_patterns: opt_texts(self.include_patterns),
            exclude_globs: opt_texts(self.exclude_globs),
            include_globs: opt_texts(self.include_globs),
            parallel: self.parallel,
            progress: self.progress,
            dry_run: self.dry_run,
            wp_exclude_plugins: opt_texts(self.wp_exclude_plugins),
            wp_include_only_plugins: opt_texts(self.wp_include_only_plugins),
            wp_include_theme: opt_text(self.wp_include_theme),
        }
    }
}

/// The size limit of a run that sets none: 2 MiB, in bytes.
pub const DEFAULT_MAX_SIZE: u64 = 2097152;

/// The depth limit of a run that sets none.
pub const DEFAULT_MAX_DEPTH: usize = 100;

impl Default for Args {
    /// The options of a run that was given none: the working directory is scanned, with the
    /// default limits, and nothing else is set.
    fn default() -> (out: Args)
        ensures
            out@ == (ArgsView {
                target_dirs: seq!["."@],
                output: None,
                profile: None,
                list_profiles: false,
                extensions: None,
                allowed_filenames: None,
                max_size: DEFAULT_MAX_SIZE,
                markdown: 0,
                gpt4_tokens: false,
                include_git_changes: false,
                no_staged_diff: false,
                no_unstaged_diff: false,
                verbose: false,
                config: None,
                include_dirs: None,
                exclude_dirs: None,
                exclude_node_modules: false,
                exclude_build_dirs: false,
                exclude_hidden_dirs: false,
                max_depth: DEFAULT_MAX_DEPTH,
                exclude_patterns: None,
                include_patterns: None,
                exclude_globs: None,
                include_globs: None,
                parallel: false,
                progress: false,
                dry_run: false,
                wp_exclude_plugins: None,
                wp_include_only_plugins: None,
                wp_include_theme: None,
            }),
    {
        let mut target_dirs: Vec<String> = Vec::new();
        target_dirs.push(".".to_owned());
        assert(target_dirs.deep_view() =~= seq!["."@]);
        Args {
            target_dirs,
            output: None,
            profile: None,
            list_profiles: false,
            extensions: None,
            allowed_filenames: None,
            max_size: DEFAULT_MAX_SIZE,
            markdown: 0,
            gpt4_tokens: false,
            include_git_changes: false,
            no_staged_diff: false,
            no_unstaged_diff: false,
            verbose: false,
            config: None,
            include_dirs: None,
            exclude_dirs: None,
            exclude_node_modules: false,
            exclude_build_dirs: false,
            exclude_hidden_dirs: false,
            max_depth: DEFAULT_MAX_DEPTH,
            exclude_patterns: None,
            include_patterns: None,
            exclude_globs: None,
            include_globs: None,
            parallel: false,
            progress: false,
            dry_run: false,
            wp_exclude_plugins: None,
            wp_include_only_plugins: None,
            wp_include_theme: None,
        }
    }
}

/// The markdown count after a default is applied: a count above zero stays; a count of zero
/// takes the default where there is one.
pub open spec fn markdown_or(count: u8, default: Option<bool>) -> u8 {
    if count == 0 {
        match default {
            Some(true) => 1u8,
            Some(false) => 0u8,
            None => count,
        }
    } else {
        count
    }
}

/// A switch after a default is applied: a switch that is on stays on; one that is off takes
/// the default where there is one.
pub open spec fn switch_or(flag: bool, default: Option<bool>) -> bool {
    if flag {
        true
    } else {
        match default {
            Some(d) => d,
            None => false,
        }
    }
}

/// A number after a default is applied: zero takes the default where there is one.
pub open spec fn number_or<T>(value: T, zero: T, default: Option<T>) -> T {
    if value == zero {
        match default {
            Some(d) => d,
            None => value,
        }
    } else {
        value
    }
}

/// The options with the configuration file's defaults filled in. The command line wins
/// wherever it gave a value.
pub open spec fn with_config(args: ArgsView, config: Option<ConfigFileView>) -> ArgsView {
    match config {
        None => args,
        Some(c) => ArgsView {
            profile: inherit(args.profile, c.profile),
            extensions: inherit(args.extensions, c.extensions),
            allowed_filenames: inherit(args.allowed_filenames, c.allowed_filenames),
            include_globs: inherit(args.include_globs, c.include_globs),
            exclude_globs: inherit(args.exclude_globs, c.exclude_globs),
            markdown: markdown_or(args.markdown, c.markdown),
            exclude_node_modules: switch_or(args.exclude_node_modules, c.exclude_node_modules),
            exclude_build_dirs: switch_or(args.exclude_build_dirs, c.exclude_build_dirs),
            exclude_hidden_dirs: switch_or(args.exclude_hidden_dirs, c.exclude_hidden_dirs),
            include_git_changes: switch_or(args.include_git_changes, c.include_git_changes),
            ..args
        },
    }
}

/// The include globs after a profile is applied. A profile without globs restricts nothing
/// and leaves the options as they are; a profile with globs adds those that the options do
/// not hold yet.
pub open spec fn globs_with_profile(
    current: Option<Seq<Seq<char>>>,
    profile_globs: Seq<Seq<char>>,
) -> Option<Seq<Seq<char>>> {
    if profile_globs.len() == 0 {
        current
    } else {
        Some(extended(or_empty(current), profile_globs))
    }
}

/// The options with a profile's settings filled in. The options win wherever they hold a
/// value already.
pub open spec fn with_profile(args: ArgsView, p: ProfileView) -> ArgsView {
    ArgsView {
        extensions: inherit(args.extensions, Some(p.allowed_extensions)),
        allowed_filenames: inherit(args.allowed_filenames, Some(p.allowed_filenames)),
        include_globs: globs_with_profile(args.include_globs, p.include_globs),
        markdown: markdown_or(args.markdown, p.markdown),
        max_size: number_or(args.max_size, 0u64, p.max_size),
        gpt4_tokens: switch_or(args.gpt4_tokens, p.gpt4_tokens),
        include_git_changes: switch_or(args.include_git_changes, p.include_git_changes),
        no_staged_diff: switch_or(args.no_staged_diff, p.no_staged_diff),
        no_unstaged_diff: switch_or(args.no_unstaged_diff, p.no_unstaged_diff),
        include_dirs: inherit(args.include_dirs, p.include_dirs),
        exclude_dirs: inherit(args.exclude_dirs, p.exclude_dirs),
        exclude_patterns: inherit(args.exclude_patterns, p.exclude_patterns),
        include_patterns: inherit(args.include_patterns, p.include_patterns),
        exclude_globs: inherit(args.exclude_globs, p.exclude_globs),
        exclude_node_modules: switch_or(args.exclude_node_modules, p.exclude_node_modules),
        exclude_build_dirs: switch_or(args.exclude_build_dirs, p.exclude_build_dirs),
        exclude_hidden_dirs: switch_or(args.exclude_hidden_dirs, p.exclude_hidden_dirs),
        max_depth: number_or(args.max_depth, 0usize, p.max_depth),
        ..args
    }
}

/// Why a configuration is refused before any directory is read.
#[derive(Debug)]
pub enum ConfigError {
    /// An excluded directory lies at or under an included one.
    ExcludeWithinInclude { excluded: String, included: String },
    /// The size limit is above [`MAX_FILE_SIZE_LIMIT`].
    MaxSizeTooLarge,
    /// No extension, no file name and no include glob is allowed: nothing could be selected.
    NothingAllowed,
    /// The options name a profile that no source knows.
    ProfileNotFound { name: String },
}

/// Whether the excluded directory at `j` lies at or under the included directory at `i`.
pub open spec fn conflict_at(
    included: Seq<Seq<char>>,
    excluded: Seq<Seq<char>>,
    separator: char,
    i: int,
    j: int,
) -> bool {
    &&& 0 <= i < included.len()
    &&& 0 <= j < excluded.len()
    &&& path_under(excluded[j], included[i], separator)
}

/// Whether the conflict at `(i, j)` is the first one: no earlier included directory has a
/// conflict, and the included directory at `i` has none with an earlier excluded directory.
pub open spec fn first_conflict_at(
    included: Seq<Seq<char>>,
    excluded: Seq<Seq<char>>,
    separator: char,
    i: int,
    j: int,
) -> bool {
    &&& conflict_at(included, excluded, separator, i, j)
    &&& forall|i2: int, j2: int| #[trigger]
        conflict_at(included, excluded, separator, i2, j2) ==> i < i2 || (i == i2 && j <= j2)
}

/// Whether the options name an excluded directory at or under an included one.
pub open spec fn has_conflict(args: ArgsView, separator: char) -> bool {
    args.include_dirs is Some && args.exclude_dirs is Some && exists|i: int, j: int| #[trigger]
        conflict_at(args.include_dirs->0, args.exclude_dirs->0, separator, i, j)
}

impl ConfigError {
    /// The message for the user.
    pub fn message(&self) -> (out: String)
        ensures
            out@ == match *self {
                ConfigError::ExcludeWithinInclude { excluded, included } =>
                    "Conflict: exclude directory '"@ + excluded@
                        + "' is within include directory '"@ + included@ + "'"@,
                ConfigError::MaxSizeTooLarge => "Max file size cannot exceed 100MB"@,
                ConfigError::NothingAllowed =>
                    "No allowed extensions, filenames, or include globs specified"@,
                ConfigError::ProfileNotFound { name } => "Profile '"@ + name@ + "' not found"@,
            },
    {
        match self {
            ConfigError::ExcludeWithinInclude { excluded, included } => {
                let a = joined("Conflict: exclude directory '", excluded.as_str());
                let b = joined(a.as_str(), "' is within include directory '");
                let c = joined(b.as_str(), included.as_str());
                joined(c.as_str(), "'")
            },
            ConfigError::MaxSizeTooLarge => "Max file size cannot exceed 100MB".to_owned(),
            ConfigError::NothingAllowed => {
                "No allowed extensions, filenames, or include globs specified".to_owned()
            },
            ConfigError::ProfileNotFound { name } => {
                let a = joined("Profile '", name.as_str());
                joined(a.as_str(), "' not found")
            },
        }
    }
}

fn markdown_with(count: u8, default: Option<bool>) -> (r: u8)
    ensures
        r == markdown_or(count, default),
{
    if count == 0 {
        match default {
            Some(true) => 1,
            Some(false) => 0,
            None => count,
        }
    } else {
        count
    }
}

fn switch_with(flag: bool, default: Option<bool>) -> (r: bool)
    ensures
        r == switch_or(flag, default),
{
    if flag {
        true
    } else {
        match default {
            Some(d) => d,
            None => false,
        }
    }
}

fn texts_or(current: Option<Vec<String>>, default: &Option<Vec<String>>) -> (r: Option<
    Vec<String>,
>)
    ensures
        opt_texts(r) == inherit(opt_texts(current), opt_texts(*default)),
{
    match current {
        Some(v) => Some(v),
        None => clone_opt_texts(default),
    }
}

fn number_with(value: u64, default: Option<u64>) -> (r: u64)
    ensures
        r == number_or(value, 0u64, default),
{
    if value == 0 {
        match default {
            Some(d) => d,
            None => value,
        }
    } else {
        value
    }
}

fn depth_with(value: usize, default: Option<usize>) -> (r: usize)
    ensures
        r == number_or(value, 0usize, default),
{
    if value == 0 {
        match default {
            Some(d) => d,
            None => value,
        }
    } else {
        value
    }
}

fn globs_with(current: Option<Vec<String>>, profile_globs: &Vec<String>) -> (r: Option<
    Vec<String>,
>)
    ensures
        opt_texts(r) == globs_with_profile(opt_texts(current), profile_globs.deep_view()),
{
    if profile_globs.len() == 0 {
        current
    } else {
        let mut list: Vec<String> = match current {
            Some(g) => g,
            None => Vec::new(),
        };
        proof {
            if current is None {
                assert(list.deep_view() =~= Seq::<Seq<char>>::empty());
            }
        }
        append_new(&mut list, profile_globs);
        Some(list)
    }
}

/// Fills the configuration file's defaults into the options. The command line wins wherever
/// it gave a value; without a configuration file the options stay as they are.
pub fn merge_config_with_args(args: Args, config: &Option<ConfigFile>) -> (merged: Args)
    ensures
        merged@ == with_config(
            args@,
            match *config {
                Some(c) => Some(c@),
                None => None,
            },
        ),
{
    match config {
        None => args,
        Some(c) => Args {
            profile: match args.profile {
                Some(p) => Some(p),
                None => clone_opt_text(&c.profile),
            },
            extensions: texts_or(args.extensions, &c.extensions),
            allowed_filenames: texts_or(args.allowed_filenames, &c.allowed_filenames),
            include_globs: texts_or(args.include_globs, &c.include_globs),
            exclude_globs: texts_or(args.exclude_globs, &c.exclude_globs),
            markdown: markdown_with(args.markdown, c.markdown),
            exclude_node_modules: switch_with(args.exclude_node_modules, c.exclude_node_modules),
            exclude_build_dirs: switch_with(args.exclude_build_dirs, c.exclude_build_dirs),
            exclude_hidden_dirs: switch_with(args.exclude_hidden_dirs, c.exclude_hidden_dirs),
            include_git_changes: switch_with(args.include_git_changes, c.include_git_changes),
            target_dirs: args.target_dirs,
            output: args.output,
            list_profiles: args.list_profiles,
            max_size: args.max_size,
            gpt4_tokens: args.gpt4_tokens,
            no_staged_diff: args.no_staged_diff,
            no_unstaged_diff: args.no_unstaged_diff,
            verbose: args.verbose,
            config: args.config,
            include_dirs: args.include_dirs,
            exclude_dirs: args.exclude_dirs,
            max_depth: args.max_depth,
            exclude_patterns: args.exclude_patterns,
            include_patterns: args.include_patterns,
            parallel: args.parallel,
            progress: args.progress,
            dry_run: args.dry_run,
            wp_exclude_plugins: args.wp_exclude_plugins,
            wp_include_only_plugins: args.wp_include_only_plugins,
            wp_include_theme: args.wp_include_theme,
        },
    }
}

/// Fills a resolved profile's settings into the options. The options win wherever they hold
/// a value already. A profile without include globs leaves the options' globs untouched, so
/// it restricts nothing; a profile with globs adds them to those of the options.
pub fn apply_profile(args: Args, profile: &Profile) -> (applied: Args)
    ensures
        applied@ == with_profile(args@, profile@),
{
    let some_extensions = Some(clone_texts(&profile.allowed_extensions));
    let some_filenames = Some(clone_texts(&profile.allowed_filenames));
    Args {
        extensions: texts_or(args.extensions, &some_extensions),
        allowed_filenames: texts_or(args.allowed_filenames, &some_filenames),
        include_globs: globs_with(args.include_globs, &profile.include_globs),
        markdown: markdown_with(args.markdown, profile.markdown),
        max_size: number_with(args.max_size, profile.max_size),
        gpt4_tokens: switch_with(args.gpt4_tokens, profile.gpt4_tokens),
        include_git_changes: switch_with(args.include_git_changes, profile.include_git_changes),
        no_staged_diff: switch_with(args.no_staged_diff, profile.no_staged_diff),
        no_unstaged_diff: switch_with(args.no_unstaged_diff, profile.no_unstaged_diff),
        include_dirs: texts_or(args.include_dirs, &profile.include_dirs),
        exclude_dirs: texts_or(args.exclude_dirs, &profile.exclude_dirs),
        exclude_patterns: texts_or(args.exclude_patterns, &profile.exclude_patterns),
        include_patterns: texts_or(args.include_patterns, &profile.include_patterns),
        exclude_globs: texts_or(args.exclude_globs, &profile.exclude_globs),
        exclude_node_modules: switch_with(args.exclude_node_modules, profile.exclude_node_modules),
        exclude_build_dirs: switch_with(args.exclude_build_dirs, profile.exclude_build_dirs),
        exclude_hidden_dirs: switch_with(args.exclude_hidden_dirs, profile.exclude_hidden_dirs),
        max_depth: depth_with(args.max_depth, profile.max_depth),
        target_dirs: args.target_dirs,
        output: args.output,
        profile: args.profile,
        list_profiles: args.list_profiles,
        verbose: args.verbose,
        config: args.config,
        parallel: args.parallel,
        progress: args.progress,
        dry_run: args.dry_run,
        wp_exclude_plugins: args.wp_exclude_plugins,
        wp_include_only_plugins: args.wp_include_only_plugins,
        wp_include_theme: args.wp_include_theme,
    }
}

/// A profile without include globs sets no glob restriction: applied to options that have no
/// include globs, it leaves them without.
pub proof fn law_profile_without_globs(args: ArgsView, p: ProfileView)
    requires
        p.include_globs.len() == 0,
        args.include_globs is None,
    ensures
        with_profile(args, p).include_globs is None,
{
}

/// Checks the options before any directory is read. An excluded directory at or under an
/// included one is refused, with the first such pair; then a size limit above
/// [`MAX_FILE_SIZE_LIMIT`] is refused; anything else passes.
pub fn validate_config(args: &Args, separator: char) -> (r: Result<(), ConfigError>)
    ensures
        match r {
            Ok(_) => !has_conflict(args@, separator) && args.max_size <= MAX_FILE_SIZE_LIMIT,
            Err(ConfigError::ExcludeWithinInclude { excluded, included }) => has_conflict(
                args@,
                separator,
            ) && exists|i: int, j: int|
                {
                    &&& #[trigger] first_conflict_at(
                        args@.include_dirs->0,
                        args@.exclude_dirs->0,
                        separator,
                        i,
                        j,
                    )
                    &&& included@ == args@.include_dirs->0[i]
                    &&& excluded@ == args@.exclude_dirs->0[j]
                },
            Err(ConfigError::MaxSizeTooLarge) => !has_conflict(args@, separator) && args.max_size
                > MAX_FILE_SIZE_LIMIT,
            Err(_) => false,
        },
{
    match (&args.include_dirs, &args.exclude_dirs) {
        (Some(inc), Some(exc)) => {
            let ghost iv = inc.deep_view();
            let ghost ev = exc.deep_view();
            let mut i: usize = 0;
            while i < inc.len()
                invariant
                    i <= inc.len(),
                    iv == inc.deep_view(),
                    ev == exc.deep_view(),
                    args@.include_dirs == Some(iv),
                    args@.exclude_dirs == Some(ev),
                    forall|i2: int, j2: int|
                        0 <= i2 < i ==> !#[trigger] conflict_at(iv, ev, separator, i2, j2),
                decreases inc.len() - i,
            {
                let mut j: usize = 0;
                while j < exc.len()
                    invariant
                        i < inc.len(),
                        j <= exc.len(),
                        iv == inc.deep_view(),
                        ev == exc.deep_view(),
                        args@.include_dirs == Some(iv),
                        args@.exclude_dirs == Some(ev),
                        forall|i2: int, j2: int|
                            0 <= i2 < i ==> !#[trigger] conflict_at(iv, ev, separator, i2, j2),
                        forall|j2: int|
                            0 <= j2 < j ==> !#[trigger] conflict_at(
                                iv,
                                ev,
                                separator,
                                i as int,
                                j2,
                            ),
                    decreases exc.len() - j,
                {
                    if path_starts_with(exc[j].as_str(), inc[i].as_str(), separator) {
                        assert(first_conflict_at(iv, ev, separator, i as int, j as int));
                        assert(conflict_at(iv, ev, separator, i as int, j as int));
                        assert(args@.include_dirs->0 == iv);
                        assert(args@.exclude_dirs->0 == ev);
                        assert(conflict_at(
                            args@.include_dirs->0,
                            args@.exclude_dirs->0,
                            separator,
                            i as int,
                            j as int,
                        ));
                        assert(has_conflict(args@, separator));
                        return Err(
                            ConfigError::ExcludeWithinInclude {
                                excluded: exc[j].clone(),
                                included: inc[i].clone(),
                            },
                        );
                    }
                    j += 1;
                }
                i += 1;
            }
            assert(!has_conflict(args@, separator));
        },
        _ => {},
    }
    if args.max_size > MAX_FILE_SIZE_LIMIT {
        return Err(ConfigError::MaxSizeTooLarge);
    }
    Ok(())
}

} // verus!
