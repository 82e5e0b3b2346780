//! The steps of one run around the walk: which profile applies, what the walk may prune, what
//! the run allows, and how its result is put together.

use vstd::prelude::*;
use vstd::string::StringExecFns;
use crate::aggregate::{
    allow_rules, lemma_selected_is_counted, nothing_allowed, path_allowed, selected,
    selected_count, Aggregator, AllowRules, SourceFileView,
};
use crate::filter::{
    admitted, facts_of, is_binary, scope_stages, stage_exclude_dirs, stage_exclude_globs,
    stage_file, stage_ignore, stage_include_dirs, stage_plugin_excludes,
};
use crate::manager::{opt_warning, resolve_profile, ProfileManager, ResolveWarning};
use crate::options::{apply_profile, with_profile, Args, ArgsView, ConfigError};
use crate::probe::{path_aware, profile_step, Probe, SiteFacts, SiteFactsView, Step};
use crate::profiles::{Profile, ProfileView};
use crate::text::{chars_of, count_words, or_empty, text_eq, trim, trimmed, word_count};

verus! {

/// The profile that a run uses, or the fact about the site that is needed to tell. Options
/// without a profile use none. The profile `wordpress` is fitted to the site; every other
/// name is resolved by the manager.
pub open spec fn profile_of_run(
    customs: Seq<crate::config::CustomEntry>,
    args: ArgsView,
    facts: SiteFactsView,
    separator: char,
) -> Step<Option<ProfileView>> {
    match args.profile {
        None => Step::Ready(None),
        Some(name) => if name == "wordpress"@ {
            path_aware(
                name,
                args.wp_exclude_plugins,
                args.wp_include_only_plugins,
                args.wp_include_theme,
                facts,
                separator,
            )
        } else {
            Step::Ready(resolve_profile(customs, name))
        },
    }
}

/// The warning that goes with the profile of a run: that of the manager's resolution. A
/// profile fitted to a site gives none.
pub open spec fn warning_of_run(
    customs: Seq<crate::config::CustomEntry>,
    args: ArgsView,
) -> Option<crate::manager::ResolveWarningView> {
    match args.profile {
        None => None,
        Some(name) => if name == "wordpress"@ {
            None
        } else {
            crate::manager::resolve_warning(customs, name)
        },
    }
}

/// The profile that a run uses, or the fact about the site that is needed to tell, and the
/// warning of the resolution where it left a parent out. `Ready(None)` with a profile named in
/// the options means that no source knows the name.
pub fn select_profile(
    manager: &ProfileManager,
    args: &Args,
    facts: &SiteFacts,
    separator: char,
) -> (r: (Probe<Option<Profile>>, Option<ResolveWarning>))
    ensures
        profile_step(r.0) == profile_of_run(manager@, args@, facts@, separator),
        opt_warning(r.1) == warning_of_run(manager@, args@),
{
    match &args.profile {
        None => (Probe::Ready(None), None),
        Some(name) => {
            if text_eq(name.as_str(), "wordpress") {
                (manager.resolve_wordpress_path_aware(name.as_str(), args, facts, separator), None)
            } else {
                let (profile, warning) = manager.resolve_with_warning(name.as_str());
                (Probe::Ready(profile), warning)
            }
        },
    }
}

/// The options of a run once its profile, where it has one, is applied.
pub open spec fn effective(args: ArgsView, profile: Option<ProfileView>) -> ArgsView {
    match profile {
        Some(p) => with_profile(args, p),
        None => args,
    }
}

/// What a run works with: its options with the profile applied, and its allow rules.
#[derive(Debug)]
pub struct RunPlan {
    pub args: Args,
    pub rules: AllowRules,
}

/// Whether the options name a profile that was not found.
pub open spec fn profile_missing(args: ArgsView, profile: Option<ProfileView>) -> bool {
    args.profile is Some && profile is None
}

/// Prepares a run: applies the profile to the options and derives the allow rules. A profile
/// that the options name and that was not found is refused, and so are options that, with
/// the profile applied, allow nothing.
pub fn prepare_run(args: Args, profile: &Option<Profile>) -> (r: Result<RunPlan, ConfigError>)
    ensures
        match r {
            Ok(plan) => {
                &&& !profile_missing(args@, crate::profiles::opt_profile(*profile))
                &&& plan.args@ == effective(args@, crate::profiles::opt_profile(*profile))
                &&& plan.rules@ == allow_rules(plan.args@)
                &&& !nothing_allowed(plan.args@)
            },
            Err(ConfigError::ProfileNotFound { name }) => {
                &&& profile_missing(args@, crate::profiles::opt_profile(*profile))
                &&& args@.profile == Some(name@)
            },
            Err(ConfigError::NothingAllowed) => {
                &&& !profile_missing(args@, crate::profiles::opt_profile(*profile))
                &&& nothing_allowed(effective(args@, crate::profiles::opt_profile(*profile)))
            },
            Err(_) => false,
        },
{
    let applied = match profile {
        Some(p) => apply_profile(args, p),
        None => {
            match &args.profile {
                Some(name) => {
                    return Err(ConfigError::ProfileNotFound { name: name.clone() });
                },
                None => {},
            }
            args
        },
    };
    match AllowRules::from_args(&applied) {
        Ok(rules) => Ok(RunPlan { args: applied, rules }),
        Err(e) => Err(e),
    }
}

/// A profile without include globs restricts nothing. Applied to options without include
/// globs it leaves them without; the run is prepared; and a file that no other stage of the
/// pipeline rejects, that the rules allow, that can be read and that is not above the size
/// limit is admitted and counted, so that a walk which visits it counts one file at least.
pub proof fn law_profile_without_globs_selects(
    args: ArgsView,
    p: ProfileView,
    files: Seq<SourceFileView>,
    j: int,
    patterns: Seq<Seq<char>>,
    separator: char,
)
    requires
        p.include_globs.len() == 0,
        args.include_globs is None,
        0 <= j < files.len(),
        ({
            let applied = with_profile(args, p);
            let facts = facts_of(files[j].entry, applied, patterns, separator);
            &&& stage_file(files[j].entry)
            &&& stage_ignore(facts)
            &&& stage_exclude_dirs(files[j].entry, applied, separator)
            &&& stage_include_dirs(files[j].entry, applied, separator)
            &&& stage_exclude_globs(applied, facts)
            &&& stage_plugin_excludes(files[j].entry, applied, facts)
            &&& !is_binary(facts.lower_extension, files[j].head)
            &&& scope_stages(files[j].entry, applied, facts, separator)
            &&& path_allowed(allow_rules(applied), files[j].entry.path, separator)
            &&& files[j].content is Some
            &&& (applied.dry_run || files[j].size <= applied.max_size)
        }),
    ensures
        with_profile(args, p).include_globs is None,
        !nothing_allowed(with_profile(args, p)),
        admitted(files[j].entry, with_profile(args, p), patterns, files[j].head, separator),
        selected(
            files[j],
            allow_rules(with_profile(args, p)),
            with_profile(args, p),
            patterns,
            separator,
        ),
        selected_count(
            files,
            allow_rules(with_profile(args, p)),
            with_profile(args, p),
            patterns,
            separator,
        ) >= 1,
{
    let applied = with_profile(args, p);
    let rules = allow_rules(applied);
    assert(selected(files[j], rules, applied, patterns, separator));
    lemma_selected_is_counted(files, j, rules, applied, patterns, separator);
    // Rules that allow a file allow something.
    if nothing_allowed(applied) {
        assert(or_empty(applied.extensions) =~= Seq::<Seq<char>>::empty());
        assert(crate::profiles::dotted_all(or_empty(applied.extensions)) =~= Seq::<
            Seq<char>,
        >::empty());
        assert(or_empty(applied.allowed_filenames) =~= Seq::<Seq<char>>::empty());
    }
}

/// Whether the walk keeps an entry with this file name; an entry that is not kept is not
/// visited, nor is anything under it. The two administrative directories of WordPress are
/// never kept. With the matching switch on, `node_modules`, the build directories `target`,
/// `build` and `dist`, and names that begin with a dot are not kept either.
pub open spec fn entry_kept(name: Seq<char>, args: ArgsView) -> bool {
    &&& !(args.exclude_node_modules && name == "node_modules"@)
    &&& !(args.exclude_build_dirs && (name == "target"@ || name == "build"@ || name == "dist"@))
    &&& !(args.exclude_hidden_dirs && name.len() > 0 && name[0] == '.')
    &&& name != "wp-admin"@
    &&& name != "wp-includes"@
}

/// Whether the walk keeps an entry with this file name.
pub fn keeps_entry(name: &str, args: &Args) -> (r: bool)
    ensures
        r == entry_kept(name@, args@),
{
    if args.exclude_node_modules && text_eq(name, "node_modules") {
        return false;
    }
    if args.exclude_build_dirs && (text_eq(name, "target") || text_eq(name, "build") || text_eq(
        name,
        "dist",
    )) {
        return false;
    }
    if args.exclude_hidden_dirs {
        let cs = chars_of(name);
        if cs.len() > 0 && cs[0] == '.' {
            return false;
        }
    }
    !text_eq(name, "wp-admin") && !text_eq(name, "wp-includes")
}

/// One part of the section on version-control changes: a title, a fence, the output without
/// surrounding white space, and the closing fence. Output that is missing or blank gives no
/// part at all.
pub open spec fn git_part(opening: Seq<char>, output: Option<Seq<char>>) -> Seq<char> {
    match output {
        Some(s) => if trimmed(s).len() > 0 {
            opening + trimmed(s) + "\n```\n\n"@
        } else {
            Seq::empty()
        },
        None => Seq::empty(),
    }
}

/// The section on version-control changes: a header that names the repository, then the
/// status, the staged changes and the unstaged changes, each where there is something to show.
pub open spec fn git_changes(
    repository: Seq<char>,
    status: Option<Seq<char>>,
    staged: Option<Seq<char>>,
    unstaged: Option<Seq<char>>,
) -> Seq<char> {
    "\n\n# --- Git Changes ---\n"@ + "# Repository: "@ + repository + "\n\n"@ + git_part(
        "## Git Status:\n```bash\n"@,
        status,
    ) + git_part("## Git Diff (Staged):\n```diff\n"@, staged) + git_part(
        "## Git Diff (Unstaged):\n```diff\n"@,
        unstaged,
    )
}

/// Appends one part of the section on changes.
fn push_git_part(out: &mut String, opening: &str, output: &Option<String>)
    ensures
        final(out)@ == old(out)@ + git_part(opening@, crate::text::opt_text(*output)),
{
    let ghost start = out@;
    match output {
        Some(s) => {
            let body = trim(s.as_str());
            if body.as_str().unicode_len() > 0 {
                out.append(opening);
                out.append(body.as_str());
                out.append("\n```\n\n");
                assert(out@ =~= start + (opening@ + trimmed(s@) + "\n```\n\n"@));
            } else {
                assert(out@ =~= start + Seq::<char>::empty());
            }
        },
        None => {
            assert(out@ =~= start + Seq::<char>::empty());
        },
    }
}

/// The section on version-control changes. Each output is what the command printed, or `None`
/// where the command was not asked for or failed.
pub fn get_git_changes(
    repo_path: &str,
    status: &Option<String>,
    staged_diff: &Option<String>,
    unstaged_diff: &Option<String>,
) -> (out: String)
    ensures
        out@ == git_changes(
            repo_path@,
            crate::text::opt_text(*status),
            crate::text::opt_text(*staged_diff),
            crate::text::opt_text(*unstaged_diff),
        ),
{
    let mut out = String::new();
    out.append("\n\n# --- Git Changes ---\n");
    out.append("# Repository: ");
    out.append(repo_path);
    out.append("\n\n");
    assert(out@ =~= "\n\n# --- Git Changes ---\n"@ + "# Repository: "@ + repo_path@ + "\n\n"@);
    push_git_part(&mut out, "## Git Status:\n```bash\n", status);
    push_git_part(&mut out, "## Git Diff (Staged):\n```diff\n", staged_diff);
    push_git_part(&mut out, "## Git Diff (Unstaged):\n```diff\n", unstaged_diff);
    out
}

/// The tokens that the `p50k_base` encoding of the `tiktoken-rs` crate gives for a text,
/// special tokens taken as such: `None` where the encoder cannot be built or gives up on the
/// text.
pub uninterp spec fn tokenizer_tokens(text: Seq<char>) -> Option<Seq<u32>>;

/// Encodes a text into tokens.
///
/// Trusted: `tiktoken_rs::p50k_base` builds its encoder from a table that the crate holds,
/// `CoreBPE::special_tokens` names the special tokens of that table, and `CoreBPE::encode`
/// splits the text it is given by them; each fails with an error that is mapped to `None`
/// here. The tokens depend on the text alone, and the contract gives them their name.
#[verifier::external_body]
pub(crate) fn encode_with_tokenizer(text: &str) -> (tokens: Option<Vec<u32>>)
    ensures
        match tokens {
            Some(list) => tokenizer_tokens(text@) == Some(list@),
            None => tokenizer_tokens(text@) is None,
        },
{
    let encoder = match tiktoken_rs::p50k_base() {
        Ok(encoder) => encoder,
        Err(_) => return None,
    };
    match encoder.encode(text, &encoder.special_tokens()) {
        Ok((tokens, _)) => Some(tokens),
        Err(_) => None,
    }
}

/// The number of tokens that the tokenizer gives for a text.
pub open spec fn tokenizer_count(text: Seq<char>) -> Option<nat> {
    match tokenizer_tokens(text) {
        Some(tokens) => Some(tokens.len()),
        None => None,
    }
}

/// What a run produced.
#[derive(Debug)]
pub struct ProcessingResult {
    pub content: String,
    pub file_count: usize,
    pub token_count: usize,
}

/// The content that a run hands on: nothing in a dry run, else the bundle followed by the
/// section on changes.
pub open spec fn final_content(bundle: Seq<char>, changes: Seq<char>, dry_run: bool) -> Seq<char> {
    if dry_run {
        Seq::empty()
    } else {
        bundle + changes
    }
}

/// The token count of a content: that of the tokenizer where one is asked for, else the
/// number of words. `None` where the tokenizer is asked for and fails.
pub open spec fn token_count(content: Seq<char>, with_tokenizer: bool) -> Option<nat> {
    if with_tokenizer {
        tokenizer_count(content)
    } else {
        Some(word_count(content))
    }
}

/// The content that a run hands on: nothing in a dry run, else the bundle followed by the
/// section on changes.
pub fn assemble_content(aggregator: &Aggregator, changes: &str, dry_run: bool) -> (content: String)
    ensures
        content@ == final_content(aggregator@.content, changes@, dry_run),
{
    if dry_run {
        String::new()
    } else {
        crate::text::joined(aggregator.content().as_str(), changes)
    }
}

/// The token count of a content: that of the tokenizer where one is asked for, else the
/// number of words.
pub fn count_tokens(content: &str, with_tokenizer: bool) -> (n: Option<usize>)
    ensures
        match n {
            Some(k) => token_count(content@, with_tokenizer) == Some(k as nat),
            None => token_count(content@, with_tokenizer) is None,
        },
{
    if with_tokenizer {
        match encode_with_tokenizer(content) {
            Some(tokens) => Some(tokens.len()),
            None => None,
        }
    } else {
        Some(count_words(content))
    }
}

impl ProcessingResult {
    /// The result of a run. The token count is the one that a tokenizer gave for the content,
    /// where one was used, else the number of words in the content.
    pub fn new(content: String, file_count: usize, tokenizer_count: Option<usize>) -> (result:
        ProcessingResult)
        ensures
            result.content@ == content@,
            result.file_count == file_count,
            result.token_count == match tokenizer_count {
                Some(n) => n as nat,
                None => word_count(content@),
            },
    {
        let token_count = match tokenizer_count {
            Some(n) => n,
            None => count_words(content.as_str()),
        };
        ProcessingResult { content, file_count, token_count }
    }

    /// Puts the result of a run together from what the aggregator collected and the section
    /// on changes, with the token count that the options ask for. `None` where the options
    /// ask for the tokenizer and it fails.
    pub fn assemble(aggregator: &Aggregator, changes: &str, args: &Args) -> (result: Option<
        ProcessingResult,
    >)
        ensures
            match result {
                Some(r) => {
                    &&& r.content@ == final_content(aggregator@.content, changes@, args.dry_run)
                    &&& r.file_count == aggregator@.file_count
                    &&& token_count(r.content@, args.gpt4_tokens) == Some(r.token_count as nat)
                },
                None => token_count(
                    final_content(aggregator@.content, changes@, args.dry_run),
                    args.gpt4_tokens,
                ) is None,
            },
    {
        let content = assemble_content(aggregator, changes, args.dry_run);
        match count_tokens(content.as_str(), args.gpt4_tokens) {
            Some(n) => Some(ProcessingResult::new(content, aggregator.file_count(), Some(n))),
            None => None,
        }
    }
}

} // verus!
