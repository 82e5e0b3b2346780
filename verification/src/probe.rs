//! The path-aware WordPress profile: it names the files of the theme and the plugins that a
//! site actually holds.
//!
//! The probe reads nothing itself. It works from the facts about the site that its caller has
//! gathered so far, and where a fact is missing it says which one it needs next. The caller
//! finds that fact out, records it and asks again.

use vstd::prelude::*;
use crate::inventory::{
    first_of_inventory, inventory_first, inventory_names, names_of_inventory, opt_bytes,
};
use crate::paths::{file_name, file_name_of};
use crate::profiles::{new_profile, Profile, ProfileView};
use crate::text::{
    before_first, chars_of, clone_texts, joined, lowercase, owned_texts, replace_char, replaced,
    segment_before, text_eq, to_lowercase,
};
use crate::wordpress_profile::{
    wordpress_extension_list, wordpress_extensions, WordPressProfilePlugin,
};

verus! {

/// A fact about the site that the probe needs before it can go on.
#[derive(Debug)]
pub enum ProbeRequest {
    /// The output of `wp theme list --format=json --status=active`, run in the site's root.
    ActiveThemes,
    /// The output of `wp plugin list --format=json --status=active`, run in the site's root.
    ActivePlugins,
    /// The output of the same plugin listing, run in the working directory.
    ActivePluginsHere,
    /// The entries of `wp-content/plugins` in the working directory.
    PluginDirectory,
    /// Which of these files, given relative to the site's root, exist.
    FilesPresent(Vec<String>),
}

/// A [`ProbeRequest`], with every string as its characters.
pub enum ProbeRequestView {
    ActiveThemes,
    ActivePlugins,
    ActivePluginsHere,
    PluginDirectory,
    FilesPresent(Seq<Seq<char>>),
}

impl View for ProbeRequest {
    type V = ProbeRequestView;

    open spec fn view(&self) -> ProbeRequestView {
        match *self {
            ProbeRequest::ActiveThemes => ProbeRequestView::ActiveThemes,
            ProbeRequest::ActivePlugins => ProbeRequestView::ActivePlugins,
            ProbeRequest::ActivePluginsHere => ProbeRequestView::ActivePluginsHere,
            ProbeRequest::PluginDirectory => ProbeRequestView::PluginDirectory,
            ProbeRequest::FilesPresent(files) => ProbeRequestView::FilesPresent(files.deep_view()),
        }
    }
}

/// What the probe answers: the fact that it needs next, or its result.
#[derive(Debug)]
pub enum Probe<T> {
    Need(ProbeRequest),
    Ready(T),
}

/// What the probe answers, in contracts.
pub enum Step<T> {
    Need(ProbeRequestView),
    Ready(T),
}

/// What a command printed, and whether it ended well.
#[derive(Debug)]
pub struct CommandOutput {
    pub success: bool,
    pub stdout: Vec<u8>,
}

/// An entry of a directory: its name, and whether it is a directory itself.
#[derive(Debug)]
pub struct DirEntryInfo {
    pub name: String,
    pub is_dir: bool,
}

/// The answer to a [`ProbeRequest`].
#[derive(Debug)]
pub enum ProbeAnswer {
    /// What the command printed. A command that could not be run has not ended well.
    Command(CommandOutput),
    /// The entries of the directory; none where it does not exist.
    Entries(Vec<DirEntryInfo>),
    /// For each file asked about, in order, whether it exists.
    Present(Vec<bool>),
}

/// The facts about a site that have been gathered so far. `None` is a fact not asked for yet.
#[derive(Debug)]
pub struct SiteFacts {
    pub active_themes: Option<CommandOutput>,
    pub active_plugins: Option<CommandOutput>,
    pub active_plugins_here: Option<CommandOutput>,
    pub plugin_directory: Option<Vec<DirEntryInfo>>,
    pub files_present: Option<Vec<bool>>,
}

/// The facts, in contracts. Of a command only its usable output counts: the inner `None` is a
/// command that failed.
pub struct SiteFactsView {
    pub active_themes: Option<Option<Seq<u8>>>,
    pub active_plugins: Option<Option<Seq<u8>>>,
    pub active_plugins_here: Option<Option<Seq<u8>>>,
    pub plugin_directory: Option<Seq<(Seq<char>, bool)>>,
    pub files_present: Option<Seq<bool>>,
}

/// The usable output of a command, once it has been run.
pub open spec fn usable(answer: Option<CommandOutput>) -> Option<Option<Seq<u8>>> {
    match answer {
        Some(output) => Some(
            if output.success {
                Some(output.stdout@)
            } else {
                None
            },
        ),
        None => None,
    }
}

/// The entries of a directory listing, as pairs of a name and whether it is a directory.
pub open spec fn listing(entries: Seq<DirEntryInfo>) -> Seq<(Seq<char>, bool)> {
    Seq::new(entries.len(), |i: int| (entries[i].name@, entries[i].is_dir))
}

impl View for SiteFacts {
    type V = SiteFactsView;

    open spec fn view(&self) -> SiteFactsView {
        SiteFactsView {
            active_themes: usable(self.active_themes),
            active_plugins: usable(self.active_plugins),
            active_plugins_here: usable(self.active_plugins_here),
            plugin_directory: match self.plugin_directory {
                Some(entries) => Some(listing(entries@)),
                None => None,
            },
            files_present: match self.files_present {
                Some(present) => Some(present@),
                None => None,
            },
        }
    }
}

/// The view of a probe for a list of texts.
pub open spec fn texts_step(p: Probe<Vec<String>>) -> Step<Seq<Seq<char>>> {
    match p {
        Probe::Need(r) => Step::Need(r@),
        Probe::Ready(v) => Step::Ready(v.deep_view()),
    }
}

/// The view of a probe for a profile.
pub open spec fn profile_step(p: Probe<Option<Profile>>) -> Step<Option<ProfileView>> {
    match p {
        Probe::Need(r) => Step::Need(r@),
        Probe::Ready(Some(profile)) => Step::Ready(Some(profile@)),
        Probe::Ready(None) => Step::Ready(None),
    }
}

/// The names of the directories among `entries` that are not hidden: a hidden name begins
/// with a dot.
pub open spec fn visible_dirs(entries: Seq<(Seq<char>, bool)>) -> Seq<Seq<char>>
    decreases entries.len(),
{
    if entries.len() == 0 {
        Seq::empty()
    } else {
        let init = visible_dirs(entries.drop_last());
        let (name, is_dir) = entries.last();
        if is_dir && !(name.len() > 0 && name[0] == '.') {
            init.push(name)
        } else {
            init
        }
    }
}

/// Each name as a path under `wp-content/plugins`.
pub open spec fn under_plugins(names: Seq<Seq<char>>) -> Seq<Seq<char>> {
    Seq::new(names.len(), |i: int| "wp-content/plugins/"@ + names[i])
}

/// The last component of each path.
pub open spec fn last_names(paths: Seq<Seq<char>>, separator: char) -> Seq<Seq<char>> {
    Seq::new(paths.len(), |i: int| file_name_of(paths[i], separator))
}

/// The part of each plugin name before its first `/`: the plugin's directory.
pub open spec fn slugs(plugins: Seq<Seq<char>>) -> Seq<Seq<char>> {
    Seq::new(plugins.len(), |i: int| before_first(plugins[i], '/'))
}

/// Whether `name` is excluded: it equals one of `excluded`, case left aside.
pub open spec fn is_excluded(name: Seq<char>, excluded: Seq<Seq<char>>) -> bool {
    exists|i: int| 0 <= i < excluded.len() && lowercase(#[trigger] excluded[i]) == lowercase(name)
}

/// The names that are not excluded, in order.
pub open spec fn without_excluded(names: Seq<Seq<char>>, excluded: Seq<Seq<char>>) -> Seq<
    Seq<char>,
>
    decreases names.len(),
{
    if names.len() == 0 {
        Seq::empty()
    } else {
        let init = without_excluded(names.drop_last(), excluded);
        if is_excluded(names.last(), excluded) {
            init
        } else {
            init.push(names.last())
        }
    }
}

/// The names that an optional exclusion list leaves.
pub open spec fn kept_names(names: Seq<Seq<char>>, excluded: Option<Seq<Seq<char>>>) -> Seq<
    Seq<char>,
> {
    match excluded {
        Some(e) => without_excluded(names, e),
        None => names,
    }
}

/// The plugins that the plugin directory holds, each as a path under `wp-content/plugins`.
pub open spec fn available_plugins(facts: SiteFactsView) -> Step<Seq<Seq<char>>> {
    match facts.plugin_directory {
        None => Step::Need(ProbeRequestView::PluginDirectory),
        Some(entries) => Step::Ready(under_plugins(visible_dirs(entries))),
    }
}

/// The active plugins, each as a path under `wp-content/plugins`: those that the inventory
/// run in the working directory lists or, where that inventory cannot be had, those that the
/// plugin directory holds.
pub open spec fn active_plugins(facts: SiteFactsView) -> Step<Seq<Seq<char>>> {
    match facts.active_plugins_here {
        None => Step::Need(ProbeRequestView::ActivePluginsHere),
        Some(output) => match inventory_names(output) {
            Some(names) => Step::Ready(under_plugins(names)),
            None => available_plugins(facts),
        },
    }
}

/// The plugins that the site's own inventory lists or, where it lists none, those that the
/// plugin directory holds.
pub open spec fn detected_plugins(facts: SiteFactsView, separator: char) -> Step<Seq<Seq<char>>> {
    match facts.active_plugins {
        None => Step::Need(ProbeRequestView::ActivePlugins),
        Some(output) => {
            let names = match inventory_names(output) {
                Some(n) => n,
                None => Seq::empty(),
            };
            if names.len() > 0 {
                Step::Ready(names)
            } else {
                match available_plugins(facts) {
                    Step::Need(r) => Step::Need(r),
                    Step::Ready(paths) => Step::Ready(last_names(paths, separator)),
                }
            }
        },
    }
}

/// The two files of a theme that are selected by name.
pub open spec fn theme_files(theme: Seq<char>) -> Seq<Seq<char>> {
    seq![
        "wp-content/themes/"@ + theme + "/functions.php"@,
        "wp-content/themes/"@ + theme + "/style.css"@,
    ]
}

/// The files of an optional theme.
pub open spec fn opt_theme_files(theme: Option<Seq<char>>) -> Seq<Seq<char>> {
    match theme {
        Some(t) => theme_files(t),
        None => Seq::empty(),
    }
}

/// The main file of a plugin: the file in its directory that has its name.
pub open spec fn plugin_file(plugin: Seq<char>) -> Seq<char> {
    "wp-content/plugins/"@ + plugin + "/"@ + plugin + ".php"@
}

/// The main file of each plugin.
pub open spec fn plugin_files(plugins: Seq<Seq<char>>) -> Seq<Seq<char>> {
    Seq::new(plugins.len(), |i: int| plugin_file(plugins[i]))
}

/// The candidates that exist, each with `/` in place of `\`. A candidate without an answer
/// counts as missing.
pub open spec fn chosen(candidates: Seq<Seq<char>>, present: Seq<bool>) -> Seq<Seq<char>>
    decreases candidates.len(),
{
    if candidates.len() == 0 {
        Seq::empty()
    } else {
        let init = chosen(candidates.drop_last(), present);
        let i = candidates.len() - 1;
        if i < present.len() && present[i] {
            init.push(replaced(candidates.last(), '\\', '/'))
        } else {
            init
        }
    }
}

/// The extensions that the detected profile allows whatever the file: styles, scripts and
/// documents, but not PHP, which is selected by file name only.
pub open spec fn detected_extensions() -> Seq<Seq<char>> {
    seq![".js"@, ".css"@, ".scss"@, ".sass"@, ".less"@, ".json"@, ".txt"@, ".md"@]
}

/// The profile of an explicit selection.
pub open spec fn explicit_profile(files: Seq<Seq<char>>) -> ProfileView {
    new_profile(
        "WordPress site with specific theme/plugins."@,
        wordpress_extensions(),
        seq!["wp-config.php"@] + files,
    )
}

/// The profile of what was detected on the site.
pub open spec fn detected_profile(files: Seq<Seq<char>>) -> ProfileView {
    new_profile(
        "WordPress site with active theme and plugins (path-aware)."@,
        detected_extensions(),
        seq!["wp-config.php"@] + files,
    )
}

/// The files to ask about: those of the theme, then the main file of each plugin.
pub open spec fn candidates(theme: Option<Seq<char>>, plugins: Seq<Seq<char>>) -> Seq<Seq<char>> {
    opt_theme_files(theme) + plugin_files(plugins)
}

/// The path-aware profile, or the fact that is needed next.
///
/// Only the name `wordpress` has such a profile. Where plugins or a theme were selected
/// explicitly, nothing is detected and no inventory is asked for: the profile names the files
/// of exactly the theme and the plugins that were selected, and the exclusion list, which
/// serves detection, plays no part. Else
/// the active theme and the active plugins are taken from the site's inventories, the plugins
/// from the plugin directory where the inventory lists none, and plugins that are excluded
/// are left out. Either way only files that exist are named, after `wp-config.php`.
pub open spec fn path_aware(
    name: Seq<char>,
    excluded: Option<Seq<Seq<char>>>,
    only: Option<Seq<Seq<char>>>,
    theme: Option<Seq<char>>,
    facts: SiteFactsView,
    separator: char,
) -> Step<Option<ProfileView>> {
    if name != "wordpress"@ {
        Step::Ready(None)
    } else if only is Some || theme is Some {
        let files = candidates(theme, crate::text::or_empty(only));
        match facts.files_present {
            None => Step::Need(ProbeRequestView::FilesPresent(files)),
            Some(present) => Step::Ready(Some(explicit_profile(chosen(files, present)))),
        }
    } else {
        match facts.active_themes {
            None => Step::Need(ProbeRequestView::ActiveThemes),
            Some(themes) => match detected_plugins(facts, separator) {
                Step::Need(r) => Step::Need(r),
                Step::Ready(plugins) => {
                    let files = candidates(
                        inventory_first(themes),
                        kept_names(slugs(plugins), excluded),
                    );
                    match facts.files_present {
                        None => Step::Need(ProbeRequestView::FilesPresent(files)),
                        Some(present) => Step::Ready(
                            Some(detected_profile(chosen(files, present))),
                        ),
                    }
                },
            },
        }
    }
}

/// Whether the fact that a request asks for is known.
pub open spec fn known(facts: SiteFactsView, request: ProbeRequestView) -> bool {
    match request {
        ProbeRequestView::ActiveThemes => facts.active_themes is Some,
        ProbeRequestView::ActivePlugins => facts.active_plugins is Some,
        ProbeRequestView::ActivePluginsHere => facts.active_plugins_here is Some,
        ProbeRequestView::PluginDirectory => facts.plugin_directory is Some,
        ProbeRequestView::FilesPresent(_) => facts.files_present is Some,
    }
}

/// The probe asks only for what it does not know: a fact that has been recorded is never
/// asked for again, so that a caller who records every answer is asked five times at most.
pub proof fn law_probe_asks_what_is_missing(
    name: Seq<char>,
    excluded: Option<Seq<Seq<char>>>,
    only: Option<Seq<Seq<char>>>,
    theme: Option<Seq<char>>,
    facts: SiteFactsView,
    separator: char,
)
    ensures
        match path_aware(name, excluded, only, theme, facts, separator) {
            Step::Need(request) => !known(facts, request),
            Step::Ready(_) => true,
        },
{
}

/// An explicit selection skips all probing: with plugins or a theme selected, the only fact
/// that the probe asks for, and the only one that its answer depends on, is which of the
/// files of the selected theme and plugins exist. The profile names `wp-config.php` and those
/// of these files that exist, and nothing else.
pub proof fn law_explicit_selection_skips_probing(
    excluded: Option<Seq<Seq<char>>>,
    only: Option<Seq<Seq<char>>>,
    theme: Option<Seq<char>>,
    facts: SiteFactsView,
    separator: char,
)
    requires
        only is Some || theme is Some,
    ensures
        path_aware("wordpress"@, excluded, only, theme, facts, separator) == match facts
            .files_present {
            None => Step::Need(
                ProbeRequestView::FilesPresent(candidates(theme, crate::text::or_empty(only))),
            ),
            Some(present) => Step::Ready(
                Some(
                    explicit_profile(
                        chosen(candidates(theme, crate::text::or_empty(only)), present),
                    ),
                ),
            ),
        },
        only is None ==> candidates(theme, crate::text::or_empty(only)) == theme_files(theme->0),
{
    if only is None {
        assert(plugin_files(Seq::<Seq<char>>::empty()) =~= Seq::<Seq<char>>::empty());
        assert(theme_files(theme->0) + Seq::<Seq<char>>::empty() =~= theme_files(theme->0));
    }
}

/// The probe never fails: for the name `wordpress` it asks for a fact or gives a profile,
/// whatever the site answered, and be it a profile that names `wp-config.php` alone.
pub proof fn law_probe_always_answers(
    excluded: Option<Seq<Seq<char>>>,
    only: Option<Seq<Seq<char>>>,
    theme: Option<Seq<char>>,
    facts: SiteFactsView,
    separator: char,
)
    ensures
        match path_aware("wordpress"@, excluded, only, theme, facts, separator) {
            Step::Need(_) => true,
            Step::Ready(profile) => profile is Some && profile->0.allowed_filenames.len() > 0
                && profile->0.allowed_filenames[0] == "wp-config.php"@,
        },
{
    match path_aware("wordpress"@, excluded, only, theme, facts, separator) {
        Step::Need(_) => {},
        Step::Ready(profile) => {
            assert(profile is Some);
            let files = profile->0.allowed_filenames;
            assert(exists|rest: Seq<Seq<char>>|
                files == crate::text::dedup(seq!["wp-config.php"@] + rest));
            let rest = choose|rest: Seq<Seq<char>>|
                files == crate::text::dedup(seq!["wp-config.php"@] + rest);
            crate::text::lemma_dedup_keeps_first(seq!["wp-config.php"@] + rest);
        },
    }
}

/// The usable output of a command.
fn output_of(answer: &CommandOutput) -> (r: Option<Vec<u8>>)
    ensures
        Some(opt_bytes(r)) == usable(Some(*answer)),
{
    if answer.success {
        let mut copy: Vec<u8> = Vec::new();
        let mut i: usize = 0;
        while i < answer.stdout.len()
            invariant
                i <= answer.stdout.len(),
                copy@ == answer.stdout@.take(i as int),
            decreases answer.stdout.len() - i,
        {
            copy.push(answer.stdout[i]);
            i += 1;
            assert(answer.stdout@.take(i as int) =~= answer.stdout@.take(i as int - 1).push(
                answer.stdout@[i as int - 1],
            ));
        }
        assert(answer.stdout@.take(answer.stdout.len() as int) =~= answer.stdout@);
        Some(copy)
    } else {
        None
    }
}

/// Each name as a path under `wp-content/plugins`.
pub fn paths_under_plugins(names: &Vec<String>) -> (out: Vec<String>)
    ensures
        out.deep_view() == under_plugins(names.deep_view()),
{
    let mut out: Vec<String> = Vec::new();
    let mut i: usize = 0;
    while i < names.len()
        invariant
            i <= names.len(),
            out.deep_view() == under_plugins(names.deep_view()).take(i as int),
        decreases names.len() - i,
    {
        let ghost before = out.deep_view();
        let path = joined("wp-content/plugins/", names[i].as_str());
        out.push(path);
        assert(out.deep_view() =~= before.push(path@));
        i += 1;
        assert(under_plugins(names.deep_view()).take(i as int) =~= before.push(path@));
    }
    assert(under_plugins(names.deep_view()).take(names.len() as int) =~= under_plugins(
        names.deep_view(),
    ));
    out
}

/// The last component of each path.
pub fn names_of_paths(paths: &Vec<String>, separator: char) -> (out: Vec<String>)
    ensures
        out.deep_view() == last_names(paths.deep_view(), separator),
{
    let mut out: Vec<String> = Vec::new();
    let mut i: usize = 0;
    while i < paths.len()
        invariant
            i <= paths.len(),
            out.deep_view() == last_names(paths.deep_view(), separator).take(i as int),
        decreases paths.len() - i,
    {
        let ghost before = out.deep_view();
        let name = file_name(paths[i].as_str(), separator);
        out.push(name);
        assert(out.deep_view() =~= before.push(name@));
        i += 1;
        assert(last_names(paths.deep_view(), separator).take(i as int) =~= before.push(name@));
    }
    assert(last_names(paths.deep_view(), separator).take(paths.len() as int) =~= last_names(
        paths.deep_view(),
        separator,
    ));
    out
}

/// The directory of each plugin.
pub fn slugs_of(plugins: &Vec<String>) -> (out: Vec<String>)
    ensures
        out.deep_view() == slugs(plugins.deep_view()),
{
    let mut out: Vec<String> = Vec::new();
    let mut i: usize = 0;
    while i < plugins.len()
        invariant
            i <= plugins.len(),
            out.deep_view() == slugs(plugins.deep_view()).take(i as int),
        decreases plugins.len() - i,
    {
        let ghost before = out.deep_view();
        let slug = segment_before(plugins[i].as_str(), '/');
        out.push(slug);
        assert(out.deep_view() =~= before.push(slug@));
        i += 1;
        assert(slugs(plugins.deep_view()).take(i as int) =~= before.push(slug@));
    }
    assert(slugs(plugins.deep_view()).take(plugins.len() as int) =~= slugs(plugins.deep_view()));
    out
}

/// Whether `name` is excluded: it equals one of `excluded`, case left aside.
pub fn excluded_name(name: &str, excluded: &Vec<String>) -> (r: bool)
    ensures
        r == is_excluded(name@, excluded.deep_view()),
{
    let lower = to_lowercase(name);
    let mut i: usize = 0;
    while i < excluded.len()
        invariant
            i <= excluded.len(),
            lower@ == lowercase(name@),
            forall|j: int|
                0 <= j < i ==> lowercase(#[trigger] excluded.deep_view()[j]) != lowercase(name@),
        decreases excluded.len() - i,
    {
        let other = to_lowercase(excluded[i].as_str());
        if text_eq(other.as_str(), lower.as_str()) {
            assert(lowercase(excluded.deep_view()[i as int]) == lowercase(name@));
            return true;
        }
        i += 1;
    }
    false
}

/// The names that an optional exclusion list leaves.
pub fn keep_names(names: Vec<String>, excluded: &Option<Vec<String>>) -> (out: Vec<String>)
    ensures
        out.deep_view() == kept_names(names.deep_view(), crate::text::opt_texts(*excluded)),
{
    match excluded {
        None => names,
        Some(list) => {
            let mut out: Vec<String> = Vec::new();
            let mut i: usize = 0;
            assert(names.deep_view().take(0) =~= Seq::<Seq<char>>::empty());
            assert(out.deep_view() =~= Seq::<Seq<char>>::empty());
            while i < names.len()
                invariant
                    i <= names.len(),
                    out.deep_view() == without_excluded(
                        names.deep_view().take(i as int),
                        list.deep_view(),
                    ),
                decreases names.len() - i,
            {
                let ghost before = out.deep_view();
                let ghost next = names.deep_view().take(i as int + 1);
                assert(next.drop_last() =~= names.deep_view().take(i as int));
                assert(next.last() == names[i as int]@);
                if !excluded_name(names[i].as_str(), list) {
                    out.push(names[i].clone());
                    assert(out.deep_view() =~= before.push(names[i as int]@));
                }
                i += 1;
            }
            assert(names.deep_view().take(names.len() as int) =~= names.deep_view());
            out
        },
    }
}

/// The files to ask about: those of the theme, then the main file of each plugin.
pub fn candidate_files(theme: &Option<String>, plugins: &Vec<String>) -> (out: Vec<String>)
    ensures
        out.deep_view() == candidates(crate::text::opt_text(*theme), plugins.deep_view()),
{
    let mut out: Vec<String> = Vec::new();
    match theme {
        Some(t) => {
            let dir = joined("wp-content/themes/", t.as_str());
            let functions = joined(dir.as_str(), "/functions.php");
            let style = joined(dir.as_str(), "/style.css");
            out.push(functions);
            out.push(style);
            assert(out.deep_view() =~= theme_files(t@));
        },
        None => {
            assert(out.deep_view() =~= Seq::<Seq<char>>::empty());
        },
    }
    let ghost first = out.deep_view();
    let mut i: usize = 0;
    assert(first + plugin_files(plugins.deep_view()).take(0) =~= first);
    while i < plugins.len()
        invariant
            i <= plugins.len(),
            out.deep_view() == first + plugin_files(plugins.deep_view()).take(i as int),
        decreases plugins.len() - i,
    {
        let ghost before = out.deep_view();
        let p = plugins[i].as_str();
        let a = joined("wp-content/plugins/", p);
        let b = joined(a.as_str(), "/");
        let c = joined(b.as_str(), p);
        let file = joined(c.as_str(), ".php");
        assert(file@ == plugin_file(plugins.deep_view()[i as int]));
        out.push(file);
        assert(out.deep_view() =~= before.push(file@));
        i += 1;
        assert(first + plugin_files(plugins.deep_view()).take(i as int) =~= before.push(file@));
    }
    assert(plugin_files(plugins.deep_view()).take(plugins.len() as int) =~= plugin_files(
        plugins.deep_view(),
    ));
    out
}

/// The file names of a path-aware profile: `wp-config.php`, then the candidates that exist,
/// each with `/` in place of `\`.
pub fn choose_present(files: &Vec<String>, present: &Vec<bool>) -> (out: Vec<String>)
    ensures
        out.deep_view() == seq!["wp-config.php"@] + chosen(files.deep_view(), present@),
{
    let mut out: Vec<String> = Vec::new();
    out.push("wp-config.php".to_owned());
    let ghost first = out.deep_view();
    assert(first =~= seq!["wp-config.php"@]);
    let mut i: usize = 0;
    assert(files.deep_view().take(0) =~= Seq::<Seq<char>>::empty());
    assert(first + chosen(files.deep_view().take(0), present@) =~= first);
    while i < files.len()
        invariant
            i <= files.len(),
            first == seq!["wp-config.php"@],
            out.deep_view() == first + chosen(files.deep_view().take(i as int), present@),
        decreases files.len() - i,
    {
        let ghost before = out.deep_view();
        let ghost done = chosen(files.deep_view().take(i as int), present@);
        let ghost next = files.deep_view().take(i as int + 1);
        assert(next.drop_last() =~= files.deep_view().take(i as int));
        assert(next.last() == files[i as int]@);
        if i < present.len() && present[i] {
            let file = replace_char(files[i].as_str(), '\\', '/');
            out.push(file);
            assert(out.deep_view() =~= before.push(file@));
            assert(first + done.push(file@) =~= before.push(file@));
        }
        i += 1;
    }
    assert(files.deep_view().take(files.len() as int) =~= files.deep_view());
    out
}

impl SiteFacts {
    /// No fact is known yet.
    pub fn new() -> (facts: SiteFacts)
        ensures
            facts@.active_themes is None,
            facts@.active_plugins is None,
            facts@.active_plugins_here is None,
            facts@.plugin_directory is None,
            facts@.files_present is None,
    {
        SiteFacts {
            active_themes: None,
            active_plugins: None,
            active_plugins_here: None,
            plugin_directory: None,
            files_present: None,
        }
    }

    /// Records the answer to a request. An answer of another kind than the request asks for
    /// is recorded as a failed command, an empty directory or no file present, so that the
    /// fact asked for is known afterwards in any case; every other fact stays as it was.
    pub fn record(&mut self, request: &ProbeRequest, answer: ProbeAnswer)
        ensures
            match *request {
                ProbeRequest::ActiveThemes => *final(self) == (SiteFacts {
                    active_themes: final(self).active_themes,
                    ..*old(self)
                }) && final(self)@.active_themes == Some(command_answer(answer)),
                ProbeRequest::ActivePlugins => *final(self) == (SiteFacts {
                    active_plugins: final(self).active_plugins,
                    ..*old(self)
                }) && final(self)@.active_plugins == Some(command_answer(answer)),
                ProbeRequest::ActivePluginsHere => *final(self) == (SiteFacts {
                    active_plugins_here: final(self).active_plugins_here,
                    ..*old(self)
                }) && final(self)@.active_plugins_here == Some(command_answer(answer)),
                ProbeRequest::PluginDirectory => *final(self) == (SiteFacts {
                    plugin_directory: final(self).plugin_directory,
                    ..*old(self)
                }) && final(self)@.plugin_directory == Some(
                    match answer {
                        ProbeAnswer::Entries(entries) => listing(entries@),
                        _ => Seq::empty(),
                    },
                ),
                ProbeRequest::FilesPresent(_) => *final(self) == (SiteFacts {
                    files_present: final(self).files_present,
                    ..*old(self)
                }) && final(self)@.files_present == Some(
                    match answer {
                        ProbeAnswer::Present(present) => present@,
                        _ => Seq::empty(),
                    },
                ),
            },
    {
        match request {
            ProbeRequest::ActiveThemes => {
                self.active_themes = Some(command_of(answer));
            },
            ProbeRequest::ActivePlugins => {
                self.active_plugins = Some(command_of(answer));
            },
            ProbeRequest::ActivePluginsHere => {
                self.active_plugins_here = Some(command_of(answer));
            },
            ProbeRequest::PluginDirectory => {
                let entries = match answer {
                    ProbeAnswer::Entries(entries) => entries,
                    _ => Vec::new(),
                };
                proof {
                    if !(answer is Entries) {
                        assert(listing(entries@) =~= Seq::<(Seq<char>, bool)>::empty());
                    }
                }
                self.plugin_directory = Some(entries);
            },
            ProbeRequest::FilesPresent(_) => {
                let present = match answer {
                    ProbeAnswer::Present(present) => present,
                    _ => Vec::new(),
                };
                proof {
                    if !(answer is Present) {
                        assert(present@ =~= Seq::<bool>::empty());
                    }
                }
                self.files_present = Some(present);
            },
        }
    }
}

/// The usable output that an answer stands for: that of a command that ended well, and none
/// for anything else.
pub open spec fn command_answer(answer: ProbeAnswer) -> Option<Seq<u8>> {
    match answer {
        ProbeAnswer::Command(output) => if output.success {
            Some(output.stdout@)
        } else {
            None
        },
        _ => None,
    }
}

/// The command output that an answer stands for.
fn command_of(answer: ProbeAnswer) -> (output: CommandOutput)
    ensures
        usable(Some(output)) == Some(command_answer(answer)),
{
    match answer {
        ProbeAnswer::Command(output) => output,
        _ => CommandOutput { success: false, stdout: Vec::new() },
    }
}

impl WordPressProfilePlugin {
    /// The plugins that the plugin directory holds: its directories that are not hidden, each
    /// as a path under `wp-content/plugins`.
    pub fn get_available_plugins(&self, facts: &SiteFacts) -> (r: Probe<Vec<String>>)
        ensures
            texts_step(r) == available_plugins(facts@),
    {
        match &facts.plugin_directory {
            None => Probe::Need(ProbeRequest::PluginDirectory),
            Some(entries) => {
                let mut names: Vec<String> = Vec::new();
                let mut i: usize = 0;
                assert(listing(entries@).take(0) =~= Seq::<(Seq<char>, bool)>::empty());
                assert(names.deep_view() =~= Seq::<Seq<char>>::empty());
                while i < entries.len()
                    invariant
                        i <= entries.len(),
                        names.deep_view() == visible_dirs(listing(entries@).take(i as int)),
                    decreases entries.len() - i,
                {
                    let ghost before = names.deep_view();
                    let ghost next = listing(entries@).take(i as int + 1);
                    assert(next.drop_last() =~= listing(entries@).take(i as int));
                    assert(next.last() == (entries[i as int].name@, entries[i as int].is_dir));
                    let cs = chars_of(entries[i].name.as_str());
                    let hidden = cs.len() > 0 && cs[0] == '.';
                    if entries[i].is_dir && !hidden {
                        names.push(entries[i].name.clone());
                        assert(names.deep_view() =~= before.push(entries[i as int].name@));
                    }
                    i += 1;
                }
                assert(listing(entries@).take(entries.len() as int) =~= listing(entries@));
                Probe::Ready(paths_under_plugins(&names))
            },
        }
    }

    /// The active plugins, each as a path under `wp-content/plugins`: those that the
    /// inventory run in the working directory lists or, where the command failed or did not
    /// print a JSON array, those that the plugin directory holds.
    pub fn get_active_plugins(&self, facts: &SiteFacts) -> (r: Probe<Vec<String>>)
        ensures
            texts_step(r) == active_plugins(facts@),
    {
        match &facts.active_plugins_here {
            None => Probe::Need(ProbeRequest::ActivePluginsHere),
            Some(answer) => {
                let output = output_of(answer);
                match names_of_inventory(&output) {
                    Some(names) => Probe::Ready(paths_under_plugins(&names)),
                    None => self.get_available_plugins(facts),
                }
            },
        }
    }

    /// The plugins that the site's own inventory lists, or those of the plugin directory.
    fn found_plugins(&self, facts: &SiteFacts, separator: char) -> (r: Probe<Vec<String>>)
        ensures
            texts_step(r) == detected_plugins(facts@, separator),
    {
        match &facts.active_plugins {
            None => Probe::Need(ProbeRequest::ActivePlugins),
            Some(answer) => {
                let output = output_of(answer);
                let names = match names_of_inventory(&output) {
                    Some(n) => n,
                    None => Vec::new(),
                };
                proof {
                    if inventory_names(opt_bytes(output)) is None {
                        assert(names.deep_view() =~= Seq::<Seq<char>>::empty());
                    }
                }
                if names.len() > 0 {
                    Probe::Ready(names)
                } else {
                    match self.get_available_plugins(facts) {
                        Probe::Need(r) => Probe::Need(r),
                        Probe::Ready(paths) => Probe::Ready(names_of_paths(&paths, separator)),
                    }
                }
            },
        }
    }

    /// Builds the WordPress profile for a site, from the facts gathered so far, or says which
    /// fact is needed next.
    ///
    /// With plugins or a theme selected explicitly the profile names the files of exactly
    /// those, and allows every extension of the default profile; nothing is asked of the site
    /// but which of these files exist. Without a selection the
    /// active theme and the active plugins are taken from the site's inventories; where the
    /// plugin inventory is not to be had or lists nothing, the plugin directory stands in.
    /// Excluded plugins are left out, whatever their case. File names are given relative to
    /// the site's root, and only files that exist are named.
    pub fn get_profile_for_path(
        &self,
        name: &str,
        exclude_plugins: &Option<Vec<String>>,
        include_only_plugins: &Option<Vec<String>>,
        include_theme: &Option<String>,
        facts: &SiteFacts,
        separator: char,
    ) -> (r: Probe<Option<Profile>>)
        ensures
            profile_step(r) == path_aware(
                name@,
                crate::text::opt_texts(*exclude_plugins),
                crate::text::opt_texts(*include_only_plugins),
                crate::text::opt_text(*include_theme),
                facts@,
                separator,
            ),
            r matches Probe::Ready(Some(p)) ==> p.wf(),
    {
        if !text_eq(name, "wordpress") {
            return Probe::Ready(None);
        }
        if include_only_plugins.is_some() || include_theme.is_some() {
            let plugins = match include_only_plugins {
                Some(list) => clone_texts(list),
                None => Vec::new(),
            };
            proof {
                if include_only_plugins is None {
                    assert(plugins.deep_view() =~= Seq::<Seq<char>>::empty());
                }
            }
            let files = candidate_files(include_theme, &plugins);
            match &facts.files_present {
                None => Probe::Need(ProbeRequest::FilesPresent(files)),
                Some(present) => {
                    let names = choose_present(&files, present);
                    Probe::Ready(
                        Some(
                            Profile::new(
                                "WordPress site with specific theme/plugins.".to_owned(),
                                wordpress_extension_list(),
                                names,
                            ),
                        ),
                    )
                },
            }
        } else {
            let theme = match &facts.active_themes {
                None => {
                    return Probe::Need(ProbeRequest::ActiveThemes);
                },
                Some(answer) => {
                    let output = output_of(answer);
                    first_of_inventory(&output)
                },
            };
            let plugins = match self.found_plugins(facts, separator) {
                Probe::Need(r) => {
                    return Probe::Need(r);
                },
                Probe::Ready(plugins) => plugins,
            };
            let kept = keep_names(slugs_of(&plugins), exclude_plugins);
            let files = candidate_files(&theme, &kept);
            match &facts.files_present {
                None => Probe::Need(ProbeRequest::FilesPresent(files)),
                Some(present) => {
                    let names = choose_present(&files, present);
                    let extensions: [&str; 8] = [
                        ".js",
                        ".css",
                        ".scss",
                        ".sass",
                        ".less",
                        ".json",
                        ".txt",
                        ".md",
                    ];
                    let e = owned_texts(&extensions);
                    assert(e.deep_view() =~= detected_extensions());
                    let description = "WordPress site with active theme and plugins (path-aware).";
                    Probe::Ready(Some(Profile::new(description.to_owned(), e, names)))
                },
            }
        }
    }
}

} // verus!
