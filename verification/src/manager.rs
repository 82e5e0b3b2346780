//! The profile manager: it resolves a profile name to one merged profile, following the
//! `extends` chain of custom profiles, and lists every profile that can be asked for.

use vstd::prelude::*;
use crate::builtin::{built_in, built_in_names, BuiltInProfiles};
use crate::config::{entries_of, names, CustomEntry, CustomProfile, CustomProfileView};
use crate::options::Args;
use crate::probe::{path_aware, profile_step, Probe, SiteFacts};
use crate::profiles::{merge, new_profile, opt_profile, Profile, ProfilePlugin, ProfileView};
use crate::text::{
    clone_texts, contains_text, debug_format, debug_text, dedup, dedup_texts, first_index, joined,
    lemma_first_index, lemma_first_index_is, lemma_insert_contains, lemma_push_contains,
    lemma_take_next, lemma_text_lt_irreflexive, lemma_text_lt_total, lemma_text_lt_transitive,
    or_empty, text_eq, text_less, text_lt,
};
use crate::wordpress_profile::{wordpress_static, WordPressProfilePlugin};

verus! {

/// Holds every source of profiles: the built-in registry, the WordPress source and the custom
/// profiles of the configuration. No two custom profiles have the same name.
pub struct ProfileManager {
    built_ins: BuiltInProfiles,
    wordpress: WordPressProfilePlugin,
    custom_profiles: Vec<(String, CustomProfile)>,
}

/// The entries of `entries` without those whose name an earlier entry has.
pub open spec fn unique_entries(entries: Seq<CustomEntry>) -> Seq<CustomEntry>
    decreases entries.len(),
{
    if entries.len() == 0 {
        entries
    } else {
        let init = unique_entries(entries.drop_last());
        if names(init).contains(entries.last().name) {
            init
        } else {
            init.push(entries.last())
        }
    }
}

/// The profile that a custom definition describes by itself, before any parent is merged in.
/// Its description is the definition's, or the profile's own name where it has none.
pub open spec fn child_profile(name: Seq<char>, def: CustomProfileView) -> ProfileView {
    let base = new_profile(
        match def.description {
            Some(d) => d,
            None => name,
        },
        or_empty(def.extensions),
        or_empty(def.allowed_filenames),
    );
    ProfileView {
        description: base.description,
        allowed_extensions: base.allowed_extensions,
        allowed_filenames: base.allowed_filenames,
        include_globs: dedup(or_empty(def.include_globs)),
        markdown: def.markdown,
        max_size: def.max_size,
        gpt4_tokens: def.gpt4_tokens,
        include_git_changes: def.include_git_changes,
        no_staged_diff: def.no_staged_diff,
        no_unstaged_diff: def.no_unstaged_diff,
        include_dirs: def.include_dirs,
        exclude_dirs: def.exclude_dirs,
        exclude_patterns: def.exclude_patterns,
        include_patterns: def.include_patterns,
        exclude_globs: def.exclude_globs,
        exclude_node_modules: def.exclude_node_modules,
        exclude_build_dirs: def.exclude_build_dirs,
        exclude_hidden_dirs: def.exclude_hidden_dirs,
        max_depth: def.max_depth,
    }
}

/// The profile that the sources without configuration have under `name`: the WordPress
/// source is asked first, then the built-in registry.
pub open spec fn static_profile(name: Seq<char>) -> Option<ProfileView> {
    match wordpress_static(name) {
        Some(p) => Some(p),
        None => built_in(name),
    }
}

/// Resolution of `name` while the custom profiles of `all` that are not in `remaining` are
/// being resolved further up the chain.
///
/// A custom profile in `remaining` resolves to its own child profile, merged over its resolved
/// parent where it names one that resolves. A custom profile that is not in `remaining` is its
/// own ancestor: it does not resolve, so the profile that names it keeps its child profile
/// alone. Any other name is looked up in the static sources.
pub open spec fn resolve_among(
    all: Seq<CustomEntry>,
    remaining: Seq<CustomEntry>,
    name: Seq<char>,
) -> Option<ProfileView>
    decreases remaining.len(),
{
    let i = first_index(names(remaining), name);
    if 0 <= i < remaining.len() {
        let child = child_profile(name, remaining[i].def);
        match remaining[i].def.extends {
            Some(parent) => match resolve_among(all, remaining.remove(i), parent) {
                Some(p) => Some(merge(p, child)),
                None => Some(child),
            },
            None => Some(child),
        }
    } else if names(all).contains(name) {
        None
    } else {
        static_profile(name)
    }
}

/// Why a resolution left a parent out.
#[derive(Debug)]
pub enum ResolveWarning {
    /// The profile names itself as its parent.
    SelfExtension { profile: String },
    /// The parent is being resolved already: it extends the profile, directly or through
    /// other profiles.
    Cycle { profile: String, parent: String },
    /// No source knows the parent.
    ParentNotFound { profile: String, parent: String },
}

/// A [`ResolveWarning`], with every string as its characters.
pub enum ResolveWarningView {
    SelfExtension { profile: Seq<char> },
    Cycle { profile: Seq<char>, parent: Seq<char> },
    ParentNotFound { profile: Seq<char>, parent: Seq<char> },
}

impl View for ResolveWarning {
    type V = ResolveWarningView;

    open spec fn view(&self) -> ResolveWarningView {
        match *self {
            ResolveWarning::SelfExtension { profile } => ResolveWarningView::SelfExtension {
                profile: profile@,
            },
            ResolveWarning::Cycle { profile, parent } => ResolveWarningView::Cycle {
                profile: profile@,
                parent: parent@,
            },
            ResolveWarning::ParentNotFound { profile, parent } => {
                ResolveWarningView::ParentNotFound { profile: profile@, parent: parent@ }
            },
        }
    }
}

/// The view of an optional warning.
pub open spec fn opt_warning(w: Option<ResolveWarning>) -> Option<ResolveWarningView> {
    match w {
        Some(w) => Some(w@),
        None => None,
    }
}

/// The warning for a parent that did not resolve.
pub open spec fn parent_warning(
    all: Seq<CustomEntry>,
    name: Seq<char>,
    parent: Seq<char>,
) -> ResolveWarningView {
    if parent == name {
        ResolveWarningView::SelfExtension { profile: name }
    } else if names(all).contains(parent) {
        ResolveWarningView::Cycle { profile: name, parent: parent }
    } else {
        ResolveWarningView::ParentNotFound { profile: name, parent: parent }
    }
}

/// The warning of the resolution that `resolve_among` describes: the one for the first
/// parent along the chain that does not resolve, or none where every parent resolves. A chain
/// gives one warning at most, because nothing above a parent that was left out is affected.
pub open spec fn warning_among(
    all: Seq<CustomEntry>,
    remaining: Seq<CustomEntry>,
    name: Seq<char>,
) -> Option<ResolveWarningView>
    decreases remaining.len(),
{
    let i = first_index(names(remaining), name);
    if 0 <= i < remaining.len() {
        match remaining[i].def.extends {
            Some(parent) => match resolve_among(all, remaining.remove(i), parent) {
                Some(_) => warning_among(all, remaining.remove(i), parent),
                None => Some(parent_warning(all, name, parent)),
            },
            None => None,
        }
    } else {
        None
    }
}

/// The warning that resolving `name` gives, if any.
pub open spec fn resolve_warning(all: Seq<CustomEntry>, name: Seq<char>) -> Option<
    ResolveWarningView,
> {
    warning_among(all, all, name)
}

impl ResolveWarning {
    /// The message for the log.
    pub fn message(&self) -> (out: String)
        ensures
            out@ == match *self {
                ResolveWarning::SelfExtension { profile } => "Profile '"@ + profile@
                    + "' extends itself. Ignoring parent."@,
                ResolveWarning::Cycle { profile, parent } => "Profile '"@ + profile@
                    + "' extends '"@ + parent@ + "', which extends it in turn. Ignoring parent."@,
                ResolveWarning::ParentNotFound { profile, parent } => "Parent profile '"@
                    + parent@ + "' not found for '"@ + profile@ + "'"@,
            },
    {
        match self {
            ResolveWarning::SelfExtension { profile } => {
                let a = joined("Profile '", profile.as_str());
                joined(a.as_str(), "' extends itself. Ignoring parent.")
            },
            ResolveWarning::Cycle { profile, parent } => {
                let a = joined("Profile '", profile.as_str());
                let b = joined(a.as_str(), "' extends '");
                let c = joined(b.as_str(), parent.as_str());
                joined(c.as_str(), "', which extends it in turn. Ignoring parent.")
            },
            ResolveWarning::ParentNotFound { profile, parent } => {
                let a = joined("Parent profile '", parent.as_str());
                let b = joined(a.as_str(), "' not found for '");
                let c = joined(b.as_str(), profile.as_str());
                joined(c.as_str(), "'")
            },
        }
    }
}

/// The profile that `name` resolves to, given the custom profiles `all`.
pub open spec fn resolve_profile(all: Seq<CustomEntry>, name: Seq<char>) -> Option<ProfileView> {
    resolve_among(all, all, name)
}

/// The names that the static sources offer.
pub open spec fn static_names() -> Seq<Seq<char>> {
    seq!["wordpress"@] + built_in_names()
}

/// Whether `name` is listed: a custom profile has it, or a static source offers it.
pub open spec fn listed(all: Seq<CustomEntry>, name: Seq<char>) -> bool {
    names(all).contains(name) || static_names().contains(name)
}

/// The description that a custom definition is listed with: its own, or a note of what it
/// extends.
pub open spec fn custom_description(def: CustomProfileView) -> Seq<char> {
    match def.description {
        Some(d) => d,
        None => "Custom profile extending "@ + debug_text(def.extends),
    }
}

/// The description that `name` is listed with. A custom profile wins over a static one of the
/// same name.
pub open spec fn description_of(all: Seq<CustomEntry>, name: Seq<char>) -> Seq<char> {
    let i = first_index(names(all), name);
    if 0 <= i < all.len() {
        custom_description(all[i].def)
    } else {
        match static_profile(name) {
            Some(p) => p.description,
            None => Seq::empty(),
        }
    }
}

/// Whether a listing is in strictly ascending order of names.
pub open spec fn sorted_by_name(list: Seq<(Seq<char>, Seq<char>)>) -> bool {
    sorted_names(listing_names(list))
}

/// The names of a listing, in order.
pub open spec fn listing_names(list: Seq<(Seq<char>, Seq<char>)>) -> Seq<Seq<char>> {
    Seq::new(list.len(), |i: int| list[i].0)
}

/// The custom entries that `positions` select from `all`.
pub open spec fn selected(all: Seq<CustomEntry>, positions: Seq<usize>) -> Seq<CustomEntry> {
    Seq::new(positions.len(), |k: int| all[positions[k] as int])
}

/// The entries that `unique_entries` keeps have different names.
pub proof fn lemma_unique_entries(entries: Seq<CustomEntry>)
    ensures
        names(unique_entries(entries)).no_duplicates(),
        forall|n: Seq<char>|
            names(unique_entries(entries)).contains(n) <==> names(entries).contains(n),
    decreases entries.len(),
{
    if entries.len() > 0 {
        let init = entries.drop_last();
        let last = entries.last();
        lemma_unique_entries(init);
        let u = unique_entries(init);
        let out = unique_entries(entries);
        assert forall|n: Seq<char>| names(out).contains(n) <==> names(entries).contains(
            n,
        ) by {
            if names(entries).contains(n) {
                let i = choose|i: int| 0 <= i < entries.len() && names(entries)[i] == n;
                if i < init.len() {
                    assert(names(init)[i] == n);
                    assert(names(init).contains(n));
                    assert(names(u).contains(n));
                    let j = choose|j: int| 0 <= j < u.len() && names(u)[j] == n;
                    assert(names(out)[j] == n);
                } else {
                    assert(n == last.name);
                    if names(u).contains(n) {
                    } else {
                        assert(names(out)[u.len() as int] == n);
                    }
                }
            }
            if names(out).contains(n) {
                let j = choose|j: int| 0 <= j < out.len() && names(out)[j] == n;
                if j < u.len() {
                    assert(names(u)[j] == n);
                    assert(names(init).contains(n));
                    let i = choose|i: int| 0 <= i < init.len() && names(init)[i] == n;
                    assert(names(entries)[i] == n);
                } else {
                    assert(names(entries)[entries.len() - 1] == n);
                }
            }
        }
        if !names(u).contains(last.name) {
            assert forall|i: int, j: int|
                0 <= i < out.len() && 0 <= j < out.len() && i != j implies names(out)[i]
                != names(out)[j] by {
                if i < u.len() && j < u.len() {
                    assert(names(u)[i] != names(u)[j]);
                } else if i < u.len() {
                    assert(names(u)[i] == names(out)[i]);
                } else {
                    assert(names(u)[j] == names(out)[j]);
                }
            }
        }
    }
}

/// The profile that one custom definition describes by itself.
fn child_of(name: &str, custom: &CustomProfile) -> (child: Profile)
    ensures
        child@ == child_profile(name@, custom@),
{
    let description = match &custom.description {
        Some(d) => d.clone(),
        None => name.to_owned(),
    };
    let extensions = match &custom.extensions {
        Some(e) => clone_texts(e),
        None => Vec::new(),
    };
    let filenames = match &custom.allowed_filenames {
        Some(f) => clone_texts(f),
        None => Vec::new(),
    };
    let globs = match &custom.include_globs {
        Some(g) => dedup_texts(g),
        None => Vec::new(),
    };
    proof {
        let none = Seq::<Seq<char>>::empty();
        if custom.extensions is None {
            assert(extensions.deep_view() =~= none);
        }
        if custom.allowed_filenames is None {
            assert(filenames.deep_view() =~= none);
        }
        if custom.include_globs is None {
            assert(globs.deep_view() =~= none);
            assert(dedup(none) =~= none);
        }
    }
    let base = Profile::new(description, extensions, filenames);
    Profile {
        description: base.description,
        allowed_extensions: base.allowed_extensions,
        allowed_filenames: base.allowed_filenames,
        include_globs: globs,
        markdown: custom.markdown,
        max_size: custom.max_size,
        gpt4_tokens: custom.gpt4_tokens,
        include_git_changes: custom.include_git_changes,
        no_staged_diff: custom.no_staged_diff,
        no_unstaged_diff: custom.no_unstaged_diff,
        include_dirs: crate::text::clone_opt_texts(&custom.include_dirs),
        exclude_dirs: crate::text::clone_opt_texts(&custom.exclude_dirs),
        exclude_patterns: crate::text::clone_opt_texts(&custom.exclude_patterns),
        include_patterns: crate::text::clone_opt_texts(&custom.include_patterns),
        exclude_globs: crate::text::clone_opt_texts(&custom.exclude_globs),
        exclude_node_modules: custom.exclude_node_modules,
        exclude_build_dirs: custom.exclude_build_dirs,
        exclude_hidden_dirs: custom.exclude_hidden_dirs,
        max_depth: custom.max_depth,
    }
}

/// The position of the first entry of `list` named `name`, or the length of `list`.
fn find_name(list: &Vec<(String, CustomProfile)>, name: &str) -> (i: usize)
    ensures
        i == first_index(names(entries_of(list@)), name@),
        i <= list.len(),
{
    let ghost all = names(entries_of(list@));
    let mut i: usize = 0;
    while i < list.len()
        invariant
            i <= list.len(),
            all == names(entries_of(list@)),
            forall|j: int| 0 <= j < i ==> all[j] != name@,
        decreases list.len() - i,
    {
        if text_eq(list[i].0.as_str(), name) {
            proof {
                lemma_first_index_is(all, name@, i as int);
            }
            return i;
        }
        i += 1;
    }
    proof {
        lemma_first_index_is(all, name@, i as int);
    }
    i
}

impl View for ProfileManager {
    type V = Seq<CustomEntry>;

    closed spec fn view(&self) -> Seq<CustomEntry> {
        entries_of(self.custom_profiles@)
    }
}

impl ProfileManager {
    /// The invariant: no two custom profiles have the same name.
    pub open spec fn wf(&self) -> bool {
        names(self@).no_duplicates()
    }

    #[verifier::type_invariant]
    closed spec fn distinct_names(&self) -> bool {
        names(entries_of(self.custom_profiles@)).no_duplicates()
    }


    /// A manager over the built-in profiles, the WordPress source and the given custom
    /// profiles. Of several custom profiles with one name the first is kept.
    pub fn new(custom_profiles: Option<Vec<(String, CustomProfile)>>) -> (manager: ProfileManager)
        ensures
            manager@ == match custom_profiles {
                Some(list) => unique_entries(entries_of(list@)),
                None => Seq::empty(),
            },
            manager.wf(),
    {
        let mut kept: Vec<(String, CustomProfile)> = Vec::new();
        match custom_profiles {
            Some(list) => {
                let mut i: usize = 0;
                assert(entries_of(list@).take(0) =~= Seq::<CustomEntry>::empty());
                assert(entries_of(kept@) =~= Seq::<CustomEntry>::empty());
                while i < list.len()
                    invariant
                        i <= list.len(),
                        entries_of(kept@) == unique_entries(entries_of(list@).take(i as int)),
                    decreases list.len() - i,
                {
                    let ghost before = entries_of(kept@);
                    let ghost done = entries_of(list@).take(i as int);
                    let ghost next = entries_of(list@).take(i as int + 1);
                    assert(next.drop_last() =~= done);
                    assert(next.last() == entries_of(list@)[i as int]);
                    let at = find_name(&kept, list[i].0.as_str());
                    proof {
                        lemma_first_index(names(before), list[i as int].0@);
                    }
                    if at == kept.len() {
                        kept.push((list[i].0.clone(), list[i].1.duplicate()));
                        assert(entries_of(kept@) =~= before.push(next.last()));
                    }
                    i += 1;
                }
                assert(entries_of(list@).take(list.len() as int) =~= entries_of(list@));
                proof {
                    lemma_unique_entries(entries_of(list@));
                }
            },
            None => {
                assert(entries_of(kept@) =~= Seq::<CustomEntry>::empty());
            },
        }
        ProfileManager {
            built_ins: BuiltInProfiles::new(),
            wordpress: WordPressProfilePlugin,
            custom_profiles: kept,
        }
    }

    /// The position in `remaining` of the first custom profile named `name`, or the length of
    /// `remaining`.
    fn find_selected(&self, remaining: &Vec<usize>, name: &str) -> (i: usize)
        requires
            forall|k: int| 0 <= k < remaining.len() ==> remaining[k] < self.custom_profiles.len(),
        ensures
            i <= remaining.len(),
            i == first_index(names(selected(self@, remaining@)), name@),
    {
        let ghost rest = selected(self@, remaining@);
        let mut i: usize = 0;
        while i < remaining.len()
            invariant
                i <= remaining.len(),
                rest == selected(self@, remaining@),
                forall|k: int|
                    0 <= k < remaining.len() ==> remaining[k] < self.custom_profiles.len(),
                forall|j: int| 0 <= j < i ==> names(rest)[j] != name@,
            decreases remaining.len() - i,
        {
            assert(names(rest)[i as int] == self.custom_profiles[remaining[i as int] as int].0@);
            if text_eq(self.custom_profiles[remaining[i]].0.as_str(), name) {
                proof {
                    lemma_first_index_is(names(rest), name@, i as int);
                }
                return i;
            }
            i += 1;
        }
        proof {
            lemma_first_index_is(names(rest), name@, i as int);
        }
        i
    }

    /// Resolves `name` among the custom profiles at `remaining` and the static sources, and
    /// says where a parent had to be left out. A profile that names itself as its parent is
    /// answered at once, with no further call.
    fn resolve_custom(&self, remaining: Vec<usize>, name: &str) -> (r: (
        Option<Profile>,
        Option<ResolveWarning>,
    ))
        requires
            forall|k: int| 0 <= k < remaining.len() ==> remaining[k] < self.custom_profiles.len(),
            names(selected(self@, remaining@)).no_duplicates(),
        ensures
            opt_profile(r.0) == resolve_among(self@, selected(self@, remaining@), name@),
            opt_warning(r.1) == warning_among(self@, selected(self@, remaining@), name@),
        decreases remaining.len(),
    {
        let ghost rest = selected(self@, remaining@);
        let i = self.find_selected(&remaining, name);
        if i < remaining.len() {
            let custom = &self.custom_profiles[remaining[i]].1;
            assert(rest[i as int].def == custom@);
            let child = child_of(name, custom);
            match &custom.extends {
                Some(parent_name) => {
                    proof {
                        crate::laws::lemma_remove_entry(rest, i as int, name@);
                        crate::laws::lemma_remove_entry(rest, i as int, parent_name@);
                        lemma_first_index(names(rest), name@);
                        assert(names(rest)[i as int] == rest[i as int].name);
                    }
                    if text_eq(parent_name.as_str(), name) {
                        proof {
                            lemma_first_index(names(rest.remove(i as int)), name@);
                            assert(names(self@)[remaining[i as int] as int] == name@);
                        }
                        return (
                            Some(child),
                            Some(ResolveWarning::SelfExtension { profile: name.to_owned() }),
                        );
                    }
                    let mut fewer = remaining;
                    fewer.remove(i);
                    assert(selected(self@, fewer@) =~= rest.remove(i as int));
                    let (parent, deeper) = self.resolve_custom(fewer, parent_name.as_str());
                    match parent {
                        Some(parent) => (Some(parent.merge_with(&child)), deeper),
                        None => {
                            let at = find_name(&self.custom_profiles, parent_name.as_str());
                            proof {
                                lemma_first_index(names(self@), parent_name@);
                            }
                            let warning = if at < self.custom_profiles.len() {
                                ResolveWarning::Cycle {
                                    profile: name.to_owned(),
                                    parent: parent_name.clone(),
                                }
                            } else {
                                ResolveWarning::ParentNotFound {
                                    profile: name.to_owned(),
                                    parent: parent_name.clone(),
                                }
                            };
                            (Some(child), Some(warning))
                        },
                    }
                },
                None => (Some(child), None),
            }
        } else {
            let at = find_name(&self.custom_profiles, name);
            proof {
                lemma_first_index(names(self@), name@);
            }
            if at < self.custom_profiles.len() {
                (None, None)
            } else {
                match self.wordpress.get_profile(name) {
                    Some(p) => (Some(p), None),
                    None => (self.built_ins.get_profile(name), None),
                }
            }
        }
    }

    /// Resolves a profile by name, and says where the resolution had to leave a parent out.
    ///
    /// A custom profile is merged over the profile it extends, and that one over its own
    /// parent, to the root of the chain. A parent is left out, with a warning, where it is the
    /// profile itself, where it is one of the profile's descendants in the chain, and where no
    /// source knows it; the profile then stands on what the chain gave up to there. Any other
    /// name is looked up in the WordPress source, then among the built-in profiles. `None`
    /// means that no source knows the name.
    pub fn resolve_with_warning(&self, name: &str) -> (r: (Option<Profile>, Option<ResolveWarning>))
        ensures
            self.wf(),
            opt_profile(r.0) == resolve_profile(self@, name@),
            opt_warning(r.1) == resolve_warning(self@, name@),
            r.0 is Some ==> r.0->0.wf(),
    {
        proof {
            use_type_invariant(self);
            crate::laws::law_resolved_is_well_formed(self@, name@);
        }
        let mut every: Vec<usize> = Vec::new();
        let mut i: usize = 0;
        while i < self.custom_profiles.len()
            invariant
                i <= self.custom_profiles.len(),
                every.len() == i,
                forall|k: int| 0 <= k < i ==> every[k] == k,
            decreases self.custom_profiles.len() - i,
        {
            every.push(i);
            i += 1;
        }
        assert(selected(self@, every@) =~= self@);
        self.resolve_custom(every, name)
    }

    /// Resolves a profile by name. A custom profile is merged over the profile it extends, and
    /// that one over its own parent, to the root of the chain; a parent that cannot be
    /// resolved, or that is the profile itself or one of its descendants in the chain, is
    /// left out. Any other name is looked up in the WordPress source, then among the
    /// built-in profiles. `None` means that no source knows the name.
    pub fn resolve(&self, name: &str) -> (r: Option<Profile>)
        ensures
            self.wf(),
            opt_profile(r) == resolve_profile(self@, name@),
            r is Some ==> r->0.wf(),
    {
        self.resolve_with_warning(name).0
    }

    /// Builds the WordPress profile for the site that the options point at, from the facts
    /// gathered so far, or says which fact is needed next. The selection of plugins and of a
    /// theme is taken from the options.
    pub fn resolve_wordpress_path_aware(
        &self,
        name: &str,
        args: &Args,
        facts: &SiteFacts,
        separator: char,
    ) -> (r: Probe<Option<Profile>>)
        ensures
            profile_step(r) == path_aware(
                name@,
                args@.wp_exclude_plugins,
                args@.wp_include_only_plugins,
                args@.wp_include_theme,
                facts@,
                separator,
            ),
    {
        self.wordpress.get_profile_for_path(
            name,
            &args.wp_exclude_plugins,
            &args.wp_include_only_plugins,
            &args.wp_include_theme,
            facts,
            separator,
        )
    }

    /// Lists every profile that can be asked for, with its description, in ascending order of
    /// names and each name once. Where a custom profile has the name of a static one, the
    /// custom profile's description is listed.
    pub fn list_all(&self) -> (list: Vec<(String, String)>)
        ensures
            self.wf(),
            sorted_by_name(list.deep_view()),
            listing_names(list.deep_view()).no_duplicates(),
            forall|n: Seq<char>|
                #![trigger listing_names(list.deep_view()).contains(n)]
                #![trigger listed(self@, n)]
                listing_names(list.deep_view()).contains(n) <==> listed(self@, n),
            forall|i: int|
                0 <= i < list.len() ==> (#[trigger] list.deep_view()[i]).1 == description_of(
                    self@,
                    list.deep_view()[i].0,
                ),
    {
        proof {
            use_type_invariant(self);
        }
        let mut found: Vec<String> = Vec::new();
        let mut notes: Vec<String> = Vec::new();
        let mut k: usize = 0;
        assert(names(self@).take(0) =~= Seq::<Seq<char>>::empty());
        while k < self.custom_profiles.len()
            invariant
                k <= self.custom_profiles.len(),
                found.len() == notes.len(),
                found.deep_view().no_duplicates(),
                forall|n: Seq<char>|
                    #![trigger found.deep_view().contains(n)]
                    #![trigger names(self@).take(k as int).contains(n)]
                    found.deep_view().contains(n) <==> names(self@).take(k as int).contains(n),
                forall|i: int|
                    0 <= i < found.len() ==> #[trigger] notes.deep_view()[i] == description_of(
                        self@,
                        found.deep_view()[i],
                    ),
            decreases self.custom_profiles.len() - k,
        {
            let ghost before = found.deep_view();
            let ghost before_notes = notes.deep_view();
            let ghost done = names(self@).take(k as int);
            let name = self.custom_profiles[k].0.clone();
            let custom = &self.custom_profiles[k].1;
            assert(self@[k as int].name == name@);
            assert(self@[k as int].def == custom@);
            assert(names(self@)[k as int] == name@);
            proof {
                lemma_take_next(names(self@), k as int);
            }
            if !contains_text(&found, name.as_str()) {
                let description = match &custom.description {
                    Some(d) => d.clone(),
                    None => {
                        let what = debug_format(&custom.extends);
                        joined("Custom profile extending ", what.as_str())
                    },
                };
                proof {
                    assert(!done.contains(name@));
                    assert forall|j: int| 0 <= j < k implies names(self@)[j] != name@ by {
                        assert(done[j] == names(self@)[j]);
                    }
                    lemma_first_index_is(names(self@), name@, k as int);
                    assert(description@ == description_of(self@, name@));
                    lemma_push_contains(before, name@);
                }
                found.push(name);
                notes.push(description);
                assert(found.deep_view() =~= before.push(name@));
                assert(notes.deep_view() =~= before_notes.push(description@));
            } else {
                assert(done.contains(name@));
            }
            k += 1;
        }
        assert(names(self@).take(self.custom_profiles.len() as int) =~= names(self@));
        let ghost customs = found.deep_view();
        let ghost custom_notes = notes.deep_view();
        list_source(&mut found, &mut notes, &self.wordpress);
        let ghost middle = found.deep_view();
        let ghost middle_notes = notes.deep_view();
        list_source(&mut found, &mut notes, &self.built_ins);
        let ghost all = found.deep_view();
        let ghost all_notes = notes.deep_view();
        proof {
            assert forall|i: int| 0 <= i < all.len() implies #[trigger] notes.deep_view()[i]
                == description_of(self@, all[i]) by {
                let n = all[i];
                lemma_first_index(names(self@), n);
                if i < middle.len() {
                    assert(all[i] == middle[i]);
                    assert(all_notes[i] == middle_notes[i]);
                }
                if i < customs.len() {
                    assert(middle[i] == customs[i]);
                    assert(middle_notes[i] == custom_notes[i]);
                } else {
                    assert(all.contains(n));
                    assert(!customs.contains(n));
                    assert(!names(self@).contains(n));
                    if i < middle.len() {
                        assert(all[i] == middle[i]);
                    } else {
                        assert(!middle.contains(n));
                        assert(wordpress_static(n) is None) by {
                            if wordpress_static(n) is Some {
                                assert(seq!["wordpress"@][0] == n);
                                assert(seq!["wordpress"@].contains(n));
                                assert(middle.contains(n));
                            }
                        }
                    }
                }
            }
            assert forall|n: Seq<char>|
                #![trigger all.contains(n)]
                #![trigger listed(self@, n)]
                all.contains(n) <==> listed(self@, n) by {
                lemma_static_names(n);
                assert(middle.contains(n) <==> (customs.contains(n) || (
                seq!["wordpress"@].contains(n) && wordpress_static(n) is Some)));
                assert(all.contains(n) <==> (middle.contains(n) || (built_in_names().contains(n)
                    && built_in(n) is Some)));
                assert(customs.contains(n) <==> names(self@).contains(n));
            }
        }
        let (sorted_names, sorted_notes) = self.sort_listing(&found, &notes);
        let list = pair_up(&sorted_names, &sorted_notes);
        assert(listing_names(list.deep_view()) =~= sorted_names.deep_view());
        proof {
            lemma_sorted_names_distinct(sorted_names.deep_view());
            assert forall|n: Seq<char>|
                #![trigger listing_names(list.deep_view()).contains(n)]
                #![trigger listed(self@, n)]
                listing_names(list.deep_view()).contains(n) <==> listed(self@, n) by {
                assert(sorted_names.deep_view().contains(n) <==> all.contains(n));
            }
        }
        list
    }

    /// A listing in ascending order of names.
    fn sort_listing(&self, found: &Vec<String>, notes: &Vec<String>) -> (out: (
        Vec<String>,
        Vec<String>,
    ))
        requires
            found.len() == notes.len(),
            found.deep_view().no_duplicates(),
            forall|i: int|
                0 <= i < found.len() ==> #[trigger] notes.deep_view()[i] == description_of(
                    self@,
                    found.deep_view()[i],
                ),
        ensures
            out.0.len() == out.1.len(),
            sorted_names(out.0.deep_view()),
            forall|n: Seq<char>|
                #![trigger out.0.deep_view().contains(n)]
                #![trigger found.deep_view().contains(n)]
                out.0.deep_view().contains(n) <==> found.deep_view().contains(n),
            forall|i: int|
                0 <= i < out.0.len() ==> #[trigger] out.1.deep_view()[i] == description_of(
                    self@,
                    out.0.deep_view()[i],
                ),
    {
        let mut sorted: Vec<String> = Vec::new();
        let mut sorted_notes: Vec<String> = Vec::new();
        let mut k: usize = 0;
        while k < found.len()
            invariant
                k <= found.len(),
                found.len() == notes.len(),
                sorted.len() == sorted_notes.len(),
                found.deep_view().no_duplicates(),
                sorted_names(sorted.deep_view()),
                forall|i: int|
                    0 <= i < found.len() ==> #[trigger] notes.deep_view()[i] == description_of(
                        self@,
                        found.deep_view()[i],
                    ),
                forall|n: Seq<char>|
                    #![trigger sorted.deep_view().contains(n)]
                    #![trigger found.deep_view().take(k as int).contains(n)]
                    sorted.deep_view().contains(n) <==> found.deep_view().take(k as int).contains(
                        n,
                    ),
                forall|i: int|
                    0 <= i < sorted.len() ==> #[trigger] sorted_notes.deep_view()[i]
                        == description_of(self@, sorted.deep_view()[i]),
            decreases found.len() - k,
        {
            let ghost before = sorted.deep_view();
            let ghost before_notes = sorted_notes.deep_view();
            let ghost src = found.deep_view();
            let name = found[k].clone();
            let description = notes[k].clone();
            assert(src[k as int] == name@);
            assert(notes.deep_view()[k as int] == description@);
            let mut at: usize = 0;
            while at < sorted.len() && text_less(sorted[at].as_str(), name.as_str())
                invariant
                    at <= sorted.len(),
                    before == sorted.deep_view(),
                    forall|j: int| 0 <= j < at ==> text_lt(#[trigger] before[j], name@),
                decreases sorted.len() - at,
            {
                assert(before[at as int] == sorted[at as int]@);
                at += 1;
            }
            proof {
                lemma_take_next(src, k as int);
                lemma_insert_contains(before, at as int, name@);
                if at < sorted.len() {
                    let other = before[at as int];
                    assert(other == sorted[at as int]@);
                    assert(before.contains(other));
                    assert(src.take(k as int).contains(other));
                    let j = choose|j: int| 0 <= j < k && src.take(k as int)[j] == other;
                    assert(src[j] == other);
                    lemma_text_lt_total(other, name@);
                }
            }
            sorted.insert(at, name);
            sorted_notes.insert(at, description);
            proof {
                let after = sorted.deep_view();
                let after_notes = sorted_notes.deep_view();
                assert(after =~= before.insert(at as int, name@));
                assert(after_notes =~= before_notes.insert(at as int, description@));
                assert forall|i: int| 0 <= i < after.len() - 1 implies text_lt(
                    #[trigger] after[i],
                    after[i + 1],
                ) by {
                    if i + 1 < at {
                        assert(after[i] == before[i]);
                        assert(after[i + 1] == before[i + 1]);
                    } else if i + 1 == at {
                        assert(after[i] == before[i]);
                    } else if i == at {
                        assert(after[i + 1] == before[i]);
                    } else {
                        assert(after[i] == before[i - 1]);
                        assert(after[i + 1] == before[i]);
                        assert(text_lt(before[i - 1], before[i - 1 + 1]));
                    }
                }
                assert forall|i: int| 0 <= i < after.len() implies #[trigger] after_notes[i]
                    == description_of(self@, after[i]) by {
                    if i < at {
                        assert(after[i] == before[i]);
                        assert(after_notes[i] == before_notes[i]);
                    } else if i > at {
                        assert(after[i] == before[i - 1]);
                        assert(after_notes[i] == before_notes[i - 1]);
                    }
                }
            }
            k += 1;
        }
        assert(found.deep_view().take(found.len() as int) =~= found.deep_view());
        (sorted, sorted_notes)
    }
}

/// Whether a list of names is in strictly ascending order.
pub open spec fn sorted_names(list: Seq<Seq<char>>) -> bool {
    forall|i: int| 0 <= i < list.len() - 1 ==> text_lt(#[trigger] list[i], list[i + 1])
}

/// In a list in strictly ascending order, an earlier name comes before every later one.
pub proof fn lemma_sorted_names_ordered(list: Seq<Seq<char>>, i: int, j: int)
    requires
        sorted_names(list),
        0 <= i < j < list.len(),
    ensures
        text_lt(list[i], list[j]),
    decreases j - i,
{
    if i + 1 < j {
        lemma_sorted_names_ordered(list, i, j - 1);
        assert(text_lt(list[j - 1], list[j - 1 + 1]));
        lemma_text_lt_transitive(list[i], list[j - 1], list[j]);
    }
}

/// A list in strictly ascending order holds no name twice.
pub proof fn lemma_sorted_names_distinct(list: Seq<Seq<char>>)
    requires
        sorted_names(list),
    ensures
        list.no_duplicates(),
{
    assert forall|i: int, j: int|
        0 <= i < list.len() && 0 <= j < list.len() && i != j implies list[i] != list[j] by {
        if i < j {
            lemma_sorted_names_ordered(list, i, j);
            lemma_text_lt_irreflexive(list[i]);
        } else {
            lemma_sorted_names_ordered(list, j, i);
            lemma_text_lt_irreflexive(list[j]);
        }
    }
}

/// The pairs of a name and the note at the same position.
fn pair_up(found: &Vec<String>, notes: &Vec<String>) -> (out: Vec<(String, String)>)
    requires
        found.len() == notes.len(),
    ensures
        out.len() == found.len(),
        forall|i: int|
            0 <= i < out.len() ==> #[trigger] out.deep_view()[i] == (
                found.deep_view()[i],
                notes.deep_view()[i],
            ),
{
    let mut out: Vec<(String, String)> = Vec::new();
    let mut i: usize = 0;
    while i < found.len()
        invariant
            i <= found.len(),
            found.len() == notes.len(),
            out.len() == i,
            forall|j: int|
                0 <= j < i ==> #[trigger] out.deep_view()[j] == (
                    found.deep_view()[j],
                    notes.deep_view()[j],
                ),
        decreases found.len() - i,
    {
        let ghost before = out.deep_view();
        out.push((found[i].clone(), notes[i].clone()));
        assert(out.deep_view() =~= before.push((found[i as int]@, notes[i as int]@)));
        i += 1;
    }
    out
}

/// Adds to a listing the profiles of one source whose names the listing does not hold yet.
fn list_source<P: ProfilePlugin>(found: &mut Vec<String>, notes: &mut Vec<String>, source: &P)
    requires
        old(found).len() == old(notes).len(),
        old(found).deep_view().no_duplicates(),
    ensures
        final(found).len() == final(notes).len(),
        final(found).deep_view().no_duplicates(),
        old(found).deep_view().is_prefix_of(final(found).deep_view()),
        old(notes).deep_view().is_prefix_of(final(notes).deep_view()),
        forall|n: Seq<char>|
            #![trigger final(found).deep_view().contains(n)]
            #![trigger old(found).deep_view().contains(n)]
            final(found).deep_view().contains(n) <==> (old(found).deep_view().contains(n) || (
            source.profile_names().contains(n) && source.profile_named(n) is Some)),
        forall|i: int|
            old(found).len() <= i < final(found).len() ==> source.profile_named(
                #[trigger] final(found).deep_view()[i],
            ) is Some && source.profile_named(final(found).deep_view()[i])->0.description
                == final(notes).deep_view()[i],
{
    let offered = source.list_profiles();
    let mut k: usize = 0;
    assert(offered.deep_view().take(0) =~= Seq::<Seq<char>>::empty());
    while k < offered.len()
        invariant
            k <= offered.len(),
            found.len() == notes.len(),
            offered.deep_view() == source.profile_names(),
            found.deep_view().no_duplicates(),
            old(found).deep_view().is_prefix_of(found.deep_view()),
            old(notes).deep_view().is_prefix_of(notes.deep_view()),
            forall|n: Seq<char>|
                #![trigger found.deep_view().contains(n)]
                #![trigger old(found).deep_view().contains(n)]
                found.deep_view().contains(n) <==> (old(found).deep_view().contains(n) || (
                offered.deep_view().take(k as int).contains(n) && source.profile_named(n)
                    is Some)),
            forall|i: int|
                old(found).len() <= i < found.len() ==> source.profile_named(
                    #[trigger] found.deep_view()[i],
                ) is Some && source.profile_named(found.deep_view()[i])->0.description
                    == notes.deep_view()[i],
        decreases offered.len() - k,
    {
        let name = offered[k].clone();
        let ghost before = found.deep_view();
        let ghost before_notes = notes.deep_view();
        proof {
            lemma_take_next(offered.deep_view(), k as int);
            lemma_push_contains(before, name@);
        }
        if !contains_text(found, name.as_str()) {
            match source.get_profile(name.as_str()) {
                Some(p) => {
                    found.push(name);
                    notes.push(p.description);
                    assert(found.deep_view() =~= before.push(name@));
                    assert(notes.deep_view() =~= before_notes.push(p.description@));
                },
                None => {},
            }
        }
        k += 1;
    }
    assert(offered.deep_view().take(offered.len() as int) =~= offered.deep_view());
}

/// A static source offers a name exactly when it is a static name, and then has a profile
/// for it.
pub proof fn lemma_static_names(n: Seq<char>)
    ensures
        static_names().contains(n) <==> (seq!["wordpress"@].contains(n) && wordpress_static(n)
            is Some) || (built_in_names().contains(n) && built_in(n) is Some),
{
    let wp = seq!["wordpress"@];
    let all = static_names();
    if all.contains(n) {
        let i = choose|i: int| 0 <= i < all.len() && all[i] == n;
        if i == 0 {
            assert(wp[0] == n);
        } else {
            assert(built_in_names()[i - 1] == n);
        }
    }
    if wp.contains(n) {
        assert(all[0] == n);
    }
    if built_in_names().contains(n) {
        let i = choose|i: int| 0 <= i < built_in_names().len() && built_in_names()[i] == n;
        assert(all[i + 1] == n);
        assert(built_in(n) is Some);
    }
}

} // verus!
