//! Profiles: named bundles of file-selection rules, and how a child is merged over its parent.

use vstd::prelude::*;
pub use crate::manager::ProfileManager;
use crate::text::{
    append_new, chars_of, clone_opt_texts, clone_texts, dedup, dedup_texts, extended, joined,
    lemma_dedup_no_duplicates, lemma_extended_is_dedup, opt_texts,
};

verus! {

/// A fully resolved profile.
#[derive(Debug)]
pub struct Profile {
    pub description: String,
    pub allowed_extensions: Vec<String>,
    pub allowed_filenames: Vec<String>,
    pub include_globs: Vec<String>,
    pub markdown: Option<bool>,
    /// Largest file to read, in bytes.
    pub max_size: Option<u64>,
    pub gpt4_tokens: Option<bool>,
    pub include_git_changes: Option<bool>,
    pub no_staged_diff: Option<bool>,
    pub no_unstaged_diff: Option<bool>,
    pub include_dirs: Option<Vec<String>>,
    pub exclude_dirs: Option<Vec<String>>,
    pub exclude_patterns: Option<Vec<String>>,
    pub include_patterns: Option<Vec<String>>,
    pub exclude_globs: Option<Vec<String>>,
    pub exclude_node_modules: Option<bool>,
    pub exclude_build_dirs: Option<bool>,
    pub exclude_hidden_dirs: Option<bool>,
    pub max_depth: Option<usize>,
}

/// What a [`Profile`] holds, with every string as its characters.
pub struct ProfileView {
    pub description: Seq<char>,
    pub allowed_extensions: Seq<Seq<char>>,
    pub allowed_filenames: Seq<Seq<char>>,
    pub include_globs: Seq<Seq<char>>,
    pub markdown: Option<bool>,
    pub max_size: Option<u64>,
    pub gpt4_tokens: Option<bool>,
    pub include_git_changes: Option<bool>,
    pub no_staged_diff: Option<bool>,
    pub no_unstaged_diff: Option<bool>,
    pub include_dirs: Option<Seq<Seq<char>>>,
    pub exclude_dirs: Option<Seq<Seq<char>>>,
    pub exclude_patterns: Option<Seq<Seq<char>>>,
    pub include_patterns: Option<Seq<Seq<char>>>,
    pub exclude_globs: Option<Seq<Seq<char>>>,
    pub exclude_node_modules: Option<bool>,
    pub exclude_build_dirs: Option<bool>,
    pub exclude_hidden_dirs: Option<bool>,
    pub max_depth: Option<usize>,
}

impl View for Profile {
    type V = ProfileView;

    open spec fn view(&self) -> ProfileView {
        ProfileView {
            description: self.description@,
            allowed_extensions: self.allowed_extensions.deep_view(),
            allowed_filenames: self.allowed_filenames.deep_view(),
            include_globs: self.include_globs.deep_view(),
            markdown: self.markdown,
            max_size: self.max_size,
            gpt4_tokens: self.gpt4_tokens,
            include_git_changes: self.include_git_changes,
            no_staged_diff: self.no_staged_diff,
            no_unstaged_diff: self.no_unstaged_diff,
            include_dirs: opt_texts(self.include_dirs),
            exclude_dirs: opt_texts(self.exclude_dirs),
            exclude_patterns: opt_texts(self.exclude_patterns),
            include_patterns: opt_texts(self.include_patterns),
            exclude_globs: opt_texts(self.exclude_globs),
            exclude_node_modules: self.exclude_node_modules,
            exclude_build_dirs: self.exclude_build_dirs,
            exclude_hidden_dirs: self.exclude_hidden_dirs,
            max_depth: self.max_depth,
        }
    }
}

/// The view of an optional profile.
pub open spec fn opt_profile(p: Option<Profile>) -> Option<ProfileView> {
    match p {
        Some(p) => Some(p@),
        None => None,
    }
}

/// A source of profiles: it answers for a name, and lists the names it offers.
pub trait ProfilePlugin {
    /// The profile that this source has under `name`.
    spec fn profile_named(&self, name: Seq<char>) -> Option<ProfileView>;

    /// The names that this source offers.
    spec fn profile_names(&self) -> Seq<Seq<char>>;

    /// The profile under `name`, where the source has one.
    fn get_profile(&self, name: &str) -> (p: Option<Profile>)
        ensures
            opt_profile(p) == self.profile_named(name@),
    ;

    /// The names that the source offers.
    fn list_profiles(&self) -> (names: Vec<String>)
        ensures
            names.deep_view() == self.profile_names(),
    ;
}

/// An extension in its leading-dot form: `rs` becomes `.rs`, `.rs` stays.
pub open spec fn dotted(e: Seq<char>) -> Seq<char> {
    if e.len() > 0 && e[0] == '.' {
        e
    } else {
        seq!['.'] + e
    }
}

/// Every extension of a list in its leading-dot form.
pub open spec fn dotted_all(list: Seq<Seq<char>>) -> Seq<Seq<char>> {
    Seq::new(list.len(), |i: int| dotted(list[i]))
}

/// The child's value where it has one, else the parent's.
pub open spec fn inherit<T>(child: Option<T>, parent: Option<T>) -> Option<T> {
    if child is Some {
        child
    } else {
        parent
    }
}

/// The profile with the given description, extensions and file names and nothing else set:
/// extensions are put in leading-dot form, and repetitions are dropped from both lists.
pub open spec fn new_profile(
    description: Seq<char>,
    extensions: Seq<Seq<char>>,
    filenames: Seq<Seq<char>>,
) -> ProfileView {
    ProfileView {
        description: description,
        allowed_extensions: dedup(dotted_all(extensions)),
        allowed_filenames: dedup(filenames),
        include_globs: Seq::empty(),
        markdown: None,
        max_size: None,
        gpt4_tokens: None,
        include_git_changes: None,
        no_staged_diff: None,
        no_unstaged_diff: None,
        include_dirs: None,
        exclude_dirs: None,
        exclude_patterns: None,
        include_patterns: None,
        exclude_globs: None,
        exclude_node_modules: None,
        exclude_build_dirs: None,
        exclude_hidden_dirs: None,
        max_depth: None,
    }
}

/// The merge rule. The three lists are the parent's followed by the child's, first occurrences
/// only; every optional setting is the child's where it has one, else the parent's; the
/// description is the child's.
pub open spec fn merge(parent: ProfileView, child: ProfileView) -> ProfileView {
    ProfileView {
        description: child.description,
        allowed_extensions: dedup(parent.allowed_extensions + child.allowed_extensions),
        allowed_filenames: dedup(parent.allowed_filenames + child.allowed_filenames),
        include_globs: dedup(parent.include_globs + child.include_globs),
        markdown: inherit(child.markdown, parent.markdown),
        max_size: inherit(child.max_size, parent.max_size),
        gpt4_tokens: inherit(child.gpt4_tokens, parent.gpt4_tokens),
        include_git_changes: inherit(child.include_git_changes, parent.include_git_changes),
        no_staged_diff: inherit(child.no_staged_diff, parent.no_staged_diff),
        no_unstaged_diff: inherit(child.no_unstaged_diff, parent.no_unstaged_diff),
        include_dirs: inherit(child.include_dirs, parent.include_dirs),
        exclude_dirs: inherit(child.exclude_dirs, parent.exclude_dirs),
        exclude_patterns: inherit(child.exclude_patterns, parent.exclude_patterns),
        include_patterns: inherit(child.include_patterns, parent.include_patterns),
        exclude_globs: inherit(child.exclude_globs, parent.exclude_globs),
        exclude_node_modules: inherit(child.exclude_node_modules, parent.exclude_node_modules),
        exclude_build_dirs: inherit(child.exclude_build_dirs, parent.exclude_build_dirs),
        exclude_hidden_dirs: inherit(child.exclude_hidden_dirs, parent.exclude_hidden_dirs),
        max_depth: inherit(child.max_depth, parent.max_depth),
    }
}

/// The invariant of a profile: no list names anything twice, and every extension starts with a
/// dot.
pub open spec fn well_formed(p: ProfileView) -> bool {
    &&& p.allowed_extensions.no_duplicates()
    &&& p.allowed_filenames.no_duplicates()
    &&& p.include_globs.no_duplicates()
    &&& forall|i: int|
        0 <= i < p.allowed_extensions.len() ==> dotted(#[trigger] p.allowed_extensions[i])
            == p.allowed_extensions[i]
}

/// An extension in its leading-dot form.
pub fn normalize_extension(e: &str) -> (out: String)
    ensures
        out@ == dotted(e@),
{
    let cs = chars_of(e);
    if cs.len() > 0 && cs[0] == '.' {
        e.to_owned()
    } else {
        proof {
            reveal_strlit(".");
            assert("."@ =~= seq!['.']);
        }
        joined(".", e)
    }
}

/// Every extension of a list in its leading-dot form.
pub fn normalize_extensions(list: &Vec<String>) -> (out: Vec<String>)
    ensures
        out.deep_view() == dotted_all(list.deep_view()),
{
    let mut out: Vec<String> = Vec::new();
    let mut i: usize = 0;
    while i < list.len()
        invariant
            i <= list.len(),
            out.deep_view() == dotted_all(list.deep_view()).take(i as int),
        decreases list.len() - i,
    {
        let ghost before = out.deep_view();
        let e = normalize_extension(list[i].as_str());
        out.push(e);
        assert(out.deep_view() =~= before.push(e@));
        i += 1;
        assert(dotted_all(list.deep_view()).take(i as int) =~= before.push(e@));
    }
    assert(dotted_all(list.deep_view()).take(list.len() as int) =~= dotted_all(
        list.deep_view(),
    ));
    out
}

/// The child's list where it has one, else the parent's.
fn inherit_texts(child: &Option<Vec<String>>, parent: &Option<Vec<String>>) -> (out: Option<
    Vec<String>,
>)
    ensures
        opt_texts(out) == inherit(opt_texts(*child), opt_texts(*parent)),
{
    match child {
        Some(_) => clone_opt_texts(child),
        None => clone_opt_texts(parent),
    }
}

/// The child's setting where it has one, else the parent's.
fn inherit_flag(child: Option<bool>, parent: Option<bool>) -> (out: Option<bool>)
    ensures
        out == inherit(child, parent),
{
    match child {
        Some(_) => child,
        None => parent,
    }
}

impl Profile {
    /// Whether the profile meets its invariant.
    pub open spec fn wf(&self) -> bool {
        well_formed(self@)
    }

    /// A profile with a description, extensions and file names, and nothing else set.
    pub fn new(
        description: String,
        allowed_extensions: Vec<String>,
        allowed_filenames: Vec<String>,
    ) -> (p: Profile)
        ensures
            p@ == new_profile(
                description@,
                allowed_extensions.deep_view(),
                allowed_filenames.deep_view(),
            ),
            p.wf(),
    {
        let dotted_extensions = normalize_extensions(&allowed_extensions);
        let extensions = dedup_texts(&dotted_extensions);
        let filenames = dedup_texts(&allowed_filenames);
        let include_globs: Vec<String> = Vec::new();
        proof {
            lemma_new_profile_well_formed(
                description@,
                allowed_extensions.deep_view(),
                allowed_filenames.deep_view(),
            );
            assert(include_globs.deep_view() =~= Seq::<Seq<char>>::empty());
        }
        Profile {
            description,
            allowed_extensions: extensions,
            allowed_filenames: filenames,
            include_globs,
            markdown: None,
            max_size: None,
            gpt4_tokens: None,
            include_git_changes: None,
            no_staged_diff: None,
            no_unstaged_diff: None,
            include_dirs: None,
            exclude_dirs: None,
            exclude_patterns: None,
            include_patterns: None,
            exclude_globs: None,
            exclude_node_modules: None,
            exclude_build_dirs: None,
            exclude_hidden_dirs: None,
            max_depth: None,
        }
    }

    /// Merges this profile, the parent, with a child: lists are united in parent-then-child
    /// order without repetitions, and the child's settings override the parent's.
    pub fn merge_with(&self, child: &Profile) -> (merged: Profile)
        ensures
            merged@ == merge(self@, child@),
            merged@.allowed_extensions.no_duplicates(),
            merged@.allowed_filenames.no_duplicates(),
            merged@.include_globs.no_duplicates(),
            self.wf() && child.wf() ==> merged.wf(),
    {
        proof {
            lemma_merge_no_duplicates(self@, child@);
            if self.wf() && child.wf() {
                lemma_merge_well_formed(self@, child@);
            }
        }
        let mut extensions: Vec<String> = Vec::new();
        let mut filenames: Vec<String> = Vec::new();
        let mut globs: Vec<String> = Vec::new();
        proof {
            let none = Seq::<Seq<char>>::empty();
            assert(extensions.deep_view() =~= none);
            assert(filenames.deep_view() =~= none);
            assert(globs.deep_view() =~= none);
            lemma_joined_dedup(self@.allowed_extensions, child@.allowed_extensions);
            lemma_joined_dedup(self@.allowed_filenames, child@.allowed_filenames);
            lemma_joined_dedup(self@.include_globs, child@.include_globs);
        }
        append_new(&mut extensions, &self.allowed_extensions);
        append_new(&mut extensions, &child.allowed_extensions);
        append_new(&mut filenames, &self.allowed_filenames);
        append_new(&mut filenames, &child.allowed_filenames);
        append_new(&mut globs, &self.include_globs);
        append_new(&mut globs, &child.include_globs);
        Profile {
            description: child.description.clone(),
            allowed_extensions: extensions,
            allowed_filenames: filenames,
            include_globs: globs,
            markdown: inherit_flag(child.markdown, self.markdown),
            max_size: match child.max_size {
                Some(_) => child.max_size,
                None => self.max_size,
            },
            gpt4_tokens: inherit_flag(child.gpt4_tokens, self.gpt4_tokens),
            include_git_changes: inherit_flag(child.include_git_changes, self.include_git_changes),
            no_staged_diff: inherit_flag(child.no_staged_diff, self.no_staged_diff),
            no_unstaged_diff: inherit_flag(child.no_unstaged_diff, self.no_unstaged_diff),
            include_dirs: inherit_texts(&child.include_dirs, &self.include_dirs),
            exclude_dirs: inherit_texts(&child.exclude_dirs, &self.exclude_dirs),
            exclude_patterns: inherit_texts(&child.exclude_patterns, &self.exclude_patterns),
            include_patterns: inherit_texts(&child.include_patterns, &self.include_patterns),
            exclude_globs: inherit_texts(&child.exclude_globs, &self.exclude_globs),
            exclude_node_modules: inherit_flag(
                child.exclude_node_modules,
                self.exclude_node_modules,
            ),
            exclude_build_dirs: inherit_flag(child.exclude_build_dirs, self.exclude_build_dirs),
            exclude_hidden_dirs: inherit_flag(child.exclude_hidden_dirs, self.exclude_hidden_dirs),
            max_depth: match child.max_depth {
                Some(_) => child.max_depth,
                None => self.max_depth,
            },
        }
    }

    /// A copy of the profile.
    pub fn duplicate(&self) -> (p: Profile)
        ensures
            p@ == self@,
    {
        Profile {
            description: self.description.clone(),
            allowed_extensions: clone_texts(&self.allowed_extensions),
            allowed_filenames: clone_texts(&self.allowed_filenames),
            include_globs: clone_texts(&self.include_globs),
            markdown: self.markdown,
            max_size: self.max_size,
            gpt4_tokens: self.gpt4_tokens,
            include_git_changes: self.include_git_changes,
            no_staged_diff: self.no_staged_diff,
            no_unstaged_diff: self.no_unstaged_diff,
            include_dirs: clone_opt_texts(&self.include_dirs),
            exclude_dirs: clone_opt_texts(&self.exclude_dirs),
            exclude_patterns: clone_opt_texts(&self.exclude_patterns),
            include_patterns: clone_opt_texts(&self.include_patterns),
            exclude_globs: clone_opt_texts(&self.exclude_globs),
            exclude_node_modules: self.exclude_node_modules,
            exclude_build_dirs: self.exclude_build_dirs,
            exclude_hidden_dirs: self.exclude_hidden_dirs,
            max_depth: self.max_depth,
        }
    }
}

impl Clone for Profile {
    fn clone(&self) -> (p: Profile)
        ensures
            p@ == self@,
    {
        self.duplicate()
    }
}

/// Extending the empty list by `a` and then by `b` removes the repetitions of `a` joined
/// with `b`.
pub proof fn lemma_joined_dedup(a: Seq<Seq<char>>, b: Seq<Seq<char>>)
    ensures
        extended(extended(Seq::empty(), a), b) == dedup(a + b),
{
    let none = Seq::<Seq<char>>::empty();
    assert(dedup(none) =~= none);
    lemma_extended_is_dedup(none, a);
    assert(none + a =~= a);
    lemma_dedup_idempotent(a);
    lemma_extended_is_dedup(dedup(a), b);
    crate::text::lemma_dedup_left(a, b);
}

/// Removing repetitions twice is removing them once.
pub proof fn lemma_dedup_idempotent(s: Seq<Seq<char>>)
    ensures
        dedup(dedup(s)) == dedup(s),
{
    lemma_dedup_no_duplicates(s);
    crate::text::lemma_dedup_fixed(dedup(s));
}

/// The leading-dot form of an extension is its own leading-dot form.
pub proof fn lemma_dotted_fixed(e: Seq<char>)
    ensures
        dotted(dotted(e)) == dotted(e),
{
    if !(e.len() > 0 && e[0] == '.') {
        assert((seq!['.'] + e)[0] == '.');
    }
}

/// Every element of `dedup(s)` is an element of `s`, so a property of all of `s` holds of all
/// of `dedup(s)`.
pub proof fn lemma_dedup_elements(s: Seq<Seq<char>>, i: int)
    requires
        0 <= i < dedup(s).len(),
    ensures
        s.contains(dedup(s)[i]),
{
    crate::text::lemma_dedup_contains(s, dedup(s)[i]);
}

/// A freshly built profile meets the invariant.
pub proof fn lemma_new_profile_well_formed(
    description: Seq<char>,
    extensions: Seq<Seq<char>>,
    filenames: Seq<Seq<char>>,
)
    ensures
        well_formed(new_profile(description, extensions, filenames)),
{
    let p = new_profile(description, extensions, filenames);
    lemma_dedup_no_duplicates(dotted_all(extensions));
    lemma_dedup_no_duplicates(filenames);
    assert forall|i: int| 0 <= i < p.allowed_extensions.len() implies dotted(
        #[trigger] p.allowed_extensions[i],
    ) == p.allowed_extensions[i] by {
        lemma_dedup_elements(dotted_all(extensions), i);
        let e = p.allowed_extensions[i];
        let j = choose|j: int|
            0 <= j < dotted_all(extensions).len() && dotted_all(extensions)[j] == e;
        lemma_dotted_fixed(extensions[j]);
    }
}

/// Merging keeps the invariant: the merge of two well-formed profiles is well formed.
pub proof fn lemma_merge_well_formed(parent: ProfileView, child: ProfileView)
    requires
        well_formed(parent),
        well_formed(child),
    ensures
        well_formed(merge(parent, child)),
{
    let m = merge(parent, child);
    let all = parent.allowed_extensions + child.allowed_extensions;
    lemma_dedup_no_duplicates(all);
    lemma_dedup_no_duplicates(parent.allowed_filenames + child.allowed_filenames);
    lemma_dedup_no_duplicates(parent.include_globs + child.include_globs);
    assert forall|i: int| 0 <= i < m.allowed_extensions.len() implies dotted(
        #[trigger] m.allowed_extensions[i],
    ) == m.allowed_extensions[i] by {
        lemma_dedup_elements(all, i);
        let e = m.allowed_extensions[i];
        let j = choose|j: int| 0 <= j < all.len() && all[j] == e;
        if j < parent.allowed_extensions.len() {
            assert(all[j] == parent.allowed_extensions[j]);
        } else {
            assert(all[j] == child.allowed_extensions[j - parent.allowed_extensions.len()]);
        }
    }
}

/// The lists of a merge never name anything twice, whatever was merged.
pub proof fn lemma_merge_no_duplicates(parent: ProfileView, child: ProfileView)
    ensures
        merge(parent, child).allowed_extensions.no_duplicates(),
        merge(parent, child).allowed_filenames.no_duplicates(),
        merge(parent, child).include_globs.no_duplicates(),
{
    lemma_dedup_no_duplicates(parent.allowed_extensions + child.allowed_extensions);
    lemma_dedup_no_duplicates(parent.allowed_filenames + child.allowed_filenames);
    lemma_dedup_no_duplicates(parent.include_globs + child.include_globs);
}

/// Merging is associative: a chain may be folded from either end.
pub proof fn law_merge_associative(a: ProfileView, b: ProfileView, c: ProfileView)
    ensures
        merge(merge(a, b), c) == merge(a, merge(b, c)),
{
    lemma_dedup_chain(a.allowed_extensions, b.allowed_extensions, c.allowed_extensions);
    lemma_dedup_chain(a.allowed_filenames, b.allowed_filenames, c.allowed_filenames);
    lemma_dedup_chain(a.include_globs, b.include_globs, c.include_globs);
}

/// Removing repetitions from three joined lists gives the same whichever two are joined first.
pub proof fn lemma_dedup_chain(a: Seq<Seq<char>>, b: Seq<Seq<char>>, c: Seq<Seq<char>>)
    ensures
        dedup(dedup(a + b) + c) == dedup(a + dedup(b + c)),
{
    crate::text::lemma_dedup_left(a + b, c);
    crate::text::lemma_dedup_right(a, b + c);
    assert((a + b) + c =~= a + (b + c));
}

} // verus!
