//! The configuration file's content: run-wide defaults and user-defined profiles.

use vstd::prelude::*;
use crate::text::{clone_opt_text, clone_opt_texts, opt_text, opt_texts};

verus! {

/// A user-defined profile: any part of a profile may be left out, and `extends` may name a
/// parent whose settings the profile inherits. It is not usable until it has been resolved.
#[derive(Debug)]
pub struct CustomProfile {
    pub description: Option<String>,
    /// The name of the profile this one extends: a built-in one or another custom one.
    pub extends: Option<String>,
    pub extensions: Option<Vec<String>>,
    pub allowed_filenames: Option<Vec<String>>,
    pub include_globs: Option<Vec<String>>,
    pub markdown: Option<bool>,
    /// Largest file to read, in bytes.
    pub max_size: Option<u64>,
    pub gpt4_tokens: Option<bool>,
    pub include_git_changes: Option<bool>,
    pub no_staged_diff: Option<bool>,
    pub no_unstaged_diff: Option<bool>,
    pub include_dirs: Option<Vec<String>>,
    pub exclude_dirs: Option<Vec<String>>,
    pub exclude_patterns: Option<Vec<String>>,
    pub include_patterns: Option<Vec<String>>,
    pub exclude_globs: Option<Vec<String>>,
    pub exclude_node_modules: Option<bool>,
    pub exclude_build_dirs: Option<bool>,
    pub exclude_hidden_dirs: Option<bool>,
    pub max_depth: Option<usize>,
}

/// What a [`CustomProfile`] holds, with every string as its characters.
pub struct CustomProfileView {
    pub description: Option<Seq<char>>,
    pub extends: Option<Seq<char>>,
    pub extensions: Option<Seq<Seq<char>>>,
    pub allowed_filenames: Option<Seq<Seq<char>>>,
    pub include_globs: Option<Seq<Seq<char>>>,
    pub markdown: Option<bool>,
    pub max_size: Option<u64>,
    pub gpt4_tokens: Option<bool>,
    pub include_git_changes: Option<bool>,
    pub no_staged_diff: Option<bool>,
    pub no_unstaged_diff: Option<bool>,
    pub include_dirs: Option<Seq<Seq<char>>>,
    pub exclude_dirs: Option<Seq<Seq<char>>>,
    pub exclude_patterns: Option<Seq<Seq<char>>>,
    pub include_patterns: Option<Seq<Seq<char>>>,
    pub exclude_globs: Option<Seq<Seq<char>>>,
    pub exclude_node_modules: Option<bool>,
    pub exclude_build_dirs: Option<bool>,
    pub exclude_hidden_dirs: Option<bool>,
    pub max_depth: Option<usize>,
}

impl View for CustomProfile {
    type V = CustomProfileView;

    open spec fn view(&self) -> CustomProfileView {
        CustomProfileView {
            description: opt_text(self.description),
            extends: opt_text(self.extends),
            extensions: opt_texts(self.extensions),
            allowed_filenames: opt_texts(self.allowed_filenames),
            include_globs: opt_texts(self.include_globs),
            markdown: self.markdown,
            max_size: self.max_size,
            gpt4_tokens: self.gpt4_tokens,
            include_git_changes: self.include_git_changes,
            no_staged_diff: self.no_staged_diff,
            no_unstaged_diff: self.no_unstaged_diff,
            include_dirs: opt_texts(self.include_dirs),
            exclude_dirs: opt_texts(self.exclude_dirs),
            exclude_patterns: opt_texts(self.exclude_patterns),
            include_patterns: opt_texts(self.include_patterns),
            exclude_globs: opt_texts(self.exclude_globs),
            exclude_node_modules: self.exclude_node_modules,
            exclude_build_dirs: self.exclude_build_dirs,
            exclude_hidden_dirs: self.exclude_hidden_dirs,
            max_depth: self.max_depth,
        }
    }
}

impl CustomProfile {
    /// A copy of the definition.
    pub fn duplicate(&self) -> (out: CustomProfile)
        ensures
            out@ == self@,
    {
        CustomProfile {
            description: clone_opt_text(&self.description),
            extends: clone_opt_text(&self.extends),
            extensions: clone_opt_texts(&self.extensions),
            allowed_filenames: clone_opt_texts(&self.allowed_filenames),
            include_globs: clone_opt_texts(&self.include_globs),
            markdown: self.markdown,
            max_size: self.max_size,
            gpt4_tokens: self.gpt4_tokens,
            include_git_changes: self.include_git_changes,
            no_staged_diff: self.no_staged_diff,
            no_unstaged_diff: self.no_unstaged_diff,
            include_dirs: clone_opt_texts(&self.include_dirs),
            exclude_dirs: clone_opt_texts(&self.exclude_dirs),
            exclude_patterns: clone_opt_texts(&self.exclude_patterns),
            include_patterns: clone_opt_texts(&self.include_patterns),
            exclude_globs: clone_opt_texts(&self.exclude_globs),
            exclude_node_modules: self.exclude_node_modules,
            exclude_build_dirs: self.exclude_build_dirs,
            exclude_hidden_dirs: self.exclude_hidden_dirs,
            max_depth: self.max_depth,
        }
    }
}

impl Default for CustomProfile {
    /// A definition that sets nothing and extends nothing.
    fn default() -> (out: CustomProfile)
        ensures
            out@ == (CustomProfileView {
                description: None,
                extends: None,
                extensions: None,
                allowed_filenames: None,
                include_globs: None,
                markdown: None,
                max_size: None,
                gpt4_tokens: None,
                include_git_changes: None,
                no_staged_diff: None,
                no_unstaged_diff: None,
                include_dirs: None,
                exclude_dirs: None,
                exclude_patterns: None,
                include_patterns: None,
                exclude_globs: None,
                exclude_node_modules: None,
                exclude_build_dirs: None,
                exclude_hidden_dirs: None,
                max_depth: None,
            }),
    {
        CustomProfile {
            description: None,
            extends: None,
            extensions: None,
            allowed_filenames: None,
            include_globs: None,
            markdown: None,
            max_size: None,
            gpt4_tokens: None,
            include_git_changes: None,
            no_staged_diff: None,
            no_unstaged_diff: None,
            include_dirs: None,
            exclude_dirs: None,
            exclude_patterns: None,
            include_patterns: None,
            exclude_globs: None,
            exclude_node_modules: None,
            exclude_build_dirs: None,
            exclude_hidden_dirs: None,
            max_depth: None,
        }
    }
}

impl Clone for CustomProfile {
    fn clone(&self) -> (out: CustomProfile)
        ensures
            out@ == self@,
    {
        self.duplicate()
    }
}

/// The configuration file: defaults for a run, and the custom profiles.
#[derive(Debug)]
pub struct ConfigFile {
    pub profile: Option<String>,
    pub extensions: Option<Vec<String>>,
    pub allowed_filenames: Option<Vec<String>>,
    /// Largest file to read, in bytes.
    pub max_size: Option<u64>,
    pub markdown: Option<bool>,
    pub gpt4_tokens: Option<bool>,
    pub include_git_changes: Option<bool>,
    pub no_staged_diff: Option<bool>,
    pub no_unstaged_diff: Option<bool>,
    pub include_dirs: Option<Vec<String>>,
    pub exclude_dirs: Option<Vec<String>>,
    pub exclude_patterns: Option<Vec<String>>,
    pub include_patterns: Option<Vec<String>>,
    pub exclude_globs: Option<Vec<String>>,
    pub include_globs: Option<Vec<String>>,
    pub exclude_node_modules: Option<bool>,
    pub exclude_build_dirs: Option<bool>,
    pub exclude_hidden_dirs: Option<bool>,
    pub max_depth: Option<usize>,
    /// The custom profiles, each under its name.
    pub profiles: Option<Vec<(String, CustomProfile)>>,
}

/// What a [`ConfigFile`] holds, with every string as its characters.
pub struct ConfigFileView {
    pub profile: Option<Seq<char>>,
    pub extensions: Option<Seq<Seq<char>>>,
    pub allowed_filenames: Option<Seq<Seq<char>>>,
    pub max_size: Option<u64>,
    pub markdown: Option<bool>,
    pub gpt4_tokens: Option<bool>,
    pub include_git_changes: Option<bool>,
    pub no_staged_diff: Option<bool>,
    pub no_unstaged_diff: Option<bool>,
    pub include_dirs: Option<Seq<Seq<char>>>,
    pub exclude_dirs: Option<Seq<Seq<char>>>,
    pub exclude_patterns: Option<Seq<Seq<char>>>,
    pub include_patterns: Option<Seq<Seq<char>>>,
    pub exclude_globs: Option<Seq<Seq<char>>>,
    pub include_globs: Option<Seq<Seq<char>>>,
    pub exclude_node_modules: Option<bool>,
    pub exclude_build_dirs: Option<bool>,
    pub exclude_hidden_dirs: Option<bool>,
    pub max_depth: Option<usize>,
    pub profiles: Option<Seq<CustomEntry>>,
}

impl View for ConfigFile {
    type V = ConfigFileView;

    open spec fn view(&self) -> ConfigFileView {
        ConfigFileView {
            profile: opt_text(self.profile),
            extensions: opt_texts(self.extensions),
            allowed_filenames: opt_texts(self.allowed_filenames),
            max_size: self.max_size,
            markdown: self.markdown,
            gpt4_tokens: self.gpt4_tokens,
            include_git_changes: self.include_git_changes,
            no_staged_diff: self.no_staged_diff,
            no_unstaged_diff: self.no_unstaged_diff,
            include_dirs: opt_texts(self.include_dirs),
            exclude_dirs: opt_texts(self.exclude_dirs),
            exclude_patterns: opt_texts(self.exclude_patterns),
            include_patterns: opt_texts(self.include_patterns),
            exclude_globs: opt_texts(self.exclude_globs),
            include_globs: opt_texts(self.include_globs),
            exclude_node_modules: self.exclude_node_modules,
            exclude_build_dirs: self.exclude_build_dirs,
            exclude_hidden_dirs: self.exclude_hidden_dirs,
            max_depth: self.max_depth,
            profiles: match self.profiles {
                Some(list) => Some(entries_of(list@)),
                None => None,
            },
        }
    }
}

impl Default for ConfigFile {
    /// A configuration that sets nothing.
    fn default() -> (out: ConfigFile)
        ensures
            out@ == (ConfigFileView {
                profile: None,
                extensions: None,
                allowed_filenames: None,
                max_size: None,
                markdown: None,
                gpt4_tokens: None,
                include_git_changes: None,
                no_staged_diff: None,
                no_unstaged_diff: None,
                include_dirs: None,
                exclude_dirs: None,
                exclude_patterns: None,
                include_patterns: None,
                exclude_globs: None,
                include_globs: None,
                exclude_node_modules: None,
                exclude_build_dirs: None,
                exclude_hidden_dirs: None,
                max_depth: None,
                profiles: None,
            }),
    {
        ConfigFile {
            profile: None,
            extensions: None,
            allowed_filenames: None,
            max_size: None,
            markdown: None,
            gpt4_tokens: None,
            include_git_changes: None,
            no_staged_diff: None,
            no_unstaged_diff: None,
            include_dirs: None,
            exclude_dirs: None,
            exclude_patterns: None,
            include_patterns: None,
            exclude_globs: None,
            include_globs: None,
            exclude_node_modules: None,
            exclude_build_dirs: None,
            exclude_hidden_dirs: None,
            max_depth: None,
            profiles: None,
        }
    }
}

/// A named custom profile, with every string as its characters.
pub struct CustomEntry {
    pub name: Seq<char>,
    pub def: CustomProfileView,
}

/// The entries of a list of named custom profiles, in order.
pub open spec fn entries_of(list: Seq<(String, CustomProfile)>) -> Seq<CustomEntry> {
    Seq::new(list.len(), |i: int| CustomEntry { name: list[i].0@, def: list[i].1@ })
}

/// The names of a list of entries, in order.
pub open spec fn names(entries: Seq<CustomEntry>) -> Seq<Seq<char>> {
    Seq::new(entries.len(), |i: int| entries[i].name)
}

} // verus!
