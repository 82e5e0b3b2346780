//! The WordPress profile source: a conservative default profile, and a profile fitted to the
//! themes and plugins that a site actually holds.

use vstd::prelude::*;
use crate::profiles::{new_profile, opt_profile, Profile, ProfilePlugin, ProfileView};
use crate::text::{owned_texts, text_eq};

verus! {

/// The WordPress profile source.
#[derive(Debug, Clone, Copy)]
pub struct WordPressProfilePlugin;

/// The extensions that the default WordPress profile and the explicit one allow.
pub open spec fn wordpress_extensions() -> Seq<Seq<char>> {
    seq![
        ".php"@,
        ".js"@,
        ".css"@,
        ".scss"@,
        ".sass"@,
        ".less"@,
        ".html"@,
        ".htm"@,
        ".md"@,
        ".mdx"@,
        ".json"@,
        ".xml"@,
        ".yml"@,
        ".yaml"@,
        ".ini"@,
        ".env"@,
        ".env.local"@,
        ".env.development"@,
        ".env.production"@,
        ".txt"@,
    ]
}

/// The file names that the default WordPress profile allows.
pub open spec fn wordpress_filenames() -> Seq<Seq<char>> {
    seq![
        "wp-config.php"@,
        "wp-cli.yml"@,
        "composer.json"@,
        "package.json"@,
        "webpack.config.js"@,
        "tailwind.config.js"@,
        "postcss.config.js"@,
    ]
}

/// The default WordPress profile, which depends on no site.
pub open spec fn wordpress_default() -> ProfileView {
    new_profile(
        "WordPress site with active theme and plugins."@,
        wordpress_extensions(),
        wordpress_filenames(),
    )
}

/// The profile that the WordPress source has under `name` when no site is known.
pub open spec fn wordpress_static(name: Seq<char>) -> Option<ProfileView> {
    if name == "wordpress"@ {
        Some(wordpress_default())
    } else {
        None
    }
}

/// The extensions of the default and of the explicit WordPress profile.
pub(crate) fn wordpress_extension_list() -> (out: Vec<String>)
    ensures
        out.deep_view() == wordpress_extensions(),
{
    let extensions: [&str; 20] = [
        ".php",
        ".js",
        ".css",
        ".scss",
        ".sass",
        ".less",
        ".html",
        ".htm",
        ".md",
        ".mdx",
        ".json",
        ".xml",
        ".yml",
        ".yaml",
        ".ini",
        ".env",
        ".env.local",
        ".env.development",
        ".env.production",
        ".txt",
    ];
    let out = owned_texts(&extensions);
    assert(out.deep_view() =~= wordpress_extensions());
    out
}

impl WordPressProfilePlugin {
    /// Whether this source answers for `name`: it does for `wordpress` alone.
    pub fn supports(&self, name: &str) -> (r: bool)
        ensures
            r == (name@ == "wordpress"@),
            r == (wordpress_static(name@) is Some),
    {
        text_eq(name, "wordpress")
    }

    /// The default WordPress profile.
    pub fn create_wordpress_profile() -> (p: Profile)
        ensures
            p@ == wordpress_default(),
            p.wf(),
    {
        let filenames: [&str; 7] = [
            "wp-config.php",
            "wp-cli.yml",
            "composer.json",
            "package.json",
            "webpack.config.js",
            "tailwind.config.js",
            "postcss.config.js",
        ];
        let f = owned_texts(&filenames);
        assert(f.deep_view() =~= wordpress_filenames());
        Profile::new(
            "WordPress site with active theme and plugins.".to_owned(),
            wordpress_extension_list(),
            f,
        )
    }
}

impl ProfilePlugin for WordPressProfilePlugin {
    open spec fn profile_named(&self, name: Seq<char>) -> Option<ProfileView> {
        wordpress_static(name)
    }

    open spec fn profile_names(&self) -> Seq<Seq<char>> {
        seq!["wordpress"@]
    }

    fn get_profile(&self, name: &str) -> (p: Option<Profile>)
        ensures
            opt_profile(p) == wordpress_static(name@),
            p is Some ==> p->0.wf(),
    {
        if !text_eq(name, "wordpress") {
            return None;
        }
        Some(Self::create_wordpress_profile())
    }

    fn list_profiles(&self) -> (names: Vec<String>) {
        let names: [&str; 1] = ["wordpress"];
        let out = owned_texts(&names);
        assert(out.deep_view() =~= seq!["wordpress"@]);
        out
    }
}

} // verus!
