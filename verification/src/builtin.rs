//! The built-in profiles: a fixed registry of filter templates.

use vstd::prelude::*;
use crate::profiles::{new_profile, opt_profile, Profile, ProfilePlugin, ProfileView};
use crate::text::{owned_texts, text_eq};

verus! {

/// The registry of built-in profiles. It holds no state: every profile is a constant.
#[derive(Debug, Clone, Copy)]
pub struct BuiltInProfiles;

/// Extensions of the `nextjs-ts-prisma` profile.
pub open spec fn nextjs_extensions() -> Seq<Seq<char>> {
    seq![
        ".ts"@,
        ".tsx"@,
        ".js"@,
        ".jsx"@,
        ".json"@,
        ".css"@,
        ".scss"@,
        ".md"@,
        ".env"@,
        ".env.local"@,
        ".prisma"@,
    ]
}

/// File names of the `nextjs-ts-prisma` profile.
pub open spec fn nextjs_filenames() -> Seq<Seq<char>> {
    seq![
        "next.config.js"@,
        "tailwind.config.js"@,
        "postcss.config.js"@,
        "middleware.ts"@,
        "schema.prisma"@,
    ]
}

/// Extensions of the `cpp-cmake` profile.
pub open spec fn cpp_extensions() -> Seq<Seq<char>> {
    seq![".c"@, ".cpp"@, ".h"@, ".hpp"@, ".cmake"@, ".txt"@, ".md"@]
}

/// File names of the `cpp-cmake` profile.
pub open spec fn cpp_filenames() -> Seq<Seq<char>> {
    seq!["CMakeLists.txt"@]
}

/// Extensions of the `rust` profile.
pub open spec fn rust_extensions() -> Seq<Seq<char>> {
    seq![".rs"@, ".toml"@, ".md"@, ".yml"@, ".json"@]
}

/// File names of the `rust` profile.
pub open spec fn rust_filenames() -> Seq<Seq<char>> {
    seq!["Cargo.toml"@, "Cargo.lock"@]
}

/// The built-in profile under `name`, if there is one.
pub open spec fn built_in(name: Seq<char>) -> Option<ProfileView> {
    if name == "nextjs-ts-prisma"@ {
        Some(
            new_profile(
                "Next.js, TypeScript, Prisma project files."@,
                nextjs_extensions(),
                nextjs_filenames(),
            ),
        )
    } else if name == "cpp-cmake"@ {
        Some(new_profile("C/C++ and CMake project files."@, cpp_extensions(), cpp_filenames()))
    } else if name == "rust"@ {
        Some(new_profile("Rust project files."@, rust_extensions(), rust_filenames()))
    } else {
        None
    }
}

/// The names of the built-in profiles.
pub open spec fn built_in_names() -> Seq<Seq<char>> {
    seq!["cpp-cmake"@, "nextjs-ts-prisma"@, "rust"@]
}

impl BuiltInProfiles {
    /// The registry.
    pub fn new() -> (store: BuiltInProfiles) {
        BuiltInProfiles
    }
}

impl ProfilePlugin for BuiltInProfiles {
    open spec fn profile_named(&self, name: Seq<char>) -> Option<ProfileView> {
        built_in(name)
    }

    open spec fn profile_names(&self) -> Seq<Seq<char>> {
        built_in_names()
    }

    fn get_profile(&self, name: &str) -> (p: Option<Profile>)
        ensures
            opt_profile(p) == built_in(name@),
            p is Some ==> p->0.wf(),
    {
        if text_eq(name, "nextjs-ts-prisma") {
            let extensions: [&str; 11] = [
                ".ts",
                ".tsx",
                ".js",
                ".jsx",
                ".json",
                ".css",
                ".scss",
                ".md",
                ".env",
                ".env.local",
                ".prisma",
            ];
            let filenames: [&str; 5] = [
                "next.config.js",
                "tailwind.config.js",
                "postcss.config.js",
                "middleware.ts",
                "schema.prisma",
            ];
            let e = owned_texts(&extensions);
            let f = owned_texts(&filenames);
            assert(e.deep_view() =~= nextjs_extensions());
            assert(f.deep_view() =~= nextjs_filenames());
            Some(Profile::new("Next.js, TypeScript, Prisma project files.".to_owned(), e, f))
        } else if text_eq(name, "cpp-cmake") {
            let extensions: [&str; 7] = [".c", ".cpp", ".h", ".hpp", ".cmake", ".txt", ".md"];
            let filenames: [&str; 1] = ["CMakeLists.txt"];
            let e = owned_texts(&extensions);
            let f = owned_texts(&filenames);
            assert(e.deep_view() =~= cpp_extensions());
            assert(f.deep_view() =~= cpp_filenames());
            Some(Profile::new("C/C++ and CMake project files.".to_owned(), e, f))
        } else if text_eq(name, "rust") {
            let extensions: [&str; 5] = [".rs", ".toml", ".md", ".yml", ".json"];
            let filenames: [&str; 2] = ["Cargo.toml", "Cargo.lock"];
            let e = owned_texts(&extensions);
            let f = owned_texts(&filenames);
            assert(e.deep_view() =~= rust_extensions());
            assert(f.deep_view() =~= rust_filenames());
            Some(Profile::new("Rust project files.".to_owned(), e, f))
        } else {
            None
        }
    }

    fn list_profiles(&self) -> (names: Vec<String>) {
        let names: [&str; 3] = ["cpp-cmake", "nextjs-ts-prisma", "rust"];
        let out = owned_texts(&names);
        assert(out.deep_view() =~= built_in_names());
        out
    }
}

} // verus!
