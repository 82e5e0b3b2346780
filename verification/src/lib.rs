//! Selects, from directory trees, the files that belong to a task and bundles their text.
//!
//! A run is governed by its options ([`options::Args`]). A profile, a named bundle of selection
//! rules, fills in what the options leave open: the [`manager::ProfileManager`] resolves a
//! profile name through the `extends` chain of the custom profiles of the configuration, down
//! to the built-in profiles, and the [`probe`] fits the WordPress profile to the site at hand.
//! The [`filter`] pipeline then decides on every entry of the walk, and the [`aggregate`]
//! module collects what was selected.
//!
//! The library reads no file and runs no command. Whatever it has to know of the world is
//! handed to it as plain values, and where it needs more it says so.
//!
//! Every function carries a contract, stated over the characters of the strings involved, and
//! every contract is proved. What is taken on trust is named as such where it stands: the
//! glob matching of the `glob` crate, the JSON reading of `serde_json`, the tokenizer of
//! `tiktoken-rs`, and three functions of the standard library on strings.
//!
//! What holds of the library as a whole is stated in proof functions whose names begin with
//! `law_`: a chain of profiles is folded from its root, merging is associative, and a resolved
//! profile names nothing twice ([`laws`], [`profiles`]); an ignore pattern wins over every
//! include glob, and strict inclusion rejects the files of every package that was not
//! selected ([`filter`]); the order of a walk matters neither to what is selected nor to
//! the blocks of the bundle, only to their order ([`aggregate`]); a profile without globs
//! restricts nothing ([`run`]); and the probe asks only for what it does not know, asks
//! nothing of the site where the selection is explicit, and always ends with a profile
//! ([`probe`]).

pub mod aggregate;
pub mod builtin;
pub mod config;
pub mod filter;
pub mod globs;
pub mod inventory;
pub mod laws;
pub mod manager;
pub mod options;
pub mod paths;
pub mod probe;
pub mod profiles;
pub mod run;
pub mod text;
pub mod wordpress_profile;

pub use crate::options::Args;
