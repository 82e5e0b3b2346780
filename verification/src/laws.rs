//! Laws of profile resolution, proved from the definitions that the manager's contracts use.

use vstd::prelude::*;
use crate::config::{names, CustomEntry};
use crate::manager::{child_profile, resolve_among, resolve_profile, static_profile};
use crate::profiles::{lemma_merge_well_formed, lemma_new_profile_well_formed, merge, well_formed};
use crate::text::{first_index, lemma_dedup_no_duplicates, lemma_first_index};

verus! {

/// Taking one entry out of a list with different names leaves every other entry findable under
/// its name, and the removed entry's name unknown.
pub proof fn lemma_remove_entry(entries: Seq<CustomEntry>, q: int, name: Seq<char>)
    requires
        names(entries).no_duplicates(),
        0 <= q < entries.len(),
    ensures
        names(entries.remove(q)).no_duplicates(),
        name == entries[q].name ==> !names(entries.remove(q)).contains(name),
        !names(entries).contains(name) ==> !names(entries.remove(q)).contains(name),
        names(entries).contains(name) && name != entries[q].name ==> ({
            let j = first_index(names(entries.remove(q)), name);
            &&& 0 <= j < entries.remove(q).len()
            &&& entries.remove(q)[j] == entries[first_index(names(entries), name)]
        }),
{
    let rest = entries.remove(q);
    let all = names(entries);
    let left = names(rest);
    assert forall|i: int| 0 <= i < rest.len() implies #[trigger] left[i] == all[if i < q {
        i
    } else {
        i + 1
    }] by {}
    assert forall|i: int, j: int|
        0 <= i < left.len() && 0 <= j < left.len() && i != j implies left[i] != left[j] by {
        let a = if i < q {
            i
        } else {
            i + 1
        };
        let b = if j < q {
            j
        } else {
            j + 1
        };
        assert(left[i] == all[a]);
        assert(left[j] == all[b]);
    }
    if left.contains(name) {
        let i = choose|i: int| 0 <= i < left.len() && left[i] == name;
        let a = if i < q {
            i
        } else {
            i + 1
        };
        assert(left[i] == all[a]);
        assert(all[a] == name);
        assert(all[q] == entries[q].name);
    }
    if all.contains(name) && name != entries[q].name {
        lemma_first_index(all, name);
        let p = first_index(all, name);
        assert(all[p] == entries[p].name);
        assert(all[q] == entries[q].name);
        let j = if p < q {
            p
        } else {
            p - 1
        };
        assert(left[j] == name);
        lemma_first_index(left, name);
        let f = first_index(left, name);
        assert(left[f] == name);
        assert(f == j);
    }
}

/// Self-extension is safe: a custom profile that names itself as its parent resolves to its
/// own child profile, with no parent merged in.
pub proof fn law_self_extension(all: Seq<CustomEntry>, i: int)
    requires
        names(all).no_duplicates(),
        0 <= i < all.len(),
        all[i].def.extends == Some(all[i].name),
    ensures
        resolve_profile(all, all[i].name) == Some(child_profile(all[i].name, all[i].def)),
{
    reveal_with_fuel(resolve_among, 2);
    let name = all[i].name;
    lemma_entry_found(all, i);
    lemma_remove_entry(all, i, name);
    lemma_first_index(names(all.remove(i)), name);
    assert(names(all).contains(name));
}

/// In a list with different names, the entry at `i` is the one found under its name.
pub proof fn lemma_entry_found(all: Seq<CustomEntry>, i: int)
    requires
        names(all).no_duplicates(),
        0 <= i < all.len(),
    ensures
        first_index(names(all), all[i].name) == i,
        names(all).contains(all[i].name),
{
    let ns = names(all);
    assert(ns[i] == all[i].name);
    lemma_first_index(ns, all[i].name);
    let f = first_index(ns, all[i].name);
    assert(ns[f] == ns[i]);
}

/// A chain is folded from its root: where the custom profile `c` extends the custom profile
/// `b`, `b` extends `a`, and `a` is a root (a static profile, or a custom one that extends
/// nothing), resolving `c` gives the profile of `a` merged with the child profile of `b`, and
/// that merged with the child profile of `c`.
pub proof fn law_chain_folds_from_root(all: Seq<CustomEntry>, a: Seq<char>, ib: int, ic: int)
    requires
        names(all).no_duplicates(),
        0 <= ib < all.len(),
        0 <= ic < all.len(),
        ib != ic,
        a != all[ib].name,
        a != all[ic].name,
        all[ib].def.extends == Some(a),
        all[ic].def.extends == Some(all[ib].name),
        forall|k: int| 0 <= k < all.len() && all[k].name == a ==> all[k].def.extends is None,
        resolve_profile(all, a) is Some,
    ensures
        resolve_profile(all, all[ic].name) == Some(
            merge(
                merge(resolve_profile(all, a)->0, child_profile(all[ib].name, all[ib].def)),
                child_profile(all[ic].name, all[ic].def),
            ),
        ),
{
    reveal_with_fuel(resolve_among, 3);
    let ns = names(all);
    let b = all[ib].name;
    let c = all[ic].name;
    assert(ns[ib] == b);
    assert(ns[ic] == c);
    lemma_entry_found(all, ib);
    lemma_entry_found(all, ic);
    lemma_first_index(ns, a);
    // Below `c`: every profile but `c` remains.
    let below_c = all.remove(ic);
    lemma_remove_entry(all, ic, b);
    lemma_remove_entry(all, ic, a);
    let jb = first_index(names(below_c), b);
    assert(below_c[jb] == all[ib]);
    assert(names(below_c)[jb] == below_c[jb].name);
    // Below `b`: every profile but `c` and `b` remains.
    let below_b = below_c.remove(jb);
    lemma_remove_entry(below_c, jb, a);
    lemma_first_index(names(below_c), a);
    lemma_first_index(names(below_b), a);
    if ns.contains(a) {
        let ia = first_index(ns, a);
        assert(ns[ia] == all[ia].name);
        let jc = first_index(names(below_c), a);
        assert(below_c[jc] == all[ia]);
        assert(names(below_c)[jc] == below_c[jc].name);
        assert(names(below_c).contains(a));
        let ja = first_index(names(below_b), a);
        assert(below_b[ja] == all[ia]);
        assert(resolve_among(all, below_b, a) == Some(child_profile(a, all[ia].def)));
        assert(resolve_among(all, all, a) == Some(child_profile(a, all[ia].def)));
    } else {
        assert(resolve_among(all, below_b, a) == static_profile(a));
        assert(resolve_among(all, all, a) == static_profile(a));
    }
    assert(resolve_among(all, below_c, b) == Some(
        merge(resolve_profile(all, a)->0, child_profile(b, all[ib].def)),
    ));
}

/// A custom profile that extends a static profile and adds one extension, and nothing else,
/// resolves to the static profile's lists with that one extension, in its leading-dot form,
/// at the end of the extensions, unless the static profile has it already. File names and
/// globs are the static profile's.
pub proof fn law_custom_profile_adds_one_extension(
    all: Seq<CustomEntry>,
    i: int,
    base_name: Seq<char>,
    e: Seq<char>,
)
    requires
        names(all).no_duplicates(),
        0 <= i < all.len(),
        all[i].def.extends == Some(base_name),
        !names(all).contains(base_name),
        static_profile(base_name) is Some,
        all[i].def.extensions == Some(seq![e]),
        all[i].def.allowed_filenames is None,
        all[i].def.include_globs is None,
    ensures
        resolve_profile(all, all[i].name) is Some,
        ({
            let base = static_profile(base_name)->0;
            let resolved = resolve_profile(all, all[i].name)->0;
            let added = crate::profiles::dotted(e);
            &&& resolved.allowed_extensions == if base.allowed_extensions.contains(added) {
                base.allowed_extensions
            } else {
                base.allowed_extensions.push(added)
            }
            &&& resolved.allowed_filenames == base.allowed_filenames
            &&& resolved.include_globs == base.include_globs
            &&& forall|x: Seq<char>|
                #![trigger resolved.allowed_extensions.contains(x)]
                resolved.allowed_extensions.contains(x) <==> (base.allowed_extensions.contains(x)
                    || x == added)
        }),
{
    reveal_with_fuel(resolve_among, 2);
    reveal_with_fuel(crate::text::dedup, 2);
    let name = all[i].name;
    let base = static_profile(base_name)->0;
    let added = crate::profiles::dotted(e);
    let none = Seq::<Seq<char>>::empty();
    lemma_entry_found(all, i);
    lemma_remove_entry(all, i, base_name);
    lemma_first_index(names(all.remove(i)), base_name);
    lemma_static_well_formed(base_name);
    assert(resolve_among(all, all.remove(i), base_name) == Some(base));
    let child = child_profile(name, all[i].def);
    // The child holds the one extension and nothing else.
    assert(crate::profiles::dotted_all(seq![e]) =~= seq![added]);
    assert(seq![added].drop_last() =~= none);
    assert(crate::text::dedup(seq![added]) =~= seq![added]);
    assert(crate::text::dedup(none) =~= none);
    assert(child.allowed_extensions == seq![added]);
    assert(child.allowed_filenames == none);
    assert(child.include_globs == none);
    // Merging over a profile without repetitions keeps its lists.
    crate::text::lemma_dedup_fixed(base.allowed_extensions);
    crate::text::lemma_dedup_fixed(base.allowed_filenames);
    crate::text::lemma_dedup_fixed(base.include_globs);
    assert(base.allowed_filenames + none =~= base.allowed_filenames);
    assert(base.include_globs + none =~= base.include_globs);
    let joined = base.allowed_extensions + seq![added];
    assert(joined.drop_last() =~= base.allowed_extensions);
    assert(joined.last() == added);
    let resolved = resolve_profile(all, name)->0;
    assert(resolved == merge(base, child));
    crate::text::lemma_push_contains(base.allowed_extensions, added);
}

/// The child profile of a custom definition meets the invariant of profiles.
pub proof fn lemma_child_well_formed(name: Seq<char>, def: crate::config::CustomProfileView)
    ensures
        well_formed(child_profile(name, def)),
{
    lemma_new_profile_well_formed(
        match def.description {
            Some(d) => d,
            None => name,
        },
        crate::text::or_empty(def.extensions),
        crate::text::or_empty(def.allowed_filenames),
    );
    lemma_dedup_no_duplicates(crate::text::or_empty(def.include_globs));
}

/// Every static profile meets the invariant of profiles.
pub proof fn lemma_static_well_formed(name: Seq<char>)
    ensures
        static_profile(name) is Some ==> well_formed(static_profile(name)->0),
{
    if static_profile(name) is Some {
        let p = static_profile(name)->0;
        assert(exists|d: Seq<char>, e: Seq<Seq<char>>, f: Seq<Seq<char>>|
            p == crate::profiles::new_profile(d, e, f)) by {
            if crate::wordpress_profile::wordpress_static(name) is Some {
                assert(p == crate::profiles::new_profile(
                    "WordPress site with active theme and plugins."@,
                    crate::wordpress_profile::wordpress_extensions(),
                    crate::wordpress_profile::wordpress_filenames(),
                ));
            } else if name == "nextjs-ts-prisma"@ {
                assert(p == crate::profiles::new_profile(
                    "Next.js, TypeScript, Prisma project files."@,
                    crate::builtin::nextjs_extensions(),
                    crate::builtin::nextjs_filenames(),
                ));
            } else if name == "cpp-cmake"@ {
                assert(p == crate::profiles::new_profile(
                    "C/C++ and CMake project files."@,
                    crate::builtin::cpp_extensions(),
                    crate::builtin::cpp_filenames(),
                ));
            } else {
                assert(p == crate::profiles::new_profile(
                    "Rust project files."@,
                    crate::builtin::rust_extensions(),
                    crate::builtin::rust_filenames(),
                ));
            }
        }
        let (d, e, f) = choose|d: Seq<char>, e: Seq<Seq<char>>, f: Seq<Seq<char>>|
            p == crate::profiles::new_profile(d, e, f);
        lemma_new_profile_well_formed(d, e, f);
    }
}

/// Whatever is resolved, at any depth of a chain, meets the invariant of profiles.
pub proof fn lemma_resolve_among_well_formed(
    all: Seq<CustomEntry>,
    remaining: Seq<CustomEntry>,
    name: Seq<char>,
)
    ensures
        resolve_among(all, remaining, name) is Some ==> well_formed(
            resolve_among(all, remaining, name)->0,
        ),
    decreases remaining.len(),
{
    let i = first_index(names(remaining), name);
    if 0 <= i < remaining.len() {
        let child = child_profile(name, remaining[i].def);
        lemma_child_well_formed(name, remaining[i].def);
        match remaining[i].def.extends {
            Some(parent) => {
                lemma_resolve_among_well_formed(all, remaining.remove(i), parent);
                match resolve_among(all, remaining.remove(i), parent) {
                    Some(p) => {
                        lemma_merge_well_formed(p, child);
                    },
                    None => {},
                }
            },
            None => {},
        }
    } else if names(all).contains(name) {
    } else {
        lemma_static_well_formed(name);
    }
}

/// No duplicates after resolution: whatever chain a name resolves through, the resolved
/// profile names no extension, no file name and no glob twice, and every extension has its
/// leading dot.
pub proof fn law_resolved_is_well_formed(all: Seq<CustomEntry>, name: Seq<char>)
    ensures
        resolve_profile(all, name) is Some ==> {
            let p = resolve_profile(all, name)->0;
            &&& p.allowed_extensions.no_duplicates()
            &&& p.allowed_filenames.no_duplicates()
            &&& p.include_globs.no_duplicates()
            &&& well_formed(p)
        },
{
    lemma_resolve_among_well_formed(all, all, name);
}

} // verus!
