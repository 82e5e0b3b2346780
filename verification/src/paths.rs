//! Paths as texts: components, directory prefixes, file names and extensions.
//!
//! A path is a text whose components are separated by `/` or by the separator that the
//! platform prefers; that separator is an argument wherever it matters, so that every
//! function here answers alike on every platform. Repeated separators and a separator at
//! the end count for nothing, and a component `.` counts only at the start of a path that is
//! not rooted. These are the conventions of `std::path` for paths without a drive or server
//! prefix. A prefix such as `C:` is not told apart here: it is a component like any other.

use vstd::prelude::*;
use crate::text::{chars_of, push_char, string_from, text_eq};

verus! {

/// Whether `c` separates path components: `/` does, and so does the platform's separator.
pub open spec fn is_sep(c: char, separator: char) -> bool {
    c == '/' || c == separator
}

/// The segments of a path: its maximal runs of characters that are not separators.
pub open spec fn segments(path: Seq<char>, separator: char) -> Seq<Seq<char>>
    decreases path.len(),
{
    if path.len() == 0 {
        Seq::empty()
    } else {
        let init = segments(path.drop_last(), separator);
        let c = path.last();
        if is_sep(c, separator) {
            init
        } else if path.len() >= 2 && !is_sep(path[path.len() - 2], separator) {
            init.drop_last().push(init.last().push(c))
        } else {
            init.push(seq![c])
        }
    }
}

/// The segments without those that are `.`; the first segment stays where `keep_first` says
/// so.
pub open spec fn without_dots(list: Seq<Seq<char>>, keep_first: bool) -> Seq<Seq<char>>
    decreases list.len(),
{
    if list.len() == 0 {
        Seq::empty()
    } else {
        let init = without_dots(list.drop_last(), keep_first);
        if list.last() == seq!['.'] && !(list.len() == 1 && keep_first) {
            init
        } else {
            init.push(list.last())
        }
    }
}

/// The components of a path: its segments, without every `.` but one that begins a path that
/// is not rooted.
pub open spec fn components(path: Seq<char>, separator: char) -> Seq<Seq<char>> {
    without_dots(segments(path, separator), !rooted(path, separator))
}

/// Whether a path starts at the root: its first character is a separator.
pub open spec fn rooted(path: Seq<char>, separator: char) -> bool {
    path.len() > 0 && is_sep(path[0], separator)
}

/// Whether `path` lies at or under `base`. An empty base holds every path. Any other base
/// holds the paths that are rooted as it is and whose first components are its components.
/// Only whole components count, so `src` does not hold `srcs/a`.
pub open spec fn path_under(path: Seq<char>, base: Seq<char>, separator: char) -> bool {
    base.len() == 0 || (rooted(path, separator) == rooted(base, separator) && components(
        base,
        separator,
    ).is_prefix_of(components(path, separator)))
}

/// The components joined by the separator.
pub open spec fn joined_components(parts: Seq<Seq<char>>, separator: char) -> Seq<char>
    decreases parts.len(),
{
    if parts.len() == 0 {
        Seq::empty()
    } else if parts.len() == 1 {
        parts[0]
    } else {
        joined_components(parts.drop_last(), separator) + seq![separator] + parts.last()
    }
}

/// The path relative to `base`: the components of `path` that follow those of `base`, joined
/// by the separator. `None` where `path` does not lie at or under `base`.
pub open spec fn relative_to(path: Seq<char>, base: Seq<char>, separator: char) -> Option<
    Seq<char>,
> {
    if path_under(path, base, separator) {
        Some(
            joined_components(
                components(path, separator).skip(components(base, separator).len() as int),
                separator,
            ),
        )
    } else {
        None
    }
}

/// The file name of a path: its last component, or nothing where it has none.
pub open spec fn file_name_of(path: Seq<char>, separator: char) -> Seq<char> {
    let c = components(path, separator);
    if c.len() == 0 || c.last() == seq!['.'] || c.last() == seq!['.', '.'] {
        Seq::empty()
    } else {
        c.last()
    }
}

/// The position of the last `.` in `name`, or -1 where it holds none.
pub open spec fn last_dot(name: Seq<char>) -> int
    decreases name.len(),
{
    if name.len() == 0 {
        -1
    } else if name.last() == '.' {
        name.len() - 1
    } else {
        last_dot(name.drop_last())
    }
}

/// The extension of a file name: what follows its last `.`, without the dot. A name without
/// a dot has none, nor has a name whose only dot is its first character, nor has `..`.
pub open spec fn extension_of(name: Seq<char>) -> Option<Seq<char>> {
    let k = last_dot(name);
    if k <= 0 || name == seq!['.', '.'] {
        None
    } else {
        Some(name.skip(k + 1))
    }
}

/// The last dot is a dot, and no dot follows it.
pub proof fn lemma_last_dot(name: Seq<char>)
    ensures
        -1 <= last_dot(name) < name.len(),
        last_dot(name) >= 0 ==> name[last_dot(name)] == '.',
        forall|j: int| last_dot(name) < j < name.len() ==> name[j] != '.',
    decreases name.len(),
{
    if name.len() > 0 && name.last() != '.' {
        lemma_last_dot(name.drop_last());
        assert forall|j: int| last_dot(name) < j < name.len() implies name[j] != '.' by {
            if j < name.len() - 1 {
                assert(name.drop_last()[j] == name[j]);
            }
        }
        if last_dot(name) >= 0 {
            assert(name.drop_last()[last_dot(name)] == name[last_dot(name)]);
        }
    }
}

/// A position that holds a dot with no dot after it is the last dot.
pub proof fn lemma_last_dot_is(name: Seq<char>, k: int)
    requires
        -1 <= k < name.len(),
        k >= 0 ==> name[k] == '.',
        forall|j: int| k < j < name.len() ==> name[j] != '.',
    ensures
        last_dot(name) == k,
{
    lemma_last_dot(name);
    let d = last_dot(name);
    if d < k {
        assert(name[k] == '.');
    } else if k < d {
        assert(name[d] == '.');
    }
}

/// The components of a path, in order.
pub fn split_components(path: &str, separator: char) -> (out: Vec<String>)
    ensures
        out.deep_view() == components(path@, separator),
{
    let list = split_segments(path, separator);
    let keep_first = !is_rooted(path, separator);
    let mut out: Vec<String> = Vec::new();
    let mut i: usize = 0;
    assert(list.deep_view().take(0) =~= Seq::<Seq<char>>::empty());
    assert(out.deep_view() =~= Seq::<Seq<char>>::empty());
    proof {
        reveal_strlit(".");
        assert("."@ =~= seq!['.']);
    }
    while i < list.len()
        invariant
            i <= list.len(),
            "."@ == seq!['.'],
            out.deep_view() == without_dots(list.deep_view().take(i as int), keep_first),
        decreases list.len() - i,
    {
        let ghost before = out.deep_view();
        let ghost next = list.deep_view().take(i as int + 1);
        assert(next.drop_last() =~= list.deep_view().take(i as int));
        assert(next.last() == list[i as int]@);
        let dot = text_eq(list[i].as_str(), ".");
        if !(dot && !(i == 0 && keep_first)) {
            out.push(list[i].clone());
            assert(out.deep_view() =~= before.push(list[i as int]@));
        }
        i += 1;
    }
    assert(list.deep_view().take(list.len() as int) =~= list.deep_view());
    out
}

/// The segments of a path, in order.
fn split_segments(path: &str, separator: char) -> (out: Vec<String>)
    ensures
        out.deep_view() == segments(path@, separator),
{
    let cs = chars_of(path);
    let mut out: Vec<String> = Vec::new();
    let mut current = String::new();
    let mut inside: bool = false;
    let mut i: usize = 0;
    assert(cs@.take(0) =~= Seq::<char>::empty());
    assert(out.deep_view() =~= Seq::<Seq<char>>::empty());
    while i < cs.len()
        invariant
            i <= cs.len(),
            inside == (i > 0 && !is_sep(cs@[i as int - 1], separator)),
            inside ==> segments(cs@.take(i as int), separator) == out.deep_view().push(
                current@,
            ),
            !inside ==> segments(cs@.take(i as int), separator) == out.deep_view(),
        decreases cs.len() - i,
    {
        let ghost before = out.deep_view();
        let ghost piece = current@;
        let ghost next = cs@.take(i as int + 1);
        assert(next.drop_last() =~= cs@.take(i as int));
        assert(next.last() == cs@[i as int]);
        if i > 0 {
            assert(next[next.len() - 2] == cs@[i as int - 1]);
        }
        let c = cs[i];
        if c == '/' || c == separator {
            if inside {
                out.push(current);
                current = String::new();
                assert(out.deep_view() =~= before.push(piece));
            }
            inside = false;
        } else {
            if inside {
                push_char(&mut current, c);
                assert(before.push(piece).drop_last() =~= before);
            } else {
                current = String::new();
                push_char(&mut current, c);
                assert(current@ =~= seq![c]);
            }
            inside = true;
        }
        i += 1;
    }
    assert(cs@.take(cs.len() as int) =~= cs@);
    if inside {
        let ghost before = out.deep_view();
        out.push(current);
        assert(out.deep_view() =~= before.push(current@));
    }
    out
}

/// Whether a path starts at the root.
fn is_rooted(path: &str, separator: char) -> (r: bool)
    ensures
        r == rooted(path@, separator),
{
    let cs = chars_of(path);
    cs.len() > 0 && (cs[0] == '/' || cs[0] == separator)
}

/// Whether the texts of `prefix` are the first texts of `list`.
fn texts_start_with(list: &Vec<String>, prefix: &Vec<String>) -> (r: bool)
    ensures
        r == prefix.deep_view().is_prefix_of(list.deep_view()),
{
    if prefix.len() > list.len() {
        return false;
    }
    let mut i: usize = 0;
    while i < prefix.len()
        invariant
            i <= prefix.len() <= list.len(),
            forall|j: int| 0 <= j < i ==> list.deep_view()[j] == prefix.deep_view()[j],
        decreases prefix.len() - i,
    {
        if !text_eq(list[i].as_str(), prefix[i].as_str()) {
            assert(list.deep_view().subrange(0, prefix.len() as int)[i as int]
                != prefix.deep_view()[i as int]);
            return false;
        }
        i += 1;
    }
    assert(list.deep_view().subrange(0, prefix.len() as int) =~= prefix.deep_view());
    true
}

/// Whether `path` lies at or under the directory `base`.
pub fn path_starts_with(path: &str, base: &str, separator: char) -> (r: bool)
    ensures
        r == path_under(path@, base@, separator),
{
    match strip_prefix(path, base, separator) {
        Some(_) => true,
        None => false,
    }
}

/// The path relative to `base`, or `None` where `path` does not lie at or under `base`.
pub fn strip_prefix(path: &str, base: &str, separator: char) -> (r: Option<String>)
    ensures
        crate::text::opt_text(r) == relative_to(path@, base@, separator),
{
    let p = split_components(path, separator);
    let b = split_components(base, separator);
    let base_chars = chars_of(base);
    let under = base_chars.len() == 0 || (is_rooted(path, separator) == is_rooted(base, separator)
        && texts_start_with(&p, &b));
    if !under {
        return None;
    }
    proof {
        if base_chars.len() == 0 {
            assert(base@ =~= Seq::<char>::empty());
        }
    }
    assert(b.len() <= p.len());
    let ghost rest = p.deep_view().skip(b.len() as int);
    let mut out = String::new();
    let mut i: usize = b.len();
    assert(rest.take(0) =~= Seq::<Seq<char>>::empty());
    while i < p.len()
        invariant
            b.len() <= i <= p.len(),
            rest == p.deep_view().skip(b.len() as int),
            out@ == joined_components(rest.take(i - b.len()), separator),
        decreases p.len() - i,
    {
        let ghost done = rest.take(i - b.len());
        let ghost next = rest.take(i - b.len() + 1);
        assert(next.drop_last() =~= done);
        assert(next.last() == p.deep_view()[i as int]);
        if i > b.len() {
            push_char(&mut out, separator);
            assert(out@ =~= joined_components(done, separator) + seq![separator]);
        } else {
            assert(next.len() == 1);
            assert(out@ =~= Seq::<char>::empty());
        }
        let ghost start = out@;
        let piece = chars_of(p[i].as_str());
        let mut k: usize = 0;
        while k < piece.len()
            invariant
                k <= piece.len(),
                out@ == start + piece@.take(k as int),
            decreases piece.len() - k,
        {
            push_char(&mut out, piece[k]);
            k += 1;
            assert(piece@.take(k as int) =~= piece@.take(k as int - 1).push(piece@[k as int - 1]));
            assert(out@ =~= start + piece@.take(k as int));
        }
        assert(piece@.take(piece.len() as int) =~= piece@);
        i += 1;
    }
    assert(rest.take(p.len() - b.len()) =~= rest);
    Some(out)
}

/// Whether a target path stays within its base directory: it lies at or under the base as
/// given, or at or under the base made absolute, or it is a relative path, which is taken
/// from the base.
pub open spec fn safe_path(
    path: Seq<char>,
    base: Seq<char>,
    absolute_base: Seq<char>,
    path_is_absolute: bool,
    separator: char,
) -> bool {
    path_under(path, base, separator) || path_under(path, absolute_base, separator)
        || !path_is_absolute
}

/// Whether a target path stays within its base directory. `absolute_base` is the base with
/// links resolved, or the base itself where that cannot be done.
pub fn is_safe_path(
    path: &str,
    base_dir: &str,
    absolute_base: &str,
    path_is_absolute: bool,
    separator: char,
) -> (r: bool)
    ensures
        r == safe_path(path@, base_dir@, absolute_base@, path_is_absolute, separator),
{
    if path_starts_with(path, base_dir, separator) {
        return true;
    }
    if path_starts_with(path, absolute_base, separator) {
        return true;
    }
    !path_is_absolute
}

/// The file name of a path: its last component.
pub fn file_name(path: &str, separator: char) -> (out: String)
    ensures
        out@ == file_name_of(path@, separator),
{
    let comps = split_components(path, separator);
    if comps.len() == 0 {
        return String::new();
    }
    proof {
        reveal_strlit(".");
        reveal_strlit("..");
        assert("."@ =~= seq!['.']);
        assert(".."@ =~= seq!['.', '.']);
    }
    let last = &comps[comps.len() - 1];
    assert(comps.deep_view().last() == last@);
    if text_eq(last.as_str(), ".") || text_eq(last.as_str(), "..") {
        String::new()
    } else {
        last.clone()
    }
}

/// The extension of a file name, without its dot.
pub fn extension(name: &str) -> (out: Option<String>)
    ensures
        crate::text::opt_text(out) == extension_of(name@),
{
    let cs = chars_of(name);
    let mut k: usize = cs.len();
    while k > 0 && cs[k - 1] != '.'
        invariant
            k <= cs.len(),
            forall|j: int| k <= j < cs.len() ==> cs@[j] != '.',
        decreases k,
    {
        k -= 1;
    }
    proof {
        lemma_last_dot_is(cs@, k as int - 1);
    }
    if k <= 1 {
        return None;
    }
    if cs.len() == 2 && cs[0] == '.' && cs[1] == '.' {
        assert(cs@ =~= seq!['.', '.']);
        return None;
    }
    assert(cs@ != seq!['.', '.']) by {
        if cs@ == seq!['.', '.'] {
            assert(seq!['.', '.'].len() == 2);
            assert(seq!['.', '.'][0] == '.');
            assert(seq!['.', '.'][1] == '.');
        }
    }
    assert(cs@.skip(k as int) =~= cs@.subrange(k as int, cs.len() as int));
    Some(string_from(&cs, k, cs.len()))
}

} // verus!
