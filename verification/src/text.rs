//! Text helpers: every contract here speaks of a string through its sequence of characters.

use vstd::prelude::*;
use vstd::string::StringExecFns;

verus! {

/// The lower-case form of a text, as `str::to_lowercase` gives it.
pub uninterp spec fn lowercase(s: Seq<char>) -> Seq<char>;

/// Whether a character is white space: one of the 25 characters with the Unicode property
/// `White_Space`, by which `char::is_whitespace` goes too. They are the controls from tab to
/// carriage return, the space, the next-line control, the no-break space, the Ogham space
/// mark, the spaces from en quad to hair space, the line and the paragraph separator, the
/// narrow no-break space, the medium mathematical space and the ideographic space.
pub open spec fn is_whitespace(c: char) -> bool {
    let u = c as u32;
    ||| 0x09 <= u <= 0x0D
    ||| u == 0x20
    ||| u == 0x85
    ||| u == 0xA0
    ||| u == 0x1680
    ||| 0x2000 <= u <= 0x200A
    ||| u == 0x2028
    ||| u == 0x2029
    ||| u == 0x202F
    ||| u == 0x205F
    ||| u == 0x3000
}

/// The text that the `Debug` formatting of an optional string produces.
pub uninterp spec fn debug_text(value: Option<Seq<char>>) -> Seq<char>;

/// Appends one character to a string.
///
/// Trusted: `String::push` adds the character at the end and changes nothing else.
#[verifier::external_body]
pub(crate) fn push_char(s: &mut String, c: char)
    ensures
        final(s)@ == old(s)@.push(c),
{
    s.push(c);
}

/// Lower-cases a text.
///
/// Trusted: the result of `str::to_lowercase` depends on the characters of its argument alone;
/// the contract gives that result its name and claims nothing else of it.
#[verifier::external_body]
pub(crate) fn to_lowercase(s: &str) -> (out: String)
    ensures
        out@ == lowercase(s@),
{
    s.to_lowercase()
}

/// Whether a character is white space.
pub fn char_is_whitespace(c: char) -> (r: bool)
    ensures
        r == is_whitespace(c),
{
    let u: u32 = c as u32;
    (0x09 <= u && u <= 0x0D) || u == 0x20 || u == 0x85 || u == 0xA0 || u == 0x1680 || (0x2000 <= u
        && u <= 0x200A) || u == 0x2028 || u == 0x2029 || u == 0x202F || u == 0x205F || u == 0x3000
}

/// Formats an optional string the way `{:?}` does.
///
/// Trusted: the `Debug` output of `Option<String>` depends on the value alone; the contract
/// names it.
#[verifier::external_body]
pub(crate) fn debug_format(value: &Option<String>) -> (out: String)
    ensures
        out@ == debug_text(opt_text(*value)),
{
    format!("{:?}", value)
}

/// The text of an optional string.
pub open spec fn opt_text(value: Option<String>) -> Option<Seq<char>> {
    match value {
        Some(s) => Some(s@),
        None => None,
    }
}

/// The texts of an optional list of strings.
pub open spec fn opt_texts(value: Option<Vec<String>>) -> Option<Seq<Seq<char>>> {
    match value {
        Some(v) => Some(v.deep_view()),
        None => None,
    }
}

/// `list` or, where there is none, the empty list.
pub open spec fn or_empty(list: Option<Seq<Seq<char>>>) -> Seq<Seq<char>> {
    match list {
        Some(l) => l,
        None => Seq::empty(),
    }
}

/// `s` with every occurrence of `from` replaced by `to`.
pub open spec fn replaced(s: Seq<char>, from: char, to: char) -> Seq<char> {
    Seq::new(
        s.len(),
        |i: int|
            if s[i] == from {
                to
            } else {
                s[i]
            },
    )
}

/// The position of the first `x` in `s`, or the length of `s` where there is none.
pub open spec fn first_index<T>(s: Seq<T>, x: T) -> int
    decreases s.len(),
{
    if s.len() == 0 || s[0] == x {
        0
    } else {
        1 + first_index(s.skip(1), x)
    }
}

/// The part of `s` before its first `c`; all of `s` where there is none.
pub open spec fn before_first(s: Seq<char>, c: char) -> Seq<char> {
    s.take(first_index(s, c))
}

/// `s` without its leading white space.
pub open spec fn trim_start(s: Seq<char>) -> Seq<char>
    decreases s.len(),
{
    if s.len() > 0 && is_whitespace(s[0]) {
        trim_start(s.skip(1))
    } else {
        s
    }
}

/// `s` without its trailing white space.
pub open spec fn trim_end(s: Seq<char>) -> Seq<char>
    decreases s.len(),
{
    if s.len() > 0 && is_whitespace(s.last()) {
        trim_end(s.drop_last())
    } else {
        s
    }
}

/// `s` without leading and trailing white space.
pub open spec fn trimmed(s: Seq<char>) -> Seq<char> {
    trim_end(trim_start(s))
}

/// The pieces of `s` between occurrences of `c`; a text without `c` is one piece.
pub open spec fn split(s: Seq<char>, c: char) -> Seq<Seq<char>>
    decreases s.len(),
{
    if s.len() == 0 {
        seq![Seq::<char>::empty()]
    } else {
        let init = split(s.drop_last(), c);
        if s.last() == c {
            init.push(Seq::<char>::empty())
        } else {
            init.drop_last().push(init.last().push(s.last()))
        }
    }
}

/// The number of maximal runs of characters that are not white space.
pub open spec fn word_count(s: Seq<char>) -> nat
    decreases s.len(),
{
    if s.len() == 0 {
        0
    } else {
        let starts_word = !is_whitespace(s.last()) && (s.len() == 1 || is_whitespace(
            s[s.len() - 2],
        ));
        word_count(s.drop_last()) + if starts_word {
            1nat
        } else {
            0nat
        }
    }
}

/// `s` with only the first occurrence of each element kept.
pub open spec fn dedup(s: Seq<Seq<char>>) -> Seq<Seq<char>>
    decreases s.len(),
{
    if s.len() == 0 {
        s
    } else {
        let init = dedup(s.drop_last());
        if init.contains(s.last()) {
            init
        } else {
            init.push(s.last())
        }
    }
}

/// `current` followed by the elements of `items` that it does not hold yet, each once.
pub open spec fn extended(current: Seq<Seq<char>>, items: Seq<Seq<char>>) -> Seq<Seq<char>>
    decreases items.len(),
{
    if items.len() == 0 {
        current
    } else {
        let init = extended(current, items.drop_last());
        if init.contains(items.last()) {
            init
        } else {
            init.push(items.last())
        }
    }
}

/// An element is in `dedup(s)` exactly when it is in `s`.
pub proof fn lemma_dedup_contains(s: Seq<Seq<char>>, x: Seq<char>)
    ensures
        dedup(s).contains(x) <==> s.contains(x),
    decreases s.len(),
{
    if s.len() > 0 {
        let init = s.drop_last();
        lemma_dedup_contains(init, x);
        lemma_dedup_contains(init, s.last());
        if s.contains(x) {
            let i = choose|i: int| 0 <= i < s.len() && s[i] == x;
            if i < s.len() - 1 {
                assert(init[i] == x);
            }
        }
        if init.contains(x) {
            let i = choose|i: int| 0 <= i < init.len() && init[i] == x;
            assert(s[i] == x);
        }
        let d = dedup(init);
        if !d.contains(s.last()) {
            assert(d.push(s.last()).last() == s.last());
            if d.contains(x) {
                let i = choose|i: int| 0 <= i < d.len() && d[i] == x;
                assert(d.push(s.last())[i] == x);
            }
        }
        assert(s[s.len() - 1] == s.last());
    }
}

/// No element occurs twice in `dedup(s)`.
pub proof fn lemma_dedup_no_duplicates(s: Seq<Seq<char>>)
    ensures
        dedup(s).no_duplicates(),
    decreases s.len(),
{
    if s.len() > 0 {
        lemma_dedup_no_duplicates(s.drop_last());
    }
}

/// Removing repetitions keeps the first element of a list in its place.
pub proof fn lemma_dedup_keeps_first(s: Seq<Seq<char>>)
    requires
        s.len() > 0,
    ensures
        dedup(s).len() > 0,
        dedup(s)[0] == s[0],
    decreases s.len(),
{
    let init = dedup(s.drop_last());
    if s.len() > 1 {
        lemma_dedup_keeps_first(s.drop_last());
        assert(s.drop_last()[0] == s[0]);
        assert(init.push(s.last())[0] == init[0]);
    } else {
        assert(init.len() == 0);
        assert(!init.contains(s.last()));
        assert(init.push(s.last())[0] == s[0]);
    }
}

/// A list without repetitions is its own `dedup`.
pub proof fn lemma_dedup_fixed(s: Seq<Seq<char>>)
    requires
        s.no_duplicates(),
    ensures
        dedup(s) == s,
    decreases s.len(),
{
    if s.len() > 0 {
        let init = s.drop_last();
        lemma_dedup_fixed(init);
        lemma_dedup_contains(init, s.last());
        if init.contains(s.last()) {
            let i = choose|i: int| 0 <= i < init.len() && init[i] == s.last();
            assert(s[i] == s[s.len() - 1]);
        }
        assert(init.push(s.last()) =~= s);
    }
}

/// Extending a list without repetitions is removing the repetitions of the joined lists.
pub proof fn lemma_extended_is_dedup(current: Seq<Seq<char>>, items: Seq<Seq<char>>)
    requires
        dedup(current) == current,
    ensures
        extended(current, items) == dedup(current + items),
    decreases items.len(),
{
    if items.len() == 0 {
        assert(current + items =~= current);
    } else {
        lemma_extended_is_dedup(current, items.drop_last());
        assert((current + items).drop_last() =~= current + items.drop_last());
        assert((current + items).last() == items.last());
    }
}

/// Removing repetitions from the front part first changes nothing.
pub proof fn lemma_dedup_left(a: Seq<Seq<char>>, b: Seq<Seq<char>>)
    ensures
        dedup(dedup(a) + b) == dedup(a + b),
    decreases b.len(),
{
    if b.len() == 0 {
        assert(dedup(a) + b =~= dedup(a));
        assert(a + b =~= a);
        lemma_dedup_no_duplicates(a);
        lemma_dedup_fixed(dedup(a));
    } else {
        let init = b.drop_last();
        lemma_dedup_left(a, init);
        assert((dedup(a) + b).drop_last() =~= dedup(a) + init);
        assert((a + b).drop_last() =~= a + init);
        assert((dedup(a) + b).last() == b.last());
        assert((a + b).last() == b.last());
    }
}

/// Removing repetitions from the back part first changes nothing.
pub proof fn lemma_dedup_right(a: Seq<Seq<char>>, b: Seq<Seq<char>>)
    ensures
        dedup(a + dedup(b)) == dedup(a + b),
    decreases b.len(),
{
    if b.len() == 0 {
        assert(dedup(b) =~= b);
    } else {
        let init = b.drop_last();
        let e = b.last();
        lemma_dedup_right(a, init);
        assert((a + b).drop_last() =~= a + init);
        assert((a + b).last() == e);
        lemma_dedup_contains(init, e);
        lemma_dedup_contains(a + init, e);
        if init.contains(e) {
            let i = choose|i: int| 0 <= i < init.len() && init[i] == e;
            assert((a + init)[a.len() + i] == e);
        } else {
            let d = dedup(init);
            assert((a + d.push(e)).drop_last() =~= a + d);
            assert((a + d.push(e)).last() == e);
            lemma_dedup_contains(a + d, e);
        }
    }
}

/// What `s.push(e)` holds: what `s` holds, and `e`.
pub proof fn lemma_push_contains<T>(s: Seq<T>, e: T)
    ensures
        forall|x: T|
            #![trigger s.push(e).contains(x)]
            #![trigger s.contains(x)]
            s.push(e).contains(x) <==> (s.contains(x) || x == e),
{
    assert forall|x: T| #![trigger s.push(e).contains(x)] #![trigger s.contains(x)]
        s.push(e).contains(x) <==> (s.contains(x) || x == e) by {
        let t = s.push(e);
        if t.contains(x) {
            let i = choose|i: int| 0 <= i < t.len() && t[i] == x;
            if i < s.len() {
                assert(s[i] == x);
            }
        }
        if s.contains(x) {
            let i = choose|i: int| 0 <= i < s.len() && s[i] == x;
            assert(t[i] == x);
        }
        if x == e {
            assert(t[s.len() as int] == x);
        }
    }
}

/// What `s.insert(at, e)` holds: what `s` holds, and `e`.
pub proof fn lemma_insert_contains<T>(s: Seq<T>, at: int, e: T)
    requires
        0 <= at <= s.len(),
    ensures
        forall|x: T|
            #![trigger s.insert(at, e).contains(x)]
            #![trigger s.contains(x)]
            s.insert(at, e).contains(x) <==> (s.contains(x) || x == e),
{
    assert forall|x: T| #![trigger s.insert(at, e).contains(x)] #![trigger s.contains(x)]
        s.insert(at, e).contains(x) <==> (s.contains(x) || x == e) by {
        let t = s.insert(at, e);
        if t.contains(x) {
            let i = choose|i: int| 0 <= i < t.len() && t[i] == x;
            if i < at {
                assert(s[i] == x);
            } else if i > at {
                assert(s[i - 1] == x);
            }
        }
        if s.contains(x) {
            let i = choose|i: int| 0 <= i < s.len() && s[i] == x;
            if i < at {
                assert(t[i] == x);
            } else {
                assert(t[i + 1] == x);
            }
        }
        if x == e {
            assert(t[at] == x);
        }
    }
}

/// The first `k + 1` elements of `s` are the first `k` and `s[k]`.
pub proof fn lemma_take_next<T>(s: Seq<T>, k: int)
    requires
        0 <= k < s.len(),
    ensures
        s.take(k + 1) == s.take(k).push(s[k]),
        forall|x: T|
            #![trigger s.take(k + 1).contains(x)]
            #![trigger s.take(k).contains(x)]
            s.take(k + 1).contains(x) <==> (s.take(k).contains(x) || x == s[k]),
{
    assert(s.take(k + 1) =~= s.take(k).push(s[k]));
    lemma_push_contains(s.take(k), s[k]);
}

/// Whether `a` comes before `b` in the order of strings: at the first position where they
/// differ `a` has the smaller character, or `a` ends there and `b` does not.
pub open spec fn text_lt(a: Seq<char>, b: Seq<char>) -> bool
    decreases a.len(),
{
    if b.len() == 0 {
        false
    } else if a.len() == 0 {
        true
    } else if a[0] != b[0] {
        (a[0] as u32) < (b[0] as u32)
    } else {
        text_lt(a.skip(1), b.skip(1))
    }
}

/// Of two different texts one comes before the other.
pub proof fn lemma_text_lt_total(a: Seq<char>, b: Seq<char>)
    ensures
        text_lt(a, b) || a == b || text_lt(b, a),
    decreases a.len(),
{
    if a.len() == 0 || b.len() == 0 {
        if a.len() == 0 && b.len() == 0 {
            assert(a =~= b);
        }
    } else if a[0] != b[0] {
        vstd::utf8::char_u32_cast(a[0], a[0] as u32);
        vstd::utf8::char_u32_cast(b[0], b[0] as u32);
    } else {
        lemma_text_lt_total(a.skip(1), b.skip(1));
        if a.skip(1) == b.skip(1) {
            assert forall|i: int| 0 <= i < a.len() implies a[i] == b[i] by {
                if i > 0 {
                    assert(a.skip(1)[i - 1] == b.skip(1)[i - 1]);
                }
            }
            assert(a.len() == a.skip(1).len() + 1);
            assert(b.len() == b.skip(1).len() + 1);
            assert(a =~= b);
        }
    }
}

/// The order of strings is transitive.
pub proof fn lemma_text_lt_transitive(a: Seq<char>, b: Seq<char>, c: Seq<char>)
    requires
        text_lt(a, b),
        text_lt(b, c),
    ensures
        text_lt(a, c),
    decreases a.len(),
{
    if a.len() > 0 {
        if a[0] == b[0] && b[0] == c[0] {
            lemma_text_lt_transitive(a.skip(1), b.skip(1), c.skip(1));
        }
    }
}

/// No text comes before itself.
pub proof fn lemma_text_lt_irreflexive(a: Seq<char>)
    ensures
        !text_lt(a, a),
    decreases a.len(),
{
    if a.len() > 0 {
        lemma_text_lt_irreflexive(a.skip(1));
    }
}

/// Whether `a` comes before `b` in the order of strings.
pub fn text_less(a: &str, b: &str) -> (r: bool)
    ensures
        r == text_lt(a@, b@),
{
    let x = chars_of(a);
    let y = chars_of(b);
    let mut i: usize = 0;
    assert(x@.skip(0) =~= x@);
    assert(y@.skip(0) =~= y@);
    while i < x.len() && i < y.len()
        invariant
            i <= x.len(),
            i <= y.len(),
            x@ == a@,
            y@ == b@,
            text_lt(x@, y@) == text_lt(x@.skip(i as int), y@.skip(i as int)),
        decreases x.len() - i,
    {
        let ghost xs = x@.skip(i as int);
        let ghost ys = y@.skip(i as int);
        assert(xs[0] == x@[i as int]);
        assert(ys[0] == y@[i as int]);
        assert(xs.skip(1) =~= x@.skip(i as int + 1));
        assert(ys.skip(1) =~= y@.skip(i as int + 1));
        if x[i] != y[i] {
            return (x[i] as u32) < (y[i] as u32);
        }
        i += 1;
    }
    i < y.len()
}

/// Whether two texts hold the same characters.
pub fn text_eq(a: &str, b: &str) -> (r: bool)
    ensures
        r == (a@ == b@),
{
    broadcast use vstd::utf8::encode_utf8_decode_utf8;

    let x = a.as_bytes();
    let y = b.as_bytes();
    if x.len() != y.len() {
        return false;
    }
    let mut i: usize = 0;
    while i < x.len()
        invariant
            i <= x.len(),
            x.len() == y.len(),
            x@ == vstd::utf8::encode_utf8(a@),
            y@ == vstd::utf8::encode_utf8(b@),
            forall|j: int| 0 <= j < i ==> x@[j] == y@[j],
        decreases x.len() - i,
    {
        if x[i] != y[i] {
            return false;
        }
        i += 1;
    }
    assert(x@ =~= y@);
    assert(vstd::utf8::decode_utf8(vstd::utf8::encode_utf8(a@)) == a@);
    assert(vstd::utf8::decode_utf8(vstd::utf8::encode_utf8(b@)) == b@);
    true
}

/// The characters of `s`, in order.
pub fn chars_of(s: &str) -> (out: Vec<char>)
    ensures
        out@ == s@,
{
    let mut out: Vec<char> = Vec::new();
    for c in it: s.chars()
        invariant
            out@ == it.seq().take(it.index() as int),
            it.seq() == s@,
    {
        out.push(c);
    }
    out
}

/// The string made of the characters `chars[from..to]`.
pub(crate) fn string_from(chars: &Vec<char>, from: usize, to: usize) -> (out: String)
    requires
        from <= to <= chars.len(),
    ensures
        out@ == chars@.subrange(from as int, to as int),
{
    let mut out = String::new();
    let mut i: usize = from;
    while i < to
        invariant
            from <= i <= to <= chars.len(),
            out@ == chars@.subrange(from as int, i as int),
        decreases to - i,
    {
        push_char(&mut out, chars[i]);
        i += 1;
        assert(chars@.subrange(from as int, i as int) =~= chars@.subrange(
            from as int,
            i as int - 1,
        ).push(chars@[i as int - 1]));
    }
    out
}

/// `a` followed by `b`.
pub fn joined(a: &str, b: &str) -> (out: String)
    ensures
        out@ == a@ + b@,
{
    let mut out = a.to_owned();
    out.append(b);
    out
}

/// Whether `s` begins with `prefix`.
pub fn starts_with(s: &str, prefix: &str) -> (r: bool)
    ensures
        r == prefix@.is_prefix_of(s@),
{
    let sc = chars_of(s);
    let pc = chars_of(prefix);
    if pc.len() > sc.len() {
        return false;
    }
    let mut i: usize = 0;
    while i < pc.len()
        invariant
            i <= pc.len() <= sc.len(),
            sc@ == s@,
            pc@ == prefix@,
            forall|j: int| 0 <= j < i ==> sc@[j] == pc@[j],
        decreases pc.len() - i,
    {
        if sc[i] != pc[i] {
            assert(sc@.subrange(0, pc@.len() as int)[i as int] != pc@[i as int]);
            assert(!pc@.is_prefix_of(sc@));
            return false;
        }
        i += 1;
    }
    assert(sc@.subrange(0, pc@.len() as int) =~= pc@);
    true
}

/// `s` with every `from` replaced by `to`.
pub fn replace_char(s: &str, from: char, to: char) -> (out: String)
    ensures
        out@ == replaced(s@, from, to),
{
    let cs = chars_of(s);
    let mut out = String::new();
    let mut i: usize = 0;
    while i < cs.len()
        invariant
            i <= cs.len(),
            out@ == replaced(cs@, from, to).take(i as int),
        decreases cs.len() - i,
    {
        let c = if cs[i] == from {
            to
        } else {
            cs[i]
        };
        push_char(&mut out, c);
        i += 1;
        assert(replaced(cs@, from, to).take(i as int) =~= replaced(cs@, from, to).take(
            i as int - 1,
        ).push(c));
    }
    assert(replaced(cs@, from, to).take(cs.len() as int) =~= replaced(cs@, from, to));
    out
}

/// The first `x` is at or before the end, and nothing before it is `x`.
pub proof fn lemma_first_index<T>(s: Seq<T>, x: T)
    ensures
        0 <= first_index(s, x) <= s.len(),
        forall|j: int| 0 <= j < first_index(s, x) ==> s[j] != x,
        first_index(s, x) < s.len() ==> s[first_index(s, x)] == x,
        first_index(s, x) < s.len() <==> s.contains(x),
    decreases s.len(),
{
    if s.len() == 0 || s[0] == x {
    } else {
        lemma_first_index(s.skip(1), x);
        let k = first_index(s.skip(1), x);
        assert forall|j: int| 0 <= j < 1 + k implies s[j] != x by {
            if j > 0 {
                assert(s.skip(1)[j - 1] == s[j]);
            }
        }
        if 1 + k < s.len() {
            assert(s.skip(1)[k] == s[1 + k]);
        }
    }
}

/// A position that holds `x` and has no `x` before it is the first index of `x`.
pub proof fn lemma_first_index_is<T>(s: Seq<T>, x: T, k: int)
    requires
        0 <= k <= s.len(),
        forall|j: int| 0 <= j < k ==> s[j] != x,
        k < s.len() ==> s[k] == x,
    ensures
        first_index(s, x) == k,
{
    lemma_first_index(s, x);
    let f = first_index(s, x);
    if f < k {
        assert(s[f] == x);
    } else if k < f {
        assert(s[k] != x);
    }
}

/// The part of `s` before its first `c`.
pub fn segment_before(s: &str, c: char) -> (out: String)
    ensures
        out@ == before_first(s@, c),
{
    let cs = chars_of(s);
    let mut i: usize = 0;
    while i < cs.len() && cs[i] != c
        invariant
            i <= cs.len(),
            forall|j: int| 0 <= j < i ==> cs@[j] != c,
        decreases cs.len() - i,
    {
        i += 1;
    }
    proof {
        lemma_first_index_is(cs@, c, i as int);
    }
    string_from(&cs, 0, i)
}

/// `s` without leading and trailing white space.
pub fn trim(s: &str) -> (out: String)
    ensures
        out@ == trimmed(s@),
{
    let cs = chars_of(s);
    let mut start: usize = 0;
    assert(cs@.skip(0) =~= cs@);
    while start < cs.len() && char_is_whitespace(cs[start])
        invariant
            start <= cs.len(),
            trim_start(cs@) == trim_start(cs@.skip(start as int)),
        decreases cs.len() - start,
    {
        assert(cs@.skip(start as int).skip(1) =~= cs@.skip(start as int + 1));
        start += 1;
    }
    assert(trim_start(cs@) == cs@.skip(start as int));
    let mut end: usize = cs.len();
    while end > start && char_is_whitespace(cs[end - 1])
        invariant
            start <= end <= cs.len(),
            trim_end(cs@.skip(start as int)) == trim_end(
                cs@.subrange(start as int, end as int),
            ),
        decreases end - start,
    {
        assert(cs@.subrange(start as int, end as int).drop_last() =~= cs@.subrange(
            start as int,
            end as int - 1,
        ));
        end -= 1;
    }
    assert(cs@.skip(start as int) =~= cs@.subrange(start as int, cs.len() as int));
    string_from(&cs, start, end)
}

/// The number of words in `s`: maximal runs of characters that are not white space.
pub fn count_words(s: &str) -> (n: usize)
    ensures
        n == word_count(s@),
{
    let cs = chars_of(s);
    let mut n: usize = 0;
    let mut in_space: bool = true;
    let mut i: usize = 0;
    while i < cs.len()
        invariant
            i <= cs.len(),
            n == word_count(cs@.take(i as int)),
            n <= i,
            in_space == (i == 0 || is_whitespace(cs@[i as int - 1])),
        decreases cs.len() - i,
    {
        let space = char_is_whitespace(cs[i]);
        assert(cs@.take(i as int + 1).drop_last() =~= cs@.take(i as int));
        if !space && in_space {
            n += 1;
        }
        in_space = space;
        i += 1;
    }
    assert(cs@.take(cs.len() as int) =~= cs@);
    n
}

/// The pieces of `s` between occurrences of `c`.
pub fn split_at_char(s: &str, c: char) -> (out: Vec<String>)
    ensures
        out.deep_view() == split(s@, c),
{
    let cs = chars_of(s);
    let mut out: Vec<String> = Vec::new();
    let mut current = String::new();
    let mut i: usize = 0;
    while i < cs.len()
        invariant
            i <= cs.len(),
            out.deep_view().push(current@) == split(cs@.take(i as int), c),
        decreases cs.len() - i,
    {
        let ghost before = out.deep_view();
        let ghost piece = current@;
        assert(cs@.take(i as int + 1).drop_last() =~= cs@.take(i as int));
        assert(before.push(piece).drop_last() =~= before);
        if cs[i] == c {
            out.push(current);
            current = String::new();
            assert(out.deep_view() =~= before.push(piece));
        } else {
            push_char(&mut current, cs[i]);
            assert(out.deep_view() =~= before);
        }
        i += 1;
    }
    assert(cs@.take(cs.len() as int) =~= cs@);
    let ghost before = out.deep_view();
    out.push(current);
    assert(out.deep_view() =~= before.push(current@));
    out
}

/// Whether `list` holds the text `x`.
pub fn contains_text(list: &Vec<String>, x: &str) -> (r: bool)
    ensures
        r == list.deep_view().contains(x@),
{
    let mut i: usize = 0;
    while i < list.len()
        invariant
            i <= list.len(),
            forall|j: int| 0 <= j < i ==> list.deep_view()[j] != x@,
        decreases list.len() - i,
    {
        if text_eq(list[i].as_str(), x) {
            assert(list.deep_view()[i as int] == x@);
            return true;
        }
        i += 1;
    }
    false
}

/// A copy of `list`.
pub fn clone_texts(list: &Vec<String>) -> (out: Vec<String>)
    ensures
        out.deep_view() == list.deep_view(),
{
    let mut out: Vec<String> = Vec::new();
    let mut i: usize = 0;
    while i < list.len()
        invariant
            i <= list.len(),
            out.deep_view() == list.deep_view().take(i as int),
        decreases list.len() - i,
    {
        let ghost before = out.deep_view();
        out.push(list[i].clone());
        assert(out.deep_view() =~= before.push(list[i as int]@));
        i += 1;
        assert(list.deep_view().take(i as int) =~= before.push(list[i as int - 1]@));
    }
    assert(list.deep_view().take(list.len() as int) =~= list.deep_view());
    out
}

/// A copy of an optional list.
pub fn clone_opt_texts(list: &Option<Vec<String>>) -> (out: Option<Vec<String>>)
    ensures
        opt_texts(out) == opt_texts(*list),
{
    match list {
        Some(v) => Some(clone_texts(v)),
        None => None,
    }
}

/// A copy of an optional string.
pub fn clone_opt_text(value: &Option<String>) -> (out: Option<String>)
    ensures
        opt_text(out) == opt_text(*value),
{
    match value {
        Some(s) => Some(s.clone()),
        None => None,
    }
}

/// Appends to `target` each element of `items` that it does not hold yet.
pub fn append_new(target: &mut Vec<String>, items: &Vec<String>)
    ensures
        final(target).deep_view() == extended(old(target).deep_view(), items.deep_view()),
{
    let mut i: usize = 0;
    assert(items.deep_view().take(0) =~= Seq::<Seq<char>>::empty());
    while i < items.len()
        invariant
            i <= items.len(),
            target.deep_view() == extended(
                old(target).deep_view(),
                items.deep_view().take(i as int),
            ),
        decreases items.len() - i,
    {
        let ghost before = target.deep_view();
        let ghost next = items.deep_view().take(i as int + 1);
        assert(next.drop_last() =~= items.deep_view().take(i as int));
        assert(next.last() == items.deep_view()[i as int]);
        if !contains_text(target, items[i].as_str()) {
            target.push(items[i].clone());
            assert(target.deep_view() =~= before.push(items[i as int]@));
        }
        i += 1;
    }
    assert(items.deep_view().take(items.len() as int) =~= items.deep_view());
}

/// `items` with only the first occurrence of each text kept.
pub fn dedup_texts(items: &Vec<String>) -> (out: Vec<String>)
    ensures
        out.deep_view() == dedup(items.deep_view()),
{
    let mut out: Vec<String> = Vec::new();
    proof {
        let none = Seq::<Seq<char>>::empty();
        assert(out.deep_view() =~= none);
        assert(none + items.deep_view() =~= items.deep_view());
        lemma_extended_is_dedup(none, items.deep_view());
    }
    append_new(&mut out, items);
    out
}

/// The texts of a list of string slices.
pub open spec fn slice_texts(items: Seq<&str>) -> Seq<Seq<char>> {
    Seq::new(items.len(), |i: int| items[i]@)
}

/// Owned copies of a list of string slices.
pub fn owned_texts(items: &[&str]) -> (out: Vec<String>)
    ensures
        out.deep_view() == slice_texts(items@),
{
    let mut out: Vec<String> = Vec::new();
    let mut i: usize = 0;
    while i < items.len()
        invariant
            i <= items.len(),
            out.deep_view() == slice_texts(items@).take(i as int),
        decreases items.len() - i,
    {
        let ghost before = out.deep_view();
        let s = items[i].to_owned();
        out.push(s);
        assert(out.deep_view() =~= before.push(items@[i as int]@));
        i += 1;
        assert(slice_texts(items@).take(i as int) =~= before.push(items@[i as int - 1]@));
    }
    assert(slice_texts(items@).take(items.len() as int) =~= slice_texts(items@));
    out
}

} // verus!
