//! Searching, splitting, trimming and replacing over character sequences, with the
//! meaning that `str`'s methods of the same names give them.
use vstd::prelude::*;
use crate::text::{chars_of, string_of};

verus! {

/// Whether `p` occurs in `s` at position `i`.
pub open spec fn occurs_at(s: Seq<char>, p: Seq<char>, i: int) -> bool {
    0 <= i && i + p.len() <= s.len() && s.subrange(i, i + p.len()) == p
}

/// Whether `p` occurs anywhere in `s` (`str::contains`).
pub open spec fn contains_text(s: Seq<char>, p: Seq<char>) -> bool {
    exists|i: int| #[trigger] occurs_at(s, p, i)
}

/// Text that occurs in a middle piece occurs in the whole, shifted by the first piece.
pub proof fn lemma_occurs_within(a: Seq<char>, b: Seq<char>, c: Seq<char>, p: Seq<char>, off: int)
    requires
        occurs_at(b, p, off),
    ensures
        occurs_at(a + b + c, p, a.len() + off),
        contains_text(a + b + c, p),
{
    assert((a + b + c).subrange(a.len() + off, a.len() + off + p.len()) =~= b.subrange(off, off + p.len()));
}

/// The number of non-overlapping occurrences of a non-empty `p` in `s`, found from the
/// left (`str::matches(..).count()`).
pub open spec fn count_matches(s: Seq<char>, p: Seq<char>) -> nat
    decreases s.len(),
{
    if p.len() == 0 || s.len() < p.len() {
        0
    } else if s.take(p.len() as int) == p {
        1 + count_matches(s.skip(p.len() as int), p)
    } else {
        count_matches(s.skip(1), p)
    }
}

/// `s` with each non-overlapping occurrence of a non-empty `p`, found from the left,
/// replaced by `r` (`str::replace`).
pub open spec fn replace_text(s: Seq<char>, p: Seq<char>, r: Seq<char>) -> Seq<char>
    decreases s.len(),
{
    if p.len() == 0 || s.len() < p.len() {
        s
    } else if s.take(p.len() as int) == p {
        r + replace_text(s.skip(p.len() as int), p, r)
    } else {
        seq![s[0]] + replace_text(s.skip(1), p, r)
    }
}

/// The pieces of `s` between occurrences of `c` (`str::split` on a character).
pub open spec fn split_text(s: Seq<char>, c: char) -> Seq<Seq<char>>
    decreases s.len(),
{
    if s.len() == 0 {
        seq![Seq::<char>::empty()]
    } else {
        let init = split_text(s.drop_last(), c);
        if s.last() == c {
            init.push(Seq::<char>::empty())
        } else {
            init.update(init.len() - 1, init.last().push(s.last()))
        }
    }
}

/// `char::is_whitespace`: the Unicode `White_Space` characters.
pub open spec fn is_unicode_ws(c: char) -> bool {
    ||| ('\u{9}' <= c && c <= '\u{d}')
    ||| c == ' '
    ||| c == '\u{85}'
    ||| c == '\u{a0}'
    ||| c == '\u{1680}'
    ||| ('\u{2000}' <= c && c <= '\u{200a}')
    ||| c == '\u{2028}'
    ||| c == '\u{2029}'
    ||| c == '\u{202f}'
    ||| c == '\u{205f}'
    ||| c == '\u{3000}'
}

/// `s` without its leading characters that satisfy `strip`.
pub open spec fn strip_start(s: Seq<char>, strip: spec_fn(char) -> bool) -> Seq<char>
    decreases s.len(),
{
    if s.len() > 0 && strip(s[0]) {
        strip_start(s.drop_first(), strip)
    } else {
        s
    }
}

/// `s` without its trailing characters that satisfy `strip`.
pub open spec fn strip_end(s: Seq<char>, strip: spec_fn(char) -> bool) -> Seq<char>
    decreases s.len(),
{
    if s.len() > 0 && strip(s.last()) {
        strip_end(s.drop_last(), strip)
    } else {
        s
    }
}

/// The predicate "is Unicode whitespace".
pub open spec fn unicode_ws() -> spec_fn(char) -> bool {
    |c: char| is_unicode_ws(c)
}

/// The predicate "is the character `c`".
pub open spec fn is_char(c: char) -> spec_fn(char) -> bool {
    |x: char| x == c
}

/// `str::trim`: without leading and trailing Unicode whitespace.
pub open spec fn trim_text(s: Seq<char>) -> Seq<char> {
    strip_end(strip_start(s, unicode_ws()), unicode_ws())
}

/// `str::trim_start_matches` with one character.
pub open spec fn trim_start_char(s: Seq<char>, c: char) -> Seq<char> {
    strip_start(s, is_char(c))
}

/// `str::trim_end_matches` with one character.
pub open spec fn trim_end_char(s: Seq<char>, c: char) -> Seq<char> {
    strip_end(s, is_char(c))
}

/// `char::is_ascii_whitespace`.
pub open spec fn is_ascii_space(c: char) -> bool {
    c == ' ' || c == '\t' || c == '\n' || c == '\x0C' || c == '\r'
}

/// The leading run of `s` that holds no ASCII whitespace.
pub open spec fn word_prefix(s: Seq<char>) -> Seq<char>
    decreases s.len(),
{
    if s.len() == 0 || is_ascii_space(s[0]) {
        Seq::<char>::empty()
    } else {
        seq![s[0]] + word_prefix(s.drop_first())
    }
}

/// The first word of `s` (`str::split_ascii_whitespace().next()`).
pub open spec fn first_word(s: Seq<char>) -> Option<Seq<char>> {
    let t = strip_start(s, |c: char| is_ascii_space(c));
    if t.len() == 0 {
        None
    } else {
        Some(word_prefix(t))
    }
}

proof fn lemma_skip_skip(s: Seq<char>, i: int, k: int)
    requires
        0 <= i,
        0 <= k,
        i + k <= s.len(),
    ensures
        s.skip(i).skip(k) == s.skip(i + k),
        s.skip(i).take(k) == s.subrange(i, i + k),
{
    assert(s.skip(i).skip(k) =~= s.skip(i + k));
    assert(s.skip(i).take(k) =~= s.subrange(i, i + k));
}

/// Whether `p` occurs in `s` at position `i`.
pub fn occurs_at_index(s: &Vec<char>, p: &Vec<char>, i: usize) -> (found: bool)
    ensures
        found == occurs_at(s@, p@, i as int),
{
    if i > s.len() || p.len() > s.len() - i {
        return false;
    }
    let mut k: usize = 0;
    while k < p.len()
        invariant
            i + p.len() <= s.len(),
            k <= p.len(),
            forall|j: int| 0 <= j < k ==> s@[i + j] == p@[j],
        decreases p.len() - k,
    {
        if s[i + k] != p[k] {
            assert(s@.subrange(i as int, i + p.len())[k as int] != p@[k as int]);
            return false;
        }
        k = k + 1;
    }
    assert(s@.subrange(i as int, i + p.len()) =~= p@);
    true
}

/// Whether `p` occurs anywhere in `s`.
pub fn contains_chars(s: &Vec<char>, p: &Vec<char>) -> (found: bool)
    ensures
        found == contains_text(s@, p@),
{
    if p.len() > s.len() {
        assert forall|j: int| !occurs_at(s@, p@, j) by {}
        return false;
    }
    if p.len() == 0 {
        assert(s@.subrange(0, 0) =~= p@);
        assert(occurs_at(s@, p@, 0));
        return true;
    }
    let last: usize = s.len() - p.len();
    let mut i: usize = 0;
    while i <= last
        invariant
            last == s@.len() - p@.len(),
            p@.len() > 0,
            i <= last + 1,
            forall|j: int| 0 <= j < i ==> !occurs_at(s@, p@, j),
        decreases s.len() + 1 - i,
    {
        if occurs_at_index(s, p, i) {
            return true;
        }
        i = i + 1;
    }
    assert forall|j: int| !occurs_at(s@, p@, j) by {
        if 0 <= j && j < i {
        }
    }
    false
}

/// Whether the text `p` occurs in the string `s`.
pub fn str_contains(s: &str, p: &str) -> (found: bool)
    ensures
        found == contains_text(s@, p@),
{
    contains_chars(&chars_of(s), &chars_of(p))
}

/// The number of non-overlapping occurrences of a non-empty `p` in `s`.
pub fn count_matches_in(s: &Vec<char>, p: &Vec<char>) -> (count: usize)
    requires
        p@.len() > 0,
    ensures
        count == count_matches(s@, p@),
{
    let mut count: usize = 0;
    let mut i: usize = 0;
    assert(s@.skip(0) == s@);
    while i < s.len() && p.len() <= s.len() - i
        invariant
            i <= s@.len(),
            p@.len() > 0,
            count + count_matches(s@.skip(i as int), p@) == count_matches(s@, p@),
            count <= i,
        decreases s@.len() - i,
    {
        let ghost rest = s@.skip(i as int);
        proof {
            lemma_skip_skip(s@, i as int, p@.len() as int);
            lemma_skip_skip(s@, i as int, 1);
        }
        if occurs_at_index(s, p, i) {
            assert(rest.take(p@.len() as int) == p@);
            count = count + 1;
            i = i + p.len();
        } else {
            assert(rest.take(p@.len() as int) != p@);
            i = i + 1;
        }
    }
    assert(count_matches(s@.skip(i as int), p@) == 0);
    count
}

/// The number of non-overlapping occurrences of the non-empty text `p` in `s`.
pub fn str_count_matches(s: &str, p: &str) -> (count: usize)
    requires
        p@.len() > 0,
    ensures
        count == count_matches(s@, p@),
{
    count_matches_in(&chars_of(s), &chars_of(p))
}

/// `s` with each occurrence of the non-empty `p` replaced by `r`.
pub fn replace_chars(s: &Vec<char>, p: &Vec<char>, r: &Vec<char>) -> (out: Vec<char>)
    requires
        p@.len() > 0,
    ensures
        out@ == replace_text(s@, p@, r@),
{
    let mut out: Vec<char> = Vec::new();
    let mut i: usize = 0;
    assert(s@.skip(0) == s@);
    assert(out@ + replace_text(s@, p@, r@) == replace_text(s@, p@, r@));
    while i < s.len() && p.len() <= s.len() - i
        invariant
            i <= s@.len(),
            p@.len() > 0,
            out@ + replace_text(s@.skip(i as int), p@, r@) == replace_text(s@, p@, r@),
        decreases s@.len() - i,
    {
        let ghost rest = s@.skip(i as int);
        let ghost before = out@;
        proof {
            lemma_skip_skip(s@, i as int, p@.len() as int);
            lemma_skip_skip(s@, i as int, 1);
        }
        if occurs_at_index(s, p, i) {
            assert(rest.take(p@.len() as int) == p@);
            let mut k: usize = 0;
            while k < r.len()
                invariant
                    k <= r@.len(),
                    out@ == before + r@.take(k as int),
                decreases r@.len() - k,
            {
                out.push(r[k]);
                k = k + 1;
                assert(out@ == before + r@.take(k as int));
            }
            assert(r@.take(r@.len() as int) == r@);
            assert(before + r@ + replace_text(s@.skip(i + p@.len()), p@, r@) == before + (r@
                + replace_text(s@.skip(i + p@.len()), p@, r@)));
            i = i + p.len();
        } else {
            assert(rest.take(p@.len() as int) != p@);
            assert(rest[0] == s@[i as int]);
            out.push(s[i]);
            assert(before.push(s@[i as int]) + replace_text(s@.skip(i + 1), p@, r@) == before + (
            seq![s@[i as int]] + replace_text(s@.skip(i + 1), p@, r@)));
            i = i + 1;
        }
    }
    let ghost before = out@;
    let mut j: usize = i;
    while j < s.len()
        invariant
            i <= j <= s@.len(),
            out@ == before + s@.subrange(i as int, j as int),
        decreases s@.len() - j,
    {
        out.push(s[j]);
        j = j + 1;
        assert(out@ == before + s@.subrange(i as int, j as int));
    }
    assert(s@.subrange(i as int, s@.len() as int) == s@.skip(i as int));
    out
}

/// The string `s` with each occurrence of the non-empty text `p` replaced by `r`.
pub fn str_replace(s: &str, p: &str, r: &str) -> (out: String)
    requires
        p@.len() > 0,
    ensures
        out@ == replace_text(s@, p@, r@),
{
    let replaced = replace_chars(&chars_of(s), &chars_of(p), &chars_of(r));
    string_of(&replaced)
}

pub proof fn lemma_split_nonempty(s: Seq<char>, c: char)
    ensures
        split_text(s, c).len() >= 1,
    decreases s.len(),
{
    if s.len() > 0 {
        lemma_split_nonempty(s.drop_last(), c);
    }
}

/// The pieces of `s` between occurrences of `c`.
pub fn split_chars(s: &Vec<char>, c: char) -> (pieces: Vec<Vec<char>>)
    ensures
        pieces@.map_values(|v: Vec<char>| v@) == split_text(s@, c),
{
    let mut pieces: Vec<Vec<char>> = Vec::new();
    let mut current: Vec<char> = Vec::new();
    let mut i: usize = 0;
    while i < s.len()
        invariant
            i <= s@.len(),
            pieces@.map_values(|v: Vec<char>| v@).push(current@) == split_text(s@.take(i as int), c),
        decreases s@.len() - i,
    {
        let ghost prefix = s@.take(i as int);
        let ghost next = s@.take(i + 1);
        proof {
            assert(next.drop_last() == prefix);
            assert(next.last() == s@[i as int]);
            lemma_split_nonempty(prefix, c);
        }
        if s[i] == c {
            let ghost old_pieces = pieces@;
            pieces.push(current);
            current = Vec::new();
            assert(pieces@.map_values(|v: Vec<char>| v@) == old_pieces.map_values(|v: Vec<char>| v@).push(
                split_text(prefix, c).last(),
            ));
        } else {
            current.push(s[i]);
        }
        i = i + 1;
    }
    assert(s@.take(s@.len() as int) == s@);
    let ghost old_pieces = pieces@;
    pieces.push(current);
    assert(pieces@.map_values(|v: Vec<char>| v@) == old_pieces.map_values(|v: Vec<char>| v@).push(
        split_text(s@, c).last(),
    ));
    pieces
}

/// Whether `c` is Unicode whitespace.
pub fn is_whitespace_char(c: char) -> (ws: bool)
    ensures
        ws == is_unicode_ws(c),
{
    ('\u{9}' <= c && c <= '\u{d}') || c == ' ' || c == '\u{85}' || c == '\u{a0}' || c == '\u{1680}'
        || ('\u{2000}' <= c && c <= '\u{200a}') || c == '\u{2028}' || c == '\u{2029}' || c
        == '\u{202f}' || c == '\u{205f}' || c == '\u{3000}'
}

proof fn lemma_strip_start_at(s: Seq<char>, strip: spec_fn(char) -> bool, i: int)
    requires
        0 <= i <= s.len(),
        forall|j: int| 0 <= j < i ==> strip(s[j]),
    ensures
        strip_start(s, strip) == strip_start(s.skip(i), strip),
    decreases i,
{
    if i > 0 {
        assert(s.skip(1).skip(i - 1) =~= s.skip(i));
        assert(s.drop_first() == s.skip(1));
        lemma_strip_start_at(s.skip(1), strip, i - 1);
    } else {
        assert(s.skip(0) =~= s);
    }
}

proof fn lemma_strip_end_at(s: Seq<char>, strip: spec_fn(char) -> bool, i: int)
    requires
        0 <= i <= s.len(),
        forall|j: int| i <= j < s.len() ==> strip(s[j]),
    ensures
        strip_end(s, strip) == strip_end(s.take(i), strip),
    decreases s.len() - i,
{
    if i < s.len() {
        assert(s.drop_last().take(i) =~= s.take(i));
        lemma_strip_end_at(s.drop_last(), strip, i);
    } else {
        assert(s.take(i) =~= s);
    }
}

/// The characters of `s` from `from` up to `to`.
pub fn sub_chars(s: &Vec<char>, from: usize, to: usize) -> (out: Vec<char>)
    requires
        from <= to <= s@.len(),
    ensures
        out@ == s@.subrange(from as int, to as int),
{
    let mut out: Vec<char> = Vec::new();
    let mut j: usize = from;
    while j < to
        invariant
            from <= j <= to <= s@.len(),
            out@ == s@.subrange(from as int, j as int),
        decreases to - j,
    {
        out.push(s[j]);
        j = j + 1;
        assert(out@ == s@.subrange(from as int, j as int));
    }
    out
}

/// `s` without leading and trailing Unicode whitespace.
pub fn trim_chars(s: &Vec<char>) -> (out: Vec<char>)
    ensures
        out@ == trim_text(s@),
{
    let ghost ws = unicode_ws();
    let mut a: usize = 0;
    while a < s.len() && is_whitespace_char(s[a])
        invariant
            a <= s@.len(),
            forall|j: int| 0 <= j < a ==> is_unicode_ws(s@[j]),
        decreases s@.len() - a,
    {
        a = a + 1;
    }
    proof {
        lemma_strip_start_at(s@, ws, a as int);
    }
    let mut b: usize = s.len();
    while b > a && is_whitespace_char(s[b - 1])
        invariant
            a <= b <= s@.len(),
            forall|j: int| b <= j < s@.len() ==> is_unicode_ws(s@[j]),
        decreases b,
    {
        b = b - 1;
    }
    let ghost t = s@.skip(a as int);
    proof {
        assert(strip_start(t, ws) == t);
        lemma_strip_end_at(t, ws, b - a);
        assert(t.take(b - a) =~= s@.subrange(a as int, b as int));
        if b > a {
            assert(strip_end(s@.subrange(a as int, b as int), ws) == s@.subrange(a as int, b as int));
        }
    }
    sub_chars(s, a, b)
}

/// `s` without leading occurrences of `c`.
pub fn trim_start_char_of(s: &Vec<char>, c: char) -> (out: Vec<char>)
    ensures
        out@ == trim_start_char(s@, c),
{
    let ghost f = is_char(c);
    let mut a: usize = 0;
    while a < s.len() && s[a] == c
        invariant
            a <= s@.len(),
            forall|j: int| 0 <= j < a ==> s@[j] == c,
        decreases s@.len() - a,
    {
        a = a + 1;
    }
    proof {
        lemma_strip_start_at(s@, f, a as int);
        assert(s@.skip(a as int) =~= s@.subrange(a as int, s@.len() as int));
    }
    sub_chars(s, a, s.len())
}

/// `s` without trailing occurrences of `c`.
pub fn trim_end_char_of(s: &Vec<char>, c: char) -> (out: Vec<char>)
    ensures
        out@ == trim_end_char(s@, c),
{
    let ghost f = is_char(c);
    let mut b: usize = s.len();
    while b > 0 && s[b - 1] == c
        invariant
            b <= s@.len(),
            forall|j: int| b <= j < s@.len() ==> s@[j] == c,
        decreases b,
    {
        b = b - 1;
    }
    proof {
        lemma_strip_end_at(s@, f, b as int);
        assert(s@.take(b as int) =~= s@.subrange(0, b as int));
    }
    sub_chars(s, 0, b)
}

proof fn lemma_word_prefix_at(s: Seq<char>, i: int)
    requires
        0 <= i <= s.len(),
        forall|j: int| 0 <= j < i ==> !is_ascii_space(s[j]),
        i == s.len() || is_ascii_space(s[i]),
    ensures
        word_prefix(s) == s.take(i),
    decreases i,
{
    if i > 0 {
        lemma_word_prefix_at(s.drop_first(), i - 1);
        assert(seq![s[0]] + s.drop_first().take(i - 1) =~= s.take(i));
    }
}

/// The first ASCII-whitespace-separated word of `s`, if it has one.
pub fn first_word_of(s: &Vec<char>) -> (word: Option<Vec<char>>)
    ensures
        word matches Some(w) ==> first_word(s@) == Some(w@),
        word is None ==> first_word(s@) is None,
{
    let ghost f = |c: char| is_ascii_space(c);
    let mut a: usize = 0;
    while a < s.len() && (s[a] == ' ' || s[a] == '\t' || s[a] == '\n' || s[a] == '\x0C' || s[a] == '\r')
        invariant
            a <= s@.len(),
            forall|j: int| 0 <= j < a ==> is_ascii_space(s@[j]),
        decreases s@.len() - a,
    {
        a = a + 1;
    }
    proof {
        lemma_strip_start_at(s@, f, a as int);
    }
    let ghost t = s@.skip(a as int);
    if a == s.len() {
        assert(t.len() == 0);
        return None;
    }
    proof {
        assert(!is_ascii_space(t[0]));
        assert(strip_start(t, f) == t);
    }
    let mut b: usize = a;
    while b < s.len() && !(s[b] == ' ' || s[b] == '\t' || s[b] == '\n' || s[b] == '\x0C' || s[b] == '\r')
        invariant
            a <= b <= s@.len(),
            forall|j: int| a <= j < b ==> !is_ascii_space(s@[j]),
        decreases s@.len() - b,
    {
        b = b + 1;
    }
    proof {
        lemma_word_prefix_at(t, b - a);
        assert(t.take(b - a) =~= s@.subrange(a as int, b as int));
    }
    Some(sub_chars(s, a, b))
}

/// The characters of a vector as a `String`, trimmed of Unicode whitespace.
pub fn str_trim(s: &str) -> (out: String)
    ensures
        out@ == trim_text(s@),
{
    string_of(&trim_chars(&chars_of(s)))
}

} // verus!
