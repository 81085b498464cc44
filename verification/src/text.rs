//! Character-sequence helpers shared by the SQL and connection-string builders.
use vstd::prelude::*;
use vstd::string::*;

verus! {

/// The decimal digit character for `d < 10`.
pub open spec fn digit_char(d: nat) -> char {
    if d == 0 { '0' } else if d == 1 { '1' } else if d == 2 { '2' } else if d == 3 { '3' }
    else if d == 4 { '4' } else if d == 5 { '5' } else if d == 6 { '6' } else if d == 7 { '7' }
    else if d == 8 { '8' } else { '9' }
}

/// Decimal rendering of a natural number, as `Display` prints it.
pub open spec fn decimal(n: nat) -> Seq<char>
    decreases n,
{
    if n < 10 {
        seq![digit_char(n)]
    } else {
        decimal(n / 10).push(digit_char(n % 10))
    }
}

/// Decimal rendering of a signed integer, as `Display` prints it.
pub open spec fn decimal_signed(n: int) -> Seq<char> {
    if n < 0 {
        seq!['-'] + decimal((-n) as nat)
    } else {
        decimal(n as nat)
    }
}

/// Appends a character with `String::push`.
#[verifier::external_body]
pub(crate) fn push_char(s: &mut String, c: char)
    ensures
        final(s)@ == old(s)@.push(c),
{
    s.push(c);
}

/// The characters of a string slice, in order.
pub fn chars_of(s: &str) -> (v: Vec<char>)
    ensures
        v@ == s@,
{
    let mut v: Vec<char> = Vec::new();
    for c in it: s.chars()
        invariant
            v@ == it.seq().take(it.index() as int),
    {
        v.push(c);
        assert(v@ == it.seq().take(it.index() as int + 1));
    }
    v
}


/// The digit character for a value below ten.
pub fn digit(d: u64) -> (c: char)
    requires
        d < 10,
    ensures
        c == digit_char(d as nat),
{
    if d == 0 { '0' } else if d == 1 { '1' } else if d == 2 { '2' } else if d == 3 { '3' }
    else if d == 4 { '4' } else if d == 5 { '5' } else if d == 6 { '6' } else if d == 7 { '7' }
    else if d == 8 { '8' } else { '9' }
}

/// Appends the decimal rendering of `n`.
pub fn push_decimal(out: &mut String, n: u64)
    ensures
        final(out)@ == old(out)@ + decimal(n as nat),
    decreases n,
{
    if n >= 10 {
        push_decimal(out, n / 10);
    }
    push_char(out, digit(n % 10));
    proof {
        if n >= 10 {
            assert(old(out)@ + decimal(n as nat) == old(out)@ + decimal((n / 10) as nat) + seq![
                digit_char((n % 10) as nat),
            ]);
        }
    }
}

/// Appends the decimal rendering of a signed `n`.
pub fn push_decimal_signed(out: &mut String, n: i64)
    ensures
        final(out)@ == old(out)@ + decimal_signed(n as int),
{
    if n < 0 {
        push_char(out, '-');
        let magnitude: u64 = if n == i64::MIN {
            9_223_372_036_854_775_808u64
        } else {
            (-n) as u64
        };
        push_decimal(out, magnitude);
        assert(final(out)@ == old(out)@ + (seq!['-'] + decimal((-n) as nat)));
    } else {
        push_decimal(out, n as u64);
    }
}

/// Appends a string slice.
pub fn push_str(out: &mut String, s: &str)
    ensures
        final(out)@ == old(out)@ + s@,
{
    out.append(s);
}

/// Doubling every single quote, which makes a value safe inside a SQL string literal.
pub open spec fn escape_quotes(s: Seq<char>) -> Seq<char>
    decreases s.len(),
{
    if s.len() == 0 {
        Seq::empty()
    } else {
        let rest = escape_quotes(s.drop_last());
        if s.last() == '\'' {
            rest + seq!['\'', '\'']
        } else {
            rest.push(s.last())
        }
    }
}

/// Appends `s` with every single quote doubled.
pub fn push_escaped(out: &mut String, s: &str)
    ensures
        final(out)@ == old(out)@ + escape_quotes(s@),
{
    let chars = chars_of(s);
    let ghost start = out@;
    let mut i: usize = 0;
    while i < chars.len()
        invariant
            i <= chars.len(),
            chars@ == s@,
            out@ == start + escape_quotes(chars@.take(i as int)),
        decreases chars.len() - i,
    {
        let c = chars[i];
        assert(chars@.take(i as int + 1).drop_last() == chars@.take(i as int));
        if c == '\'' {
            push_char(out, '\'');
            push_char(out, '\'');
        } else {
            push_char(out, c);
        }
        i = i + 1;
    }
    assert(chars@.take(chars.len() as int) == chars@);
}

/// `s` with every single quote doubled.
pub fn escaped(s: &str) -> (res: String)
    ensures
        res@ == escape_quotes(s@),
{
    let mut res = String::new();
    push_escaped(&mut res, s);
    res
}

/// `s` as a quoted SQL string literal: `'...'` with inner quotes doubled.
pub open spec fn sql_literal(s: Seq<char>) -> Seq<char> {
    seq!['\''] + escape_quotes(s) + seq!['\'']
}

/// Appends `s` as a quoted SQL string literal.
pub fn push_sql_literal(out: &mut String, s: &str)
    ensures
        final(out)@ == old(out)@ + sql_literal(s@),
{
    push_char(out, '\'');
    push_escaped(out, s);
    push_char(out, '\'');
    assert(final(out)@ == old(out)@ + sql_literal(s@));
}

/// The parts joined with `sep` between consecutive parts.
pub open spec fn join(parts: Seq<Seq<char>>, sep: Seq<char>) -> Seq<char>
    decreases parts.len(),
{
    if parts.len() == 0 {
        Seq::empty()
    } else if parts.len() == 1 {
        parts[0]
    } else {
        join(parts.drop_last(), sep) + sep + parts.last()
    }
}

/// The views of a vector of strings.
pub open spec fn string_views(v: Seq<String>) -> Seq<Seq<char>> {
    v.map_values(|s: String| s@)
}

/// Appends the parts joined with `sep`.
pub fn push_joined(out: &mut String, parts: &Vec<String>, sep: &str)
    ensures
        final(out)@ == old(out)@ + join(string_views(parts@), sep@),
{
    let ghost start = out@;
    let mut i: usize = 0;
    while i < parts.len()
        invariant
            i <= parts.len(),
            out@ == start + join(string_views(parts@).take(i as int), sep@),
        decreases parts.len() - i,
    {
        let ghost prefix = string_views(parts@).take(i as int);
        assert(string_views(parts@).take(i as int + 1).drop_last() == prefix);
        assert(string_views(parts@).take(i as int + 1).last() == parts@[i as int]@);
        if i > 0 {
            push_str(out, sep);
        }
        push_str(out, parts[i].as_str());
        proof {
            if i == 0 {
                assert(string_views(parts@).take(1) == seq![parts@[0]@]);
                assert(out@ == start + parts@[0]@);
            } else {
                assert(out@ == start + join(prefix, sep@) + sep@ + parts@[i as int]@);
            }
        }
        i = i + 1;
    }
    assert(string_views(parts@).take(parts.len() as int) == string_views(parts@));
}

/// The parts joined with `sep`.
pub fn joined(parts: &Vec<String>, sep: &str) -> (res: String)
    ensures
        res@ == join(string_views(parts@), sep@),
{
    let mut res = String::new();
    push_joined(&mut res, parts, sep);
    res
}

/// A string holding the characters of `s`.
pub fn to_owned_string(s: &str) -> (res: String)
    ensures
        res@ == s@,
{
    let mut res = String::new();
    push_str(&mut res, s);
    res
}


/// ASCII lowercasing of one character (`char::to_ascii_lowercase`).
pub open spec fn ascii_lower_char(c: char) -> char {
    if 'A' <= c && c <= 'Z' {
        ((c as u32) + 32) as char
    } else {
        c
    }
}

/// ASCII lowercasing of every character (`str::to_ascii_lowercase`).
pub open spec fn ascii_lower(s: Seq<char>) -> Seq<char> {
    s.map_values(|c: char| ascii_lower_char(c))
}

/// ASCII lowercasing of one character.
pub fn lower_ascii_char(c: char) -> (l: char)
    ensures
        l == ascii_lower_char(c),
{
    if 'A' <= c && c <= 'Z' {
        ((c as u8) + 32) as char
    } else {
        c
    }
}

/// The ASCII-lowercased copy of a character vector.
pub fn ascii_lowercase_chars(s: &Vec<char>) -> (l: Vec<char>)
    ensures
        l@ == ascii_lower(s@),
{
    let mut l: Vec<char> = Vec::new();
    let mut i: usize = 0;
    while i < s.len()
        invariant
            i <= s.len(),
            l@ == ascii_lower(s@.take(i as int)),
        decreases s.len() - i,
    {
        l.push(lower_ascii_char(s[i]));
        i = i + 1;
        assert(l@ == ascii_lower(s@.take(i as int)));
    }
    assert(s@.take(s.len() as int) == s@);
    l
}

/// The ASCII-lowercased copy of a string slice.
pub fn ascii_lowercase(s: &str) -> (l: String)
    ensures
        l@ == ascii_lower(s@),
{
    let chars = chars_of(s);
    let lower = ascii_lowercase_chars(&chars);
    string_of(&lower)
}

/// A string holding the given characters.
pub fn string_of(chars: &Vec<char>) -> (s: String)
    ensures
        s@ == chars@,
{
    let mut s = String::new();
    let mut i: usize = 0;
    while i < chars.len()
        invariant
            i <= chars.len(),
            s@ == chars@.take(i as int),
        decreases chars.len() - i,
    {
        push_char(&mut s, chars[i]);
        i = i + 1;
        assert(s@ == chars@.take(i as int));
    }
    assert(chars@.take(chars.len() as int) == chars@);
    s
}

/// Whether two character vectors are equal.
pub fn chars_equal(a: &Vec<char>, b: &Vec<char>) -> (eq: bool)
    ensures
        eq == (a@ == b@),
{
    if a.len() != b.len() {
        return false;
    }
    let mut i: usize = 0;
    while i < a.len()
        invariant
            i <= a.len() == b.len(),
            forall|j: int| 0 <= j < i ==> a@[j] == b@[j],
        decreases a.len() - i,
    {
        if a[i] != b[i] {
            return false;
        }
        i = i + 1;
    }
    assert(a@ == b@);
    true
}

/// Whether two strings are equal when ASCII letters are compared case-insensitively.
pub fn eq_ignore_ascii_case(a: &str, b: &str) -> (eq: bool)
    ensures
        eq == (ascii_lower(a@) == ascii_lower(b@)),
{
    let la = ascii_lowercase_chars(&chars_of(a));
    let lb = ascii_lowercase_chars(&chars_of(b));
    chars_equal(&la, &lb)
}

/// Whether a string equals the given text.
pub fn str_equals(a: &str, b: &str) -> (eq: bool)
    ensures
        eq == (a@ == b@),
{
    chars_equal(&chars_of(a), &chars_of(b))
}

} // verus!

verus! {

/// Undoes [`escape_quotes`]: a doubled single quote at the end reads as one.
pub open spec fn unescape_quotes(t: Seq<char>) -> Seq<char>
    decreases t.len(),
{
    if t.len() == 0 {
        Seq::empty()
    } else if t.len() >= 2 && t.last() == '\'' && t.drop_last().last() == '\'' {
        unescape_quotes(t.drop_last().drop_last()).push('\'')
    } else {
        unescape_quotes(t.drop_last()).push(t.last())
    }
}

/// Escaping loses nothing: unescaping an escaped text gives it back, so two texts
/// with the same escaped form are the same text.
pub proof fn lemma_escape_round_trip(s: Seq<char>)
    ensures
        unescape_quotes(escape_quotes(s)) == s,
    decreases s.len(),
{
    if s.len() > 0 {
        lemma_escape_round_trip(s.drop_last());
        let init = escape_quotes(s.drop_last());
        if s.last() == '\'' {
            let t = init + seq!['\'', '\''];
            assert(t.drop_last().drop_last() =~= init);
            assert(t.drop_last().last() == '\'');
        } else {
            let t = init.push(s.last());
            assert(t.drop_last() =~= init);
        }
        assert(s.drop_last().push(s.last()) =~= s);
    }
}

/// Two values with the same quoted SQL literal are the same value.
pub proof fn lemma_sql_literal_injective(a: Seq<char>, b: Seq<char>)
    requires
        sql_literal(a) == sql_literal(b),
    ensures
        a == b,
{
    let ea = escape_quotes(a);
    let eb = escape_quotes(b);
    assert(sql_literal(a).subrange(1, sql_literal(a).len() - 1) =~= ea);
    assert(sql_literal(b).subrange(1, sql_literal(b).len() - 1) =~= eb);
    lemma_escape_round_trip(a);
    lemma_escape_round_trip(b);
}

} // verus!
