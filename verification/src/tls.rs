//! Postgres TLS policy and the connection-string handling behind it: reading
//! `sslmode`/`sslrootcert` from a URL or a libpq keyword string, and rewriting
//! the string into a form the Postgres driver accepts.
use vstd::prelude::*;
use vstd::string::StringSliceAdditionalSpecFns;
use crate::text::{
    join, ascii_lower, ascii_lowercase, chars_of, eq_ignore_ascii_case, push_char, push_str,
    to_owned_string,
};

verus! {

// ---------------------------------------------------------------------------
// Bytes of a `postgres://` URL
// ---------------------------------------------------------------------------

/// The index of the first `x` in `b`, if any.
pub open spec fn first_index(b: Seq<u8>, x: u8) -> Option<int>
    decreases b.len(),
{
    if b.len() == 0 {
        None
    } else if b[0] == x {
        Some(0)
    } else {
        match first_index(b.drop_first(), x) {
            Some(i) => Some(i + 1),
            None => None,
        }
    }
}

proof fn lemma_first_index_bounds(b: Seq<u8>, x: u8)
    ensures
        first_index(b, x) matches Some(i) ==> 0 <= i < b.len() && b[i] == x && forall|j: int|
            0 <= j < i ==> b[j] != x,
        first_index(b, x) is None ==> forall|j: int| 0 <= j < b.len() ==> b[j] != x,
    decreases b.len(),
{
    if b.len() > 0 && b[0] != x {
        lemma_first_index_bounds(b.drop_first(), x);
        assert forall|j: int| 1 <= j < b.len() implies b[j] == b.drop_first()[j - 1] by {}
    }
}

/// Finds the first `x` in `b[from..to]`; the result is the absolute index.
fn find_byte(b: &[u8], x: u8, from: usize, to: usize) -> (found: Option<usize>)
    requires
        from <= to <= b@.len(),
    ensures
        found matches Some(i) ==> from <= i < to && first_index(b@.subrange(from as int, to as int), x)
            == Some((i - from) as int),
        found is None ==> first_index(b@.subrange(from as int, to as int), x) is None,
{
    let mut i = from;
    while i < to
        invariant
            from <= i <= to <= b@.len(),
            forall|j: int| from <= j < i ==> b@[j] != x,
        decreases to - i,
    {
        if b[i] == x {
            proof {
                let sub = b@.subrange(from as int, to as int);
                lemma_first_index_bounds(sub, x);
                assert(sub[i - from] == x);
                if let Some(k) = first_index(sub, x) {
                    assert(k == i - from) by {
                        if k < i - from {
                            assert(sub[k] == b@[from + k]);
                        }
                    }
                }
            }
            return Some(i);
        }
        i = i + 1;
    }
    proof {
        let sub = b@.subrange(from as int, to as int);
        lemma_first_index_bounds(sub, x);
        if let Some(k) = first_index(sub, x) {
            assert(sub[k] == b@[from + k]);
        }
    }
    None
}

/// The pieces of `b` between occurrences of `sep`, as `str::split` yields them
/// (there is always at least one piece).
pub open spec fn split_pieces(b: Seq<u8>, sep: u8) -> Seq<Seq<u8>>
    decreases b.len(),
{
    if b.len() == 0 {
        seq![Seq::<u8>::empty()]
    } else {
        let rest = split_pieces(b.drop_first(), sep);
        if b[0] == sep {
            seq![Seq::<u8>::empty()] + rest
        } else {
            rest.update(0, seq![b[0]] + rest[0])
        }
    }
}

proof fn lemma_split_pieces_nonempty(b: Seq<u8>, sep: u8)
    ensures
        split_pieces(b, sep).len() >= 1,
    decreases b.len(),
{
    if b.len() > 0 {
        lemma_split_pieces_nonempty(b.drop_first(), sep);
    }
}

/// Splitting at the first separator: the first piece ends there and the rest
/// are the pieces of what follows it.
proof fn lemma_split_pieces_first(b: Seq<u8>, sep: u8)
    ensures
        first_index(b, sep) matches Some(i) ==> split_pieces(b, sep) == seq![b.take(i)]
            + split_pieces(b.skip(i + 1), sep),
        first_index(b, sep) is None ==> split_pieces(b, sep) == seq![b],
    decreases b.len(),
{
    lemma_first_index_bounds(b, sep);
    if b.len() == 0 {
        assert(b == Seq::<u8>::empty());
        assert(split_pieces(b, sep) == seq![b]);
    } else if b[0] == sep {
        assert(b.skip(1) == b.drop_first());
        assert(b.take(0) == Seq::<u8>::empty());
    } else {
        let t = b.drop_first();
        lemma_split_pieces_first(t, sep);
        lemma_split_pieces_nonempty(t, sep);
        match first_index(t, sep) {
            Some(i) => {
                assert(seq![b[0]] + t.take(i) == b.take(i + 1));
                assert(t.skip(i + 1) == b.skip(i + 2));
            },
            None => {
                assert(seq![b[0]] + t == b);
            },
        }
    }
}

/// The value of a hexadecimal digit byte.
pub open spec fn hex_digit_value(c: u8) -> Option<u8> {
    if 48 <= c <= 57 {
        Some((c - 48) as u8)
    } else if 97 <= c <= 102 {
        Some((c - 97 + 10) as u8)
    } else if 65 <= c <= 70 {
        Some((c - 65 + 10) as u8)
    } else {
        None
    }
}

fn hex_value(c: u8) -> (v: Option<u8>)
    ensures
        v == hex_digit_value(c),
{
    if 48 <= c && c <= 57 {
        Some(c - 48)
    } else if 97 <= c && c <= 102 {
        Some(c - 97 + 10)
    } else if 65 <= c && c <= 70 {
        Some(c - 65 + 10)
    } else {
        None
    }
}

/// Percent-decoding of URL bytes: `+` is a space, `%XX` with two hex digits and at
/// least one more byte after the `%` is the byte `XX`, every other byte is kept.
pub open spec fn percent_decoded(b: Seq<u8>) -> Seq<u8>
    decreases b.len(),
{
    if b.len() == 0 {
        Seq::empty()
    } else if b[0] == 43 {
        seq![32u8] + percent_decoded(b.drop_first())
    } else if b[0] == 37 && 2 < b.len() && hex_digit_value(b[1]) is Some && hex_digit_value(
        b[2],
    ) is Some {
        seq![(hex_digit_value(b[1])->0 * 16 + hex_digit_value(b[2])->0) as u8] + percent_decoded(
            b.subrange(3, b.len() as int),
        )
    } else {
        seq![b[0]] + percent_decoded(b.drop_first())
    }
}

/// What `String::from_utf8_lossy` makes of a byte sequence.
pub uninterp spec fn utf8_lossy(bytes: Seq<u8>) -> Seq<char>;

/// `String::from_utf8_lossy(bytes).into_owned()`. Valid UTF-8 is decoded as is
/// (std documents that only invalid sequences are replaced); what replaces an
/// invalid sequence is left to the name `utf8_lossy`.
#[verifier::external_body]
fn utf8_lossy_string(bytes: &[u8]) -> (s: String)
    ensures
        s@ == utf8_lossy(bytes@),
        vstd::utf8::valid_utf8(bytes@) ==> s@ == vstd::utf8::decode_utf8(bytes@),
{
    String::from_utf8_lossy(bytes).into_owned()
}

/// Percent-decodes `b[from..to]` and reads the result as (lossy) UTF-8.
fn percent_decode(b: &[u8], from: usize, to: usize) -> (s: String)
    requires
        from <= to <= b@.len(),
    ensures
        s@ == utf8_lossy(percent_decoded(b@.subrange(from as int, to as int))),
{
    let mut decoded: Vec<u8> = Vec::new();
    let mut index = from;
    while index < to
        invariant
            from <= index <= to <= b@.len(),
            decoded@ + percent_decoded(b@.subrange(index as int, to as int)) == percent_decoded(
                b@.subrange(from as int, to as int),
            ),
        decreases to - index,
    {
        let ghost rest = b@.subrange(index as int, to as int);
        let byte = b[index];
        if byte == 43 {
            decoded.push(32);
            assert(rest.drop_first() == b@.subrange(index + 1, to as int));
            index = index + 1;
        } else if byte == 37 && to - index > 2 {
            let high = hex_value(b[index + 1]);
            let low = hex_value(b[index + 2]);
            match (high, low) {
                (Some(h), Some(l)) => {
                    assert(rest.subrange(3, rest.len() as int) == b@.subrange(index + 3, to as int));
                    assert(h * 16 + l < 256) by (nonlinear_arith)
                        requires
                            h < 16,
                            l < 16,
                    ;
                    decoded.push(h * 16 + l);
                    index = index + 3;
                },
                _ => {
                    assert(rest.drop_first() == b@.subrange(index + 1, to as int));
                    decoded.push(byte);
                    index = index + 1;
                },
            }
        } else {
            assert(rest.drop_first() == b@.subrange(index + 1, to as int));
            decoded.push(byte);
            index = index + 1;
        }
        proof {
            assert(decoded@ + percent_decoded(b@.subrange(index as int, to as int))
                == percent_decoded(b@.subrange(from as int, to as int)));
        }
    }
    utf8_lossy_string(decoded.as_slice())
}


/// Where the query of a URL sits: the index of the first `?` and the index where
/// the fragment (the first `#` from the `?` on) begins, or the end of the URL.
pub open spec fn query_bounds(u: Seq<u8>) -> Option<(int, int)> {
    match first_index(u, 63) {
        None => None,
        Some(q) => Some(
            (
                q,
                match first_index(u.subrange(q, u.len() as int), 35) {
                    Some(f) => q + f,
                    None => u.len() as int,
                },
            ),
        ),
    }
}

fn query_bounds_of(b: &[u8]) -> (bounds: Option<(usize, usize)>)
    ensures
        bounds matches Some((q, f)) ==> q < f <= b@.len() && query_bounds(b@) == Some(
            (q as int, f as int),
        ),
        bounds is None ==> query_bounds(b@) is None,
{
    assert(b@.subrange(0, b@.len() as int) == b@);
    match find_byte(b, 63, 0, b.len()) {
        None => None,
        Some(q) => {
            let f = match find_byte(b, 35, q, b.len()) {
                Some(f) => f,
                None => b.len(),
            };
            proof {
                lemma_first_index_bounds(b@.subrange(0, b@.len() as int), 63);
                lemma_first_index_bounds(b@.subrange(q as int, b@.len() as int), 35);
                assert(b@.subrange(q as int, b@.len() as int)[0] == 63u8);
            }
            Some((q, f))
        },
    }
}

/// A `key=value` pair split at the first `=`; without one the value is empty.
pub open spec fn split_once_eq(p: Seq<u8>) -> (Seq<u8>, Seq<u8>) {
    match first_index(p, 61) {
        Some(i) => (p.take(i), p.skip(i + 1)),
        None => (p, Seq::empty()),
    }
}

/// Percent-decoded URL text.
pub open spec fn decoded_text(b: Seq<u8>) -> Seq<char> {
    utf8_lossy(percent_decoded(b))
}

/// The decoded value of the first parameter whose decoded key equals `key`,
/// ASCII case ignored.
pub open spec fn param_value_in(pieces: Seq<Seq<u8>>, key: Seq<char>) -> Option<Seq<char>>
    decreases pieces.len(),
{
    if pieces.len() == 0 {
        None
    } else if ascii_lower(decoded_text(split_once_eq(pieces[0]).0)) == ascii_lower(key) {
        Some(decoded_text(split_once_eq(pieces[0]).1))
    } else {
        param_value_in(pieces.drop_first(), key)
    }
}

/// The decoded value of a query parameter of a URL.
pub open spec fn url_param_value(u: Seq<u8>, key: Seq<char>) -> Option<Seq<char>> {
    match query_bounds(u) {
        None => None,
        Some((q, f)) => param_value_in(split_pieces(u.subrange(q + 1, f), 38), key),
    }
}

fn url_query_param_value(database_url: &str, key: &str) -> (value: Option<String>)
    ensures
        value matches Some(v) ==> url_param_value(database_url.spec_bytes(), key@) == Some(v@),
        value is None ==> url_param_value(database_url.spec_bytes(), key@) is None,
{
    let b = database_url.as_bytes();
    let (q, f) = match query_bounds_of(b) {
        Some(bounds) => bounds,
        None => return None,
    };
    let ghost all = split_pieces(b@.subrange(q + 1, f as int), 38);
    let mut start = q + 1;
    loop
        invariant
            q < start <= f <= b@.len(),
            b@ == database_url.spec_bytes(),
            query_bounds(b@) == Some((q as int, f as int)),
            all == split_pieces(b@.subrange(q + 1, f as int), 38),
            param_value_in(all, key@) == param_value_in(
                split_pieces(b@.subrange(start as int, f as int), 38),
                key@,
            ),
        decreases f - start,
    {
        let ghost rest = b@.subrange(start as int, f as int);
        proof {
            lemma_split_pieces_first(rest, 38);
        }
        let end = match find_byte(b, 38, start, f) {
            Some(e) => e,
            None => f,
        };
        let ghost piece = b@.subrange(start as int, end as int);
        proof {
            if end < f {
                assert(rest.take(end - start) == piece);
                assert(rest.skip(end - start + 1) == b@.subrange(end + 1, f as int));
            } else {
                assert(rest == piece);
            }
        }
        let (key_end, value_start) = match find_byte(b, 61, start, end) {
            Some(e) => (e, e + 1),
            None => (end, end),
        };
        proof {
            lemma_first_index_bounds(piece, 61);
            if key_end < end {
                assert(piece.take(key_end - start) == b@.subrange(start as int, key_end as int));
                assert(piece.skip(key_end - start + 1) == b@.subrange(value_start as int, end as int));
            } else {
                assert(piece == b@.subrange(start as int, key_end as int));
                assert(b@.subrange(value_start as int, end as int) == Seq::<u8>::empty());
            }
        }
        proof {
            assert(split_pieces(rest, 38)[0] == piece);
            assert(split_once_eq(piece) == (
                b@.subrange(start as int, key_end as int),
                b@.subrange(value_start as int, end as int),
            ));
            if end < f {
                assert(split_pieces(rest, 38).drop_first() == split_pieces(
                    b@.subrange(end + 1, f as int),
                    38,
                ));
            }
        }
        let decoded_key = percent_decode(b, start, key_end);
        if eq_ignore_ascii_case(decoded_key.as_str(), key) {
            return Some(percent_decode(b, value_start, end));
        }
        if end == f {
            proof {
                assert(split_pieces(rest, 38) == seq![piece]);
                assert(split_pieces(rest, 38).drop_first() == Seq::<Seq<u8>>::empty());
                assert(param_value_in(Seq::<Seq<u8>>::empty(), key@) is None);
            }
            return None;
        }
        start = end + 1;
    }
}


/// The `sslmode` values the driver does not accept and what replaces them.
pub open spec fn sslmode_replacement(value: Seq<char>) -> Option<Seq<char>> {
    if value == "verify-ca"@ || value == "verify-full"@ {
        Some("require"@)
    } else if value == "allow"@ {
        Some("prefer"@)
    } else {
        None
    }
}

fn normalized_sslmode_value(value: &str) -> (replacement: Option<&'static str>)
    ensures
        replacement matches Some(r) ==> sslmode_replacement(value@) == Some(r@),
        replacement is None ==> sslmode_replacement(value@) is None,
{
    if crate::text::str_equals(value, "verify-ca") || crate::text::str_equals(value, "verify-full") {
        Some("require")
    } else if crate::text::str_equals(value, "allow") {
        Some("prefer")
    } else {
        None
    }
}

/// The bytes of ASCII text.
pub open spec fn ascii_bytes(s: Seq<char>) -> Seq<u8> {
    s.map_values(|c: char| c as u8)
}

/// How one `key=value` query parameter is rewritten for the driver: `None` keeps
/// it, `Some(None)` drops it (`sslrootcert`), `Some(Some(p))` replaces it
/// (an unsupported `sslmode`, keeping the raw key).
pub open spec fn url_param_rewrite(p: Seq<u8>) -> Option<Option<Seq<u8>>> {
    let (k, v) = split_once_eq(p);
    let key = ascii_lower(decoded_text(k));
    if key == "sslrootcert"@ {
        Some(None)
    } else if key == "sslmode"@ && sslmode_replacement(ascii_lower(decoded_text(v))) is Some {
        Some(Some(k + seq![61u8] + ascii_bytes(sslmode_replacement(ascii_lower(decoded_text(v)))->0)))
    } else {
        None
    }
}

/// The parameters that remain after rewriting, in order.
pub open spec fn rewritten_params(ps: Seq<Seq<u8>>) -> Seq<Seq<u8>>
    decreases ps.len(),
{
    if ps.len() == 0 {
        Seq::empty()
    } else {
        let rest = rewritten_params(ps.drop_last());
        match url_param_rewrite(ps.last()) {
            None => rest.push(ps.last()),
            Some(None) => rest,
            Some(Some(p)) => rest.push(p),
        }
    }
}

/// Whether any parameter is rewritten.
pub open spec fn any_rewritten(ps: Seq<Seq<u8>>) -> bool
    decreases ps.len(),
{
    if ps.len() == 0 {
        false
    } else {
        any_rewritten(ps.drop_last()) || url_param_rewrite(ps.last()) is Some
    }
}

/// Byte sequences joined with a separator.
pub open spec fn join_bytes(parts: Seq<Seq<u8>>, sep: Seq<u8>) -> Seq<u8>
    decreases parts.len(),
{
    if parts.len() == 0 {
        Seq::empty()
    } else if parts.len() == 1 {
        parts[0]
    } else {
        join_bytes(parts.drop_last(), sep) + sep + parts.last()
    }
}

/// The URL's query parameters.
pub open spec fn url_params(u: Seq<u8>) -> Seq<Seq<u8>> {
    match query_bounds(u) {
        None => Seq::empty(),
        Some((q, f)) => split_pieces(u.subrange(q + 1, f), 38),
    }
}

/// Whether a URL needs rewriting for the driver.
pub open spec fn url_needs_rewrite(u: Seq<u8>) -> bool {
    query_bounds(u) is Some && any_rewritten(url_params(u))
}

/// The rewritten URL bytes: the part before `?`, then the remaining parameters
/// (with `?` only when some remain), then the fragment.
pub open spec fn rewritten_url_bytes(u: Seq<u8>) -> Seq<u8> {
    let (q, f) = query_bounds(u)->0;
    let kept = rewritten_params(url_params(u));
    u.take(q) + (if kept.len() == 0 {
        Seq::empty()
    } else {
        seq![63u8] + join_bytes(kept, seq![38u8])
    }) + u.skip(f)
}

/// The URL as the driver should parse it.
pub open spec fn normalized_url(url: &str) -> Seq<char> {
    if url_needs_rewrite(url.spec_bytes()) {
        utf8_lossy(rewritten_url_bytes(url.spec_bytes()))
    } else {
        url@
    }
}

fn push_ascii_bytes(out: &mut Vec<u8>, s: &str)
    ensures
        final(out)@ == old(out)@ + ascii_bytes(s@),
{
    let chars = chars_of(s);
    let ghost start = out@;
    let mut i: usize = 0;
    while i < chars.len()
        invariant
            i <= chars.len(),
            chars@ == s@,
            out@ == start + ascii_bytes(chars@.take(i as int)),
        decreases chars.len() - i,
    {
        out.push(chars[i] as u8);
        i = i + 1;
        assert(ascii_bytes(chars@.take(i as int)) == ascii_bytes(chars@.take(i - 1)).push(
            chars@[i - 1] as u8,
        ));
    }
    assert(chars@.take(chars.len() as int) == chars@);
}

fn push_range(out: &mut Vec<u8>, b: &[u8], from: usize, to: usize)
    requires
        from <= to <= b@.len(),
    ensures
        final(out)@ == old(out)@ + b@.subrange(from as int, to as int),
{
    let ghost start = out@;
    let mut i = from;
    while i < to
        invariant
            from <= i <= to <= b@.len(),
            out@ == start + b@.subrange(from as int, i as int),
        decreases to - i,
    {
        out.push(b[i]);
        i = i + 1;
        assert(b@.subrange(from as int, i as int) == b@.subrange(from as int, i - 1).push(
            b@[i - 1],
        ));
    }
}

/// Appends the rewritten form of one query parameter `b[start..end]` (key
/// `b[start..key_end]`, value `b[value_start..end]`), preceded by `&` when some
/// parameter was already kept; reports whether the parameter was rewritten and
/// whether anything was kept.
fn rewrite_url_param(
    b: &[u8],
    start: usize,
    key_end: usize,
    value_start: usize,
    end: usize,
    query: &mut Vec<u8>,
    kept_before: bool,
) -> (outcome: (bool, bool))
    requires
        start <= key_end <= value_start <= end <= b@.len(),
        split_once_eq(b@.subrange(start as int, end as int)) == (
            b@.subrange(start as int, key_end as int),
            b@.subrange(value_start as int, end as int),
        ),
    ensures
        ({
            let piece = b@.subrange(start as int, end as int);
            let sep: Seq<u8> = if kept_before { seq![38u8] } else { Seq::empty() };
            &&& outcome.0 == url_param_rewrite(piece) is Some
            &&& outcome.1 == (url_param_rewrite(piece) != Some(None::<Seq<u8>>))
            &&& match url_param_rewrite(piece) {
                Some(None) => final(query)@ == old(query)@,
                Some(Some(p)) => final(query)@ == old(query)@ + sep + p,
                None => final(query)@ == old(query)@ + sep + piece,
            }
        }),
{
    let ghost piece = b@.subrange(start as int, end as int);
    let decoded_key = ascii_lowercase(percent_decode(b, start, key_end).as_str());
    if crate::text::str_equals(decoded_key.as_str(), "sslrootcert") {
        return (true, false);
    }
    let mut replacement: Option<&'static str> = None;
    if crate::text::str_equals(decoded_key.as_str(), "sslmode") {
        let decoded_value = ascii_lowercase(percent_decode(b, value_start, end).as_str());
        replacement = normalized_sslmode_value(decoded_value.as_str());
    }
    if kept_before {
        query.push(38);
    }
    let ghost before_item = query@;
    match replacement {
        Some(r) => {
            push_range(query, b, start, key_end);
            query.push(61);
            push_ascii_bytes(query, r);
            assert(query@ == before_item + (b@.subrange(start as int, key_end as int) + seq![61u8]
                + ascii_bytes(r@)));
            (true, true)
        },
        None => {
            push_range(query, b, start, end);
            (false, true)
        },
    }
}

fn normalize_postgres_url_for_tokio_postgres(database_url: &str) -> (normalized: String)
    ensures
        normalized@ == normalized_url(database_url),
{
    let b = database_url.as_bytes();
    let (q, f) = match query_bounds_of(b) {
        Some(bounds) => bounds,
        None => return to_owned_string(database_url),
    };
    let ghost all = split_pieces(b@.subrange(q + 1, f as int), 38);
    let ghost mut done: Seq<Seq<u8>> = Seq::empty();
    let mut changed = false;
    let mut query: Vec<u8> = Vec::new();
    let mut kept_count: usize = 0;
    let mut start = q + 1;
    loop
        invariant_except_break
            all == done + split_pieces(b@.subrange(start as int, f as int), 38),
            done.len() <= start - q - 1,
        invariant
            q < start <= f <= b@.len(),
            b@ == database_url.spec_bytes(),
            query_bounds(b@) == Some((q as int, f as int)),
            all == split_pieces(b@.subrange(q + 1, f as int), 38),
            changed == any_rewritten(done),
            query@ == join_bytes(rewritten_params(done), seq![38u8]),
            kept_count == rewritten_params(done).len(),
            kept_count <= done.len(),
        ensures
            all == done,
        decreases f - start,
    {
        let ghost rest = b@.subrange(start as int, f as int);
        proof {
            lemma_split_pieces_first(rest, 38);
        }
        let end = match find_byte(b, 38, start, f) {
            Some(e) => e,
            None => f,
        };
        let ghost piece = b@.subrange(start as int, end as int);
        proof {
            if end < f {
                assert(rest.take(end - start) == piece);
                assert(rest.skip(end - start + 1) == b@.subrange(end + 1, f as int));
            } else {
                assert(rest == piece);
            }
        }
        let (key_end, value_start) = match find_byte(b, 61, start, end) {
            Some(e) => (e, e + 1),
            None => (end, end),
        };
        proof {
            lemma_first_index_bounds(piece, 61);
            if key_end < end {
                assert(piece.take(key_end - start) == b@.subrange(start as int, key_end as int));
                assert(piece.skip(key_end - start + 1) == b@.subrange(value_start as int, end as int));
            } else {
                assert(piece == b@.subrange(start as int, key_end as int));
                assert(b@.subrange(value_start as int, end as int) == Seq::<u8>::empty());
            }
            assert(split_pieces(rest, 38)[0] == piece);
            assert(split_once_eq(piece) == (
                b@.subrange(start as int, key_end as int),
                b@.subrange(value_start as int, end as int),
            ));
        }
        let ghost old_query = query@;
        let ghost old_kept = rewritten_params(done);
        let ghost new_done = done.push(piece);
        assert(new_done.drop_last() == done);
        assert(new_done.last() == piece);
        let (piece_changed, piece_kept) = rewrite_url_param(
            b,
            start,
            key_end,
            value_start,
            end,
            &mut query,
            kept_count > 0,
        );
        if piece_changed {
            changed = true;
        }
        if piece_kept {
            proof {
                let item = match url_param_rewrite(piece) {
                    Some(Some(p)) => p,
                    _ => piece,
                };
                assert(rewritten_params(new_done) == old_kept.push(item));
                assert(rewritten_params(new_done).drop_last() == old_kept);
                if old_kept.len() == 0 {
                    assert(old_query == Seq::<u8>::empty());
                    assert(query@ == item);
                }
            }
            kept_count = kept_count + 1;
        }
        proof {
            done = new_done;
        }
        if end == f {
            proof {
                assert(split_pieces(rest, 38) == seq![piece]);
                assert(all == done);
            }
            break;
        }
        proof {
            assert(split_pieces(rest, 38).drop_first() == split_pieces(
                b@.subrange(end + 1, f as int),
                38,
            ));
            assert(all == done + split_pieces(b@.subrange(end + 1, f as int), 38));
        }
        start = end + 1;
    }
    if !changed {
        return to_owned_string(database_url);
    }
    let mut out: Vec<u8> = Vec::new();
    push_range(&mut out, b, 0, q);
    if kept_count > 0 {
        out.push(63);
        push_range(&mut out, query.as_slice(), 0, query.len());
    }
    push_range(&mut out, b, f, b.len());
    proof {
        assert(b@.subrange(0, q as int) == b@.take(q as int));
        assert(b@.subrange(f as int, b@.len() as int) == b@.skip(f as int));
        assert(query@.subrange(0, query@.len() as int) == query@);
        assert(out@ == rewritten_url_bytes(b@));
    }
    utf8_lossy_string(out.as_slice())
}


// ---------------------------------------------------------------------------
// libpq keyword/value connection strings
// ---------------------------------------------------------------------------

/// `char::is_ascii_whitespace`: space, tab, line feed, form feed, carriage return.
pub open spec fn is_ascii_ws(c: char) -> bool {
    c == ' ' || c == '\t' || c == '\n' || c == '\x0C' || c == '\r'
}

fn is_ascii_whitespace(c: char) -> (ws: bool)
    ensures
        ws == is_ascii_ws(c),
{
    c == ' ' || c == '\t' || c == '\n' || c == '\x0C' || c == '\r'
}

/// The first position at or after `i` that is not ASCII whitespace.
pub open spec fn skip_ws(s: Seq<char>, i: int) -> int
    decreases s.len() - i,
{
    if 0 <= i < s.len() && is_ascii_ws(s[i]) {
        skip_ws(s, i + 1)
    } else {
        i
    }
}

/// The first position at or after `i` holding ASCII whitespace or `=`.
pub open spec fn key_end(s: Seq<char>, i: int) -> int
    decreases s.len() - i,
{
    if 0 <= i < s.len() && !is_ascii_ws(s[i]) && s[i] != '=' {
        key_end(s, i + 1)
    } else {
        i
    }
}

/// An unquoted value from `i`: it runs to the next whitespace; a backslash takes
/// the next character literally. Returns the value and where it ends.
pub open spec fn simple_value(s: Seq<char>, i: int) -> (Seq<char>, int)
    decreases s.len() - i,
{
    if i < 0 || i >= s.len() || is_ascii_ws(s[i]) {
        (Seq::empty(), i)
    } else if s[i] == '\\' {
        if i + 1 < s.len() {
            let (v, e) = simple_value(s, i + 2);
            (seq![s[i + 1]] + v, e)
        } else {
            (Seq::empty(), i + 1)
        }
    } else {
        let (v, e) = simple_value(s, i + 1);
        (seq![s[i]] + v, e)
    }
}

/// A quoted value whose opening quote ends just before `i`: it runs to the next
/// unescaped `'`; a backslash takes the next character literally. `None` when the
/// quote is never closed.
pub open spec fn quoted_value(s: Seq<char>, i: int) -> Option<(Seq<char>, int)>
    decreases s.len() - i,
{
    if i < 0 || i >= s.len() {
        None
    } else if s[i] == '\'' {
        Some((Seq::empty(), i + 1))
    } else if s[i] == '\\' {
        if i + 1 < s.len() {
            match quoted_value(s, i + 2) {
                Some((v, e)) => Some((seq![s[i + 1]] + v, e)),
                None => None,
            }
        } else {
            None
        }
    } else {
        match quoted_value(s, i + 1) {
            Some((v, e)) => Some((seq![s[i]] + v, e)),
            None => None,
        }
    }
}

/// The value starting at `i`: quoted when it starts with `'`, else unquoted and
/// non-empty.
pub open spec fn value_at(s: Seq<char>, i: int) -> Option<(Seq<char>, int)> {
    if 0 <= i < s.len() && s[i] == '\'' {
        quoted_value(s, i + 1)
    } else if simple_value(s, i).0.len() == 0 {
        None
    } else {
        Some(simple_value(s, i))
    }
}

pub proof fn lemma_skip_ws(s: Seq<char>, i: int)
    requires
        0 <= i,
    ensures
        i <= skip_ws(s, i),
        i <= s.len() ==> skip_ws(s, i) <= s.len(),
        skip_ws(s, i) < s.len() ==> !is_ascii_ws(s[skip_ws(s, i)]),
    decreases s.len() - i,
{
    if 0 <= i < s.len() && is_ascii_ws(s[i]) {
        lemma_skip_ws(s, i + 1);
    }
}

pub proof fn lemma_key_end(s: Seq<char>, i: int)
    requires
        0 <= i,
    ensures
        i <= key_end(s, i),
        i <= s.len() ==> key_end(s, i) <= s.len(),
    decreases s.len() - i,
{
    if 0 <= i < s.len() && !is_ascii_ws(s[i]) && s[i] != '=' {
        lemma_key_end(s, i + 1);
    }
}

pub proof fn lemma_simple_value(s: Seq<char>, i: int)
    requires
        0 <= i <= s.len(),
    ensures
        i <= simple_value(s, i).1 <= s.len(),
        simple_value(s, i).0.len() > 0 ==> i < simple_value(s, i).1,
    decreases s.len() - i,
{
    if i < s.len() && !is_ascii_ws(s[i]) {
        if s[i] == '\\' {
            if i + 1 < s.len() {
                lemma_simple_value(s, i + 2);
            }
        } else {
            lemma_simple_value(s, i + 1);
        }
    }
}

pub proof fn lemma_quoted_value(s: Seq<char>, i: int)
    requires
        0 <= i,
    ensures
        quoted_value(s, i) matches Some((v, e)) ==> i < e <= s.len(),
    decreases s.len() - i,
{
    if 0 <= i < s.len() && s[i] != '\'' {
        if s[i] == '\\' {
            if i + 1 < s.len() {
                lemma_quoted_value(s, i + 2);
            }
        } else {
            lemma_quoted_value(s, i + 1);
        }
    }
}

pub proof fn lemma_value_at(s: Seq<char>, i: int)
    requires
        0 <= i <= s.len(),
    ensures
        value_at(s, i) matches Some((v, e)) ==> i < e <= s.len(),
{
    lemma_simple_value(s, i);
    if i < s.len() && s[i] == '\'' {
        lemma_quoted_value(s, i + 1);
    }
}

/// One `key = value` entry of a keyword connection string: the ASCII-lowercased
/// key, the unescaped value, and where its text starts and ends.
pub struct KeywordParamModel {
    pub key: Seq<char>,
    pub value: Seq<char>,
    pub start: int,
    pub end: int,
}

/// The entries of a keyword connection string from position `i`, or `None` when
/// the text is malformed (an empty key, a missing `=`, an empty unquoted value,
/// or an unterminated quote).
pub open spec fn keyword_params_from(s: Seq<char>, i: int) -> Option<Seq<KeywordParamModel>>
    decreases s.len() - i,
{
    if i < 0 || i > s.len() {
        None
    } else {
        let j = skip_ws(s, i);
        if j >= s.len() {
            Some(Seq::empty())
        } else {
            let k = key_end(s, j);
            let m = skip_ws(s, k);
            if k == j || m >= s.len() || s[m] != '=' {
                None
            } else {
                let n = skip_ws(s, m + 1);
                match value_at(s, n) {
                    None => None,
                    Some((v, e)) => {
                        proof {
                            lemma_skip_ws(s, i);
                            lemma_key_end(s, j);
                            lemma_skip_ws(s, k);
                            lemma_skip_ws(s, m + 1);
                            lemma_value_at(s, n);
                        }
                        match keyword_params_from(s, e) {
                            None => None,
                            Some(rest) => Some(
                                seq![
                                    KeywordParamModel {
                                        key: ascii_lower(s.subrange(j, k)),
                                        value: v,
                                        start: j,
                                        end: e,
                                    },
                                ] + rest,
                            ),
                        }
                    },
                }
            }
        }
    }
}


/// One parsed `key = value` entry of a keyword connection string.
pub struct KeywordConnectionParam {
    key: String,
    value: String,
    start: usize,
    end: usize,
}

impl View for KeywordConnectionParam {
    type V = KeywordParamModel;

    closed spec fn view(&self) -> KeywordParamModel {
        KeywordParamModel {
            key: self.key@,
            value: self.value@,
            start: self.start as int,
            end: self.end as int,
        }
    }
}

/// The views of parsed entries.
pub open spec fn params_view(v: Seq<KeywordConnectionParam>) -> Seq<KeywordParamModel> {
    v.map_values(|p: KeywordConnectionParam| p@)
}

fn skip_ascii_whitespace(s: &Vec<char>, offset: usize) -> (next: usize)
    requires
        offset <= s@.len(),
    ensures
        next == skip_ws(s@, offset as int),
{
    let mut i = offset;
    while i < s.len() && is_ascii_whitespace(s[i])
        invariant
            offset <= i <= s@.len(),
            skip_ws(s@, offset as int) == skip_ws(s@, i as int),
        decreases s.len() - i,
    {
        i = i + 1;
    }
    i
}

fn take_key(s: &Vec<char>, offset: usize) -> (next: usize)
    requires
        offset <= s@.len(),
    ensures
        next == key_end(s@, offset as int),
{
    let mut i = offset;
    while i < s.len() && !is_ascii_whitespace(s[i]) && s[i] != '='
        invariant
            offset <= i <= s@.len(),
            key_end(s@, offset as int) == key_end(s@, i as int),
        decreases s.len() - i,
    {
        i = i + 1;
    }
    i
}

fn take_simple_keyword_value(s: &Vec<char>, offset: usize) -> (parsed: (Vec<char>, usize))
    requires
        offset <= s@.len(),
    ensures
        (parsed.0@, parsed.1 as int) == simple_value(s@, offset as int),
{
    let mut parsed: Vec<char> = Vec::new();
    let mut i = offset;
    while i < s.len() && !is_ascii_whitespace(s[i])
        invariant
            offset <= i <= s@.len(),
            simple_value(s@, offset as int) == (
                parsed@ + simple_value(s@, i as int).0,
                simple_value(s@, i as int).1,
            ),
        decreases s.len() - i,
    {
        let ch = s[i];
        if ch == '\\' {
            if i + 1 < s.len() {
                parsed.push(s[i + 1]);
                assert(simple_value(s@, offset as int).0 == parsed@ + simple_value(s@, i + 2).0);
                i = i + 2;
            } else {
                i = i + 1;
                assert(simple_value(s@, i as int).0 == Seq::<char>::empty());
            }
        } else {
            parsed.push(ch);
            assert(simple_value(s@, offset as int).0 == parsed@ + simple_value(s@, i + 1).0);
            i = i + 1;
        }
    }
    assert(simple_value(s@, i as int).0 == Seq::<char>::empty());
    assert(parsed@ + Seq::<char>::empty() == parsed@);
    (parsed, i)
}

fn take_quoted_keyword_value(s: &Vec<char>, offset: usize) -> (parsed: Option<(Vec<char>, usize)>)
    requires
        offset <= s@.len(),
    ensures
        parsed matches Some((v, e)) ==> quoted_value(s@, offset as int) == Some((v@, e as int)),
        parsed is None ==> quoted_value(s@, offset as int) is None,
{
    let mut parsed: Vec<char> = Vec::new();
    let mut i = offset;
    while i < s.len()
        invariant
            offset <= i <= s@.len(),
            quoted_value(s@, offset as int) == match quoted_value(s@, i as int) {
                Some((v, e)) => Some((parsed@ + v, e)),
                None => None,
            },
        decreases s.len() - i,
    {
        let ch = s[i];
        if ch == '\'' {
            assert(parsed@ + Seq::<char>::empty() == parsed@);
            return Some((parsed, i + 1));
        }
        if ch == '\\' {
            if i + 1 < s.len() {
                let ghost before = parsed@;
                parsed.push(s[i + 1]);
                proof {
                    if let Some((v, e)) = quoted_value(s@, i + 2) {
                        assert(before + (seq![s@[i + 1]] + v) == parsed@ + v);
                    }
                }
                i = i + 2;
            } else {
                return None;
            }
        } else {
            let ghost before = parsed@;
            parsed.push(ch);
            proof {
                if let Some((v, e)) = quoted_value(s@, i + 1) {
                    assert(before + (seq![ch] + v) == parsed@ + v);
                }
            }
            i = i + 1;
        }
    }
    None
}

fn take_keyword_value(s: &Vec<char>, offset: usize) -> (parsed: Option<(Vec<char>, usize)>)
    requires
        offset <= s@.len(),
    ensures
        parsed matches Some((v, e)) ==> value_at(s@, offset as int) == Some((v@, e as int)),
        parsed is None ==> value_at(s@, offset as int) is None,
{
    if offset < s.len() && s[offset] == '\'' {
        take_quoted_keyword_value(s, offset + 1)
    } else {
        let (v, e) = take_simple_keyword_value(s, offset);
        if v.len() == 0 {
            None
        } else {
            Some((v, e))
        }
    }
}

fn keyword_params_of(s: &Vec<char>) -> (params: Option<Vec<KeywordConnectionParam>>)
    ensures
        params matches Some(v) ==> keyword_params_from(s@, 0) == Some(params_view(v@)),
        params is None ==> keyword_params_from(s@, 0) is None,
{
    let mut params: Vec<KeywordConnectionParam> = Vec::new();
    let mut offset: usize = 0;
    loop
        invariant
            offset <= s@.len(),
            keyword_params_from(s@, 0) == match keyword_params_from(s@, offset as int) {
                Some(rest) => Some(params_view(params@) + rest),
                None => None,
            },
        decreases s.len() - offset,
    {
        let ghost before = params_view(params@);
        let j = skip_ascii_whitespace(s, offset);
        proof {
            lemma_skip_ws(s@, offset as int);
        }
        if j >= s.len() {
            assert(before + Seq::<KeywordParamModel>::empty() == before);
            return Some(params);
        }
        let k = take_key(s, j);
        proof {
            lemma_key_end(s@, j as int);
        }
        if k == j {
            return None;
        }
        let m = skip_ascii_whitespace(s, k);
        proof {
            lemma_skip_ws(s@, k as int);
        }
        if m >= s.len() || s[m] != '=' {
            return None;
        }
        let n = skip_ascii_whitespace(s, m + 1);
        proof {
            lemma_skip_ws(s@, m + 1);
        }
        match take_keyword_value(s, n) {
            None => {
                return None;
            },
            Some((v, e)) => {
                proof {
                    lemma_value_at(s@, n as int);
                }
                let key_chars = crate::text::ascii_lowercase_chars(&slice_chars(s, j, k));
                let param = KeywordConnectionParam {
                    key: crate::text::string_of(&key_chars),
                    value: crate::text::string_of(&v),
                    start: j,
                    end: e,
                };
                params.push(param);
                proof {
                    assert(params_view(params@) == before.push(param@));
                    if let Some(rest) = keyword_params_from(s@, e as int) {
                        assert(before + (seq![param@] + rest) == params_view(params@) + rest);
                    }
                }
                offset = e;
            },
        }
    }
}

/// The characters `s[from..to]`.
fn slice_chars(s: &Vec<char>, from: usize, to: usize) -> (out: Vec<char>)
    requires
        from <= to <= s@.len(),
    ensures
        out@ == s@.subrange(from as int, to as int),
{
    let mut out: Vec<char> = Vec::new();
    let mut i = from;
    while i < to
        invariant
            from <= i <= to <= s@.len(),
            out@ == s@.subrange(from as int, i as int),
        decreases to - i,
    {
        out.push(s[i]);
        i = i + 1;
        assert(out@ == s@.subrange(from as int, i as int));
    }
    out
}


/// The value of the first entry whose key is `key`.
pub open spec fn keyword_value_in(ps: Seq<KeywordParamModel>, key: Seq<char>) -> Option<Seq<char>>
    decreases ps.len(),
{
    if ps.len() == 0 {
        None
    } else if ps[0].key == key {
        Some(ps[0].value)
    } else {
        keyword_value_in(ps.drop_first(), key)
    }
}

/// Whether `p` is a prefix of `s`.
pub open spec fn has_prefix(s: Seq<char>, p: Seq<char>) -> bool {
    p.len() <= s.len() && s.take(p.len() as int) == p
}

/// Whether a connection string is a `postgres://` or `postgresql://` URL.
pub open spec fn is_postgres_url_text(s: Seq<char>) -> bool {
    has_prefix(s, "postgres://"@) || has_prefix(s, "postgresql://"@)
}

fn starts_with(s: &Vec<char>, prefix: &str) -> (yes: bool)
    ensures
        yes == has_prefix(s@, prefix@),
{
    let p = chars_of(prefix);
    if p.len() > s.len() {
        return false;
    }
    let mut i: usize = 0;
    while i < p.len()
        invariant
            i <= p.len() <= s.len(),
            p@ == prefix@,
            forall|j: int| 0 <= j < i ==> s@[j] == p@[j],
        decreases p.len() - i,
    {
        if s[i] != p[i] {
            assert(s@.take(p.len() as int)[i as int] != p@[i as int]);
            return false;
        }
        i = i + 1;
    }
    assert(s@.take(p.len() as int) == p@);
    true
}

fn is_postgres_url(s: &Vec<char>) -> (yes: bool)
    ensures
        yes == is_postgres_url_text(s@),
{
    starts_with(s, "postgres://") || starts_with(s, "postgresql://")
}

/// The value of connection parameter `key` (an ASCII-lowercase name): a query
/// parameter of a URL, or an entry of a keyword string that parses.
pub open spec fn connection_param(url: &str, key: Seq<char>) -> Option<Seq<char>> {
    if is_postgres_url_text(url@) {
        url_param_value(url.spec_bytes(), key)
    } else {
        match keyword_params_from(url@, 0) {
            None => None,
            Some(ps) => keyword_value_in(ps, key),
        }
    }
}

fn connection_param_value(database_url: &str, key: &str) -> (value: Option<String>)
    ensures
        value matches Some(v) ==> connection_param(database_url, key@) == Some(v@),
        value is None ==> connection_param(database_url, key@) is None,
{
    let chars = chars_of(database_url);
    if is_postgres_url(&chars) {
        return url_query_param_value(database_url, key);
    }
    let params = match keyword_params_of(&chars) {
        Some(params) => params,
        None => return None,
    };
    let mut i: usize = 0;
    assert(params_view(params@).skip(0) == params_view(params@));
    while i < params.len()
        invariant
            i <= params.len(),
            chars@ == database_url@,
            !is_postgres_url_text(database_url@),
            keyword_params_from(chars@, 0) == Some(params_view(params@)),
            keyword_value_in(params_view(params@), key@) == keyword_value_in(
                params_view(params@).skip(i as int),
                key@,
            ),
        decreases params.len() - i,
    {
        let ghost rest = params_view(params@).skip(i as int);
        assert(rest[0] == params@[i as int]@);
        assert(rest.drop_first() == params_view(params@).skip(i + 1));
        assert(params@[i as int]@.key == params@[i as int].key@);
        assert(params@[i as int]@.value == params@[i as int].value@);
        if crate::text::str_equals(params[i].key.as_str(), key) {
            return Some(to_owned_string(params[i].value.as_str()));
        }
        i = i + 1;
    }
    None
}

/// How one keyword entry is rewritten for the driver: `None` keeps its text,
/// `Some(None)` drops it, `Some(Some(t))` replaces it with `t`.
pub open spec fn keyword_param_rewrite(p: KeywordParamModel) -> Option<Option<Seq<char>>> {
    if p.key == "sslrootcert"@ {
        Some(None)
    } else if p.key == "sslmode"@ && sslmode_replacement(ascii_lower(p.value)) is Some {
        Some(Some("sslmode="@ + sslmode_replacement(ascii_lower(p.value))->0))
    } else {
        None
    }
}

/// The entries' texts that remain after rewriting, in order.
pub open spec fn keyword_rewritten(s: Seq<char>, ps: Seq<KeywordParamModel>) -> Seq<Seq<char>>
    decreases ps.len(),
{
    if ps.len() == 0 {
        Seq::empty()
    } else {
        let rest = keyword_rewritten(s, ps.drop_last());
        match keyword_param_rewrite(ps.last()) {
            None => rest.push(s.subrange(ps.last().start, ps.last().end)),
            Some(None) => rest,
            Some(Some(t)) => rest.push(t),
        }
    }
}

/// Whether any entry is rewritten.
pub open spec fn keyword_any_rewritten(ps: Seq<KeywordParamModel>) -> bool
    decreases ps.len(),
{
    if ps.len() == 0 {
        false
    } else {
        keyword_any_rewritten(ps.drop_last()) || keyword_param_rewrite(ps.last()) is Some
    }
}

/// A keyword connection string as the driver should parse it: unchanged unless it
/// parses and some entry is rewritten, else the remaining entries joined by spaces.
pub open spec fn normalized_keyword_string(s: Seq<char>) -> Seq<char> {
    match keyword_params_from(s, 0) {
        None => s,
        Some(ps) => if keyword_any_rewritten(ps) {
            join(keyword_rewritten(s, ps), seq![' '])
        } else {
            s
        },
    }
}

/// A connection string as the driver should parse it: `sslrootcert` removed and
/// `sslmode` values the driver lacks (`verify-ca`, `verify-full`, `allow`)
/// replaced by the nearest it supports.
pub open spec fn normalized_connection_string(url: &str) -> Seq<char> {
    if is_postgres_url_text(url@) {
        normalized_url(url)
    } else {
        normalized_keyword_string(url@)
    }
}

proof fn lemma_param_bounds(s: Seq<char>, i: int)
    requires
        0 <= i <= s.len(),
    ensures
        keyword_params_from(s, i) matches Some(ps) ==> forall|k: int|
            0 <= k < ps.len() ==> i <= #[trigger] ps[k].start <= ps[k].end <= s.len(),
    decreases s.len() - i,
{
    let j = skip_ws(s, i);
    lemma_skip_ws(s, i);
    if j < s.len() {
        let k = key_end(s, j);
        lemma_key_end(s, j);
        let m = skip_ws(s, k);
        lemma_skip_ws(s, k);
        if !(k == j || m >= s.len() || s[m] != '=') {
            let n = skip_ws(s, m + 1);
            lemma_skip_ws(s, m + 1);
            lemma_value_at(s, n);
            if let Some((v, e)) = value_at(s, n) {
                lemma_param_bounds(s, e);
                if let Some(ps) = keyword_params_from(s, i) {
                    assert forall|x: int| 0 <= x < ps.len() implies i <= #[trigger] ps[x].start
                        <= ps[x].end <= s.len() by {
                        if x > 0 {
                            assert(ps[x] == keyword_params_from(s, e)->0[x - 1]);
                        }
                    }
                }
            }
        }
    }
}

fn push_chars_range(out: &mut String, s: &Vec<char>, from: usize, to: usize)
    requires
        from <= to <= s@.len(),
    ensures
        final(out)@ == old(out)@ + s@.subrange(from as int, to as int),
{
    let ghost start = out@;
    let mut i = from;
    while i < to
        invariant
            from <= i <= to <= s@.len(),
            out@ == start + s@.subrange(from as int, i as int),
        decreases to - i,
    {
        push_char(out, s[i]);
        i = i + 1;
        assert(s@.subrange(from as int, i as int) == s@.subrange(from as int, i - 1).push(s@[i - 1]));
    }
}

fn normalize_keyword_connection_string_for_tokio_postgres(database_url: &str) -> (normalized: String)
    ensures
        normalized@ == normalized_keyword_string(database_url@),
{
    let chars = chars_of(database_url);
    let params = match keyword_params_of(&chars) {
        Some(params) => params,
        None => return to_owned_string(database_url),
    };
    let ghost ps = params_view(params@);
    proof {
        lemma_param_bounds(chars@, 0);
        assert forall|k: int| 0 <= k < ps.len() implies 0 <= #[trigger] ps[k].start <= ps[k].end
            <= chars@.len() by {
            assert(keyword_params_from(chars@, 0)->0[k] == ps[k]);
        }
    }
    let mut changed = false;
    let mut out = String::new();
    let mut kept_count: usize = 0;
    let mut i: usize = 0;
    while i < params.len()
        invariant
            i <= params.len(),
            chars@ == database_url@,
            ps == params_view(params@),
            keyword_params_from(chars@, 0) == Some(ps),
            forall|k: int| 0 <= k < ps.len() ==> 0 <= #[trigger] ps[k].start <= ps[k].end <= chars@.len(),
            changed == keyword_any_rewritten(ps.take(i as int)),
            out@ == join(keyword_rewritten(chars@, ps.take(i as int)), seq![' ']),
            kept_count == keyword_rewritten(chars@, ps.take(i as int)).len(),
            kept_count <= i,
        decreases params.len() - i,
    {
        let ghost done = ps.take(i as int);
        let ghost next = ps.take(i + 1);
        assert(next.drop_last() == done);
        assert(next.last() == params@[i as int]@);
        let ghost old_out = out@;
        let ghost old_kept = keyword_rewritten(chars@, done);
        let p = &params[i];
        if crate::text::str_equals(p.key.as_str(), "sslrootcert") {
            changed = true;
            assert(keyword_rewritten(chars@, next) == old_kept);
        } else {
            let mut replacement: Option<&'static str> = None;
            if crate::text::str_equals(p.key.as_str(), "sslmode") {
                let lowered = ascii_lowercase(p.value.as_str());
                replacement = normalized_sslmode_value(lowered.as_str());
            }
            if kept_count > 0 {
                push_char(&mut out, ' ');
            }
            let ghost before_item = out@;
            match replacement {
                Some(r) => {
                    push_str(&mut out, "sslmode=");
                    push_str(&mut out, r);
                    changed = true;
                    assert(out@ == before_item + ("sslmode="@ + r@));
                },
                None => {
                    assert(0 <= ps[i as int].start <= ps[i as int].end <= chars@.len());
                    push_chars_range(&mut out, &chars, p.start, p.end);
                },
            }
            proof {
                let item = match keyword_param_rewrite(params@[i as int]@) {
                    Some(Some(t)) => t,
                    _ => chars@.subrange(params@[i as int]@.start, params@[i as int]@.end),
                };
                assert(keyword_rewritten(chars@, next) == old_kept.push(item));
                assert(keyword_rewritten(chars@, next).drop_last() == old_kept);
                assert(out@ == before_item + item);
                if old_kept.len() == 0 {
                    assert(old_out == Seq::<char>::empty());
                    assert(keyword_rewritten(chars@, next) == seq![item]);
                } else {
                    assert(before_item == old_out + seq![' ']);
                }
            }
            kept_count = kept_count + 1;
        }
        i = i + 1;
    }
    assert(ps.take(params.len() as int) == ps);
    if changed {
        out
    } else {
        to_owned_string(database_url)
    }
}

/// Rewrites a connection string into a form the Postgres driver accepts.
pub fn normalize_connection_string_for_tokio_postgres(database_url: &str) -> (normalized: String)
    ensures
        normalized@ == normalized_connection_string(database_url),
{
    let chars = chars_of(database_url);
    if is_postgres_url(&chars) {
        normalize_postgres_url_for_tokio_postgres(database_url)
    } else {
        normalize_keyword_connection_string_for_tokio_postgres(database_url)
    }
}


// ---------------------------------------------------------------------------
// TLS policy
// ---------------------------------------------------------------------------

/// Postgres TLS policy used by Chaindexing's pooled and raw clients.
#[derive(Clone, Copy, Debug, Eq, PartialEq, Structural)]
pub enum PostgresTlsMode {
    /// Never use TLS.
    Disable,
    /// Try TLS and fall back to cleartext only when the server does not offer TLS.
    Prefer,
    /// Require TLS.
    Require,
}

/// TLS configuration for Postgres connections.
#[derive(Clone, Debug, Eq, PartialEq)]
pub struct PostgresTlsConfig {
    mode: PostgresTlsMode,
    native_roots: bool,
    ca_certs_pem: Vec<Vec<u8>>,
    ca_cert_paths: Vec<String>,
}

/// The abstract value of a [`PostgresTlsConfig`].
pub struct PostgresTlsConfigModel {
    pub mode: PostgresTlsMode,
    pub native_roots: bool,
    pub ca_certs_pem: Seq<Seq<u8>>,
    pub ca_cert_paths: Seq<Seq<char>>,
}

impl View for PostgresTlsConfig {
    type V = PostgresTlsConfigModel;

    closed spec fn view(&self) -> PostgresTlsConfigModel {
        PostgresTlsConfigModel {
            mode: self.mode,
            native_roots: self.native_roots,
            ca_certs_pem: self.ca_certs_pem@.map_values(|v: Vec<u8>| v@),
            ca_cert_paths: self.ca_cert_paths@.map_values(|p: String| p@),
        }
    }
}

/// A config with the given mode, native roots exactly when TLS may be used, and no
/// extra certificates.
pub open spec fn config_with_mode(mode: PostgresTlsMode) -> PostgresTlsConfigModel {
    PostgresTlsConfigModel {
        mode,
        native_roots: mode != PostgresTlsMode::Disable,
        ca_certs_pem: Seq::empty(),
        ca_cert_paths: Seq::empty(),
    }
}

/// The TLS mode an `sslmode` value asks for (compared ASCII-case-insensitively):
/// `prefer`/`allow` prefer TLS, `require`/`verify-ca`/`verify-full` require it, and
/// anything else, or no `sslmode` at all, disables it.
pub open spec fn mode_for_sslmode(value: Option<Seq<char>>) -> PostgresTlsMode {
    match value {
        Some(v) => {
            let l = ascii_lower(v);
            if l == "prefer"@ || l == "allow"@ {
                PostgresTlsMode::Prefer
            } else if l == "require"@ || l == "verify-ca"@ || l == "verify-full"@ {
                PostgresTlsMode::Require
            } else {
                PostgresTlsMode::Disable
            }
        },
        None => PostgresTlsMode::Disable,
    }
}

/// The configuration a connection string asks for.
pub open spec fn config_for_url(url: &str) -> PostgresTlsConfigModel {
    let base = config_with_mode(mode_for_sslmode(connection_param(url, "sslmode"@)));
    match connection_param(url, "sslrootcert"@) {
        Some(path) => PostgresTlsConfigModel { ca_cert_paths: seq![path], ..base },
        None => base,
    }
}

impl Default for PostgresTlsConfig {
    fn default() -> (config: Self)
        ensures
            config@ == config_with_mode(PostgresTlsMode::Disable),
    {
        Self::disable()
    }
}

impl PostgresTlsConfig {
    /// Creates a config that never uses TLS.
    pub fn disable() -> (config: Self)
        ensures
            config@ == config_with_mode(PostgresTlsMode::Disable),
    {
        let config = Self {
            mode: PostgresTlsMode::Disable,
            native_roots: false,
            ca_certs_pem: Vec::new(),
            ca_cert_paths: Vec::new(),
        };
        assert(config@.ca_certs_pem == Seq::<Seq<u8>>::empty());
        assert(config@.ca_cert_paths == Seq::<Seq<char>>::empty());
        config
    }

    /// Creates a config that tries TLS and accepts cleartext if the server does not offer TLS.
    pub fn prefer() -> (config: Self)
        ensures
            config@ == config_with_mode(PostgresTlsMode::Prefer),
    {
        Self::with_mode(PostgresTlsMode::Prefer)
    }

    /// Creates a config that requires TLS.
    pub fn require() -> (config: Self)
        ensures
            config@ == config_with_mode(PostgresTlsMode::Require),
    {
        Self::with_mode(PostgresTlsMode::Require)
    }

    /// Creates a config from a TLS mode; platform roots are loaded unless TLS is disabled.
    pub fn with_mode(mode: PostgresTlsMode) -> (config: Self)
        ensures
            config@ == config_with_mode(mode),
    {
        let config = Self {
            mode,
            native_roots: mode != PostgresTlsMode::Disable,
            ca_certs_pem: Vec::new(),
            ca_cert_paths: Vec::new(),
        };
        assert(config@.ca_certs_pem == Seq::<Seq<u8>>::empty());
        assert(config@.ca_cert_paths == Seq::<Seq<char>>::empty());
        config
    }

    /// Infers TLS behavior from a Postgres URL or libpq-style connection string.
    ///
    /// A missing `sslmode` keeps the historical Chaindexing default: TLS is disabled.
    /// `sslmode=require`, `sslmode=verify-ca`, and `sslmode=verify-full` require TLS.
    /// An `sslrootcert` parameter becomes a trusted CA bundle path.
    pub fn from_database_url(database_url: &str) -> (config: Self)
        ensures
            config@ == config_for_url(database_url),
    {
        let sslmode = connection_param_value(database_url, "sslmode");
        let mode = match sslmode {
            Some(value) => {
                let lowered = ascii_lowercase(value.as_str());
                let l = lowered.as_str();
                if crate::text::str_equals(l, "prefer") || crate::text::str_equals(l, "allow") {
                    PostgresTlsMode::Prefer
                } else if crate::text::str_equals(l, "require") || crate::text::str_equals(
                    l,
                    "verify-ca",
                ) || crate::text::str_equals(l, "verify-full") {
                    PostgresTlsMode::Require
                } else {
                    PostgresTlsMode::Disable
                }
            },
            None => PostgresTlsMode::Disable,
        };
        let config = Self::with_mode(mode);
        match connection_param_value(database_url, "sslrootcert") {
            Some(path) => config.with_ca_cert_path(path.as_str()),
            None => config,
        }
    }

    /// Returns the configured TLS mode.
    pub fn mode(&self) -> (mode: PostgresTlsMode)
        ensures
            mode == self@.mode,
    {
        self.mode
    }

    /// Whether the platform-native certificate roots are trusted.
    pub fn native_roots(&self) -> (enabled: bool)
        ensures
            enabled == self@.native_roots,
    {
        self.native_roots
    }

    /// The CA bundle paths trusted in addition to the native roots.
    pub fn ca_cert_paths(&self) -> (paths: &Vec<String>)
        ensures
            paths@.map_values(|p: String| p@) == self@.ca_cert_paths,
    {
        &self.ca_cert_paths
    }

    /// The PEM-encoded CA bundles trusted in addition to the native roots.
    pub fn ca_certs_pem(&self) -> (pems: &Vec<Vec<u8>>)
        ensures
            pems@.map_values(|v: Vec<u8>| v@) == self@.ca_certs_pem,
    {
        &self.ca_certs_pem
    }

    /// Enables or disables loading the platform-native certificate roots.
    pub fn with_native_roots(self, enabled: bool) -> (config: Self)
        ensures
            config@ == (PostgresTlsConfigModel { native_roots: enabled, ..self@ }),
    {
        Self { native_roots: enabled, ..self }
    }

    /// Disables platform-native roots. Use this when the supplied CA bundle should be exclusive.
    pub fn without_native_roots(self) -> (config: Self)
        ensures
            config@ == (PostgresTlsConfigModel { native_roots: false, ..self@ }),
    {
        self.with_native_roots(false)
    }

    /// Adds a PEM-encoded CA certificate bundle trusted for server certificate verification.
    pub fn with_ca_cert_pem(self, pem: Vec<u8>) -> (config: Self)
        ensures
            config@ == (PostgresTlsConfigModel {
                ca_certs_pem: self@.ca_certs_pem.push(pem@),
                ..self@
            }),
    {
        let mut config = self;
        let ghost before = config.ca_certs_pem@;
        config.ca_certs_pem.push(pem);
        assert(config.ca_certs_pem@.map_values(|v: Vec<u8>| v@) == before.map_values(
            |v: Vec<u8>| v@,
        ).push(pem@));
        config
    }

    /// Adds a PEM-encoded CA certificate bundle path trusted for server certificate verification.
    pub fn with_ca_cert_path(self, path: &str) -> (config: Self)
        ensures
            config@ == (PostgresTlsConfigModel {
                ca_cert_paths: self@.ca_cert_paths.push(path@),
                ..self@
            }),
    {
        let mut config = self;
        let ghost before = config.ca_cert_paths@;
        config.ca_cert_paths.push(to_owned_string(path));
        assert(config.ca_cert_paths@.map_values(|p: String| p@) == before.map_values(
            |p: String| p@,
        ).push(path@));
        config
    }
}

} // verus!
