//! Request rewriting of the admin panel's reverse proxy: which server a
//! request is for (`x-nexus-server` header or `server=` query parameter),
//! percent-decoding of that id, removal of the routing parameter from the
//! forwarded query, and the hop-by-hop headers that are never forwarded.

use vstd::prelude::*;
use vstd::utf8::*;
use crate::text::{
    chars_eq, chars_of, eq_ignore_ascii_case, eq_ignore_ascii_case_chars, extend_chars, has_char,
    has_prefix, slice_vec, starts_with_chars, string_from, trim, trim_str,
};

verus! {

// ---------------------------------------------------------------------------
// Percent decoding
// ---------------------------------------------------------------------------

/// The value of an ASCII hexadecimal digit.
pub open spec fn hex_value(b: u8) -> Option<u8> {
    if 48 <= b && b <= 57 {
        Some((b - 48) as u8)
    } else if 97 <= b && b <= 102 {
        Some((b - 97 + 10) as u8)
    } else if 65 <= b && b <= 70 {
        Some((b - 65 + 10) as u8)
    } else {
        None
    }
}

/// Percent-decoding of bytes: `%XY` with two hex digits becomes the byte
/// `0xXY`, `+` becomes a space, every other byte stays. A `%` that is not
/// followed by two hex digits stays as it is.
pub open spec fn percent_decode_bytes(b: Seq<u8>) -> Seq<u8>
    decreases b.len(),
{
    if b.len() == 0 {
        Seq::empty()
    } else if b[0] == 37 && b.len() > 2 && hex_value(b[1]) is Some && hex_value(b[2]) is Some {
        seq![(hex_value(b[1])->0 * 16 + hex_value(b[2])->0) as u8] + percent_decode_bytes(
            b.subrange(3, b.len() as int),
        )
    } else {
        seq![
            if b[0] == 43 {
                32u8
            } else {
                b[0]
            },
        ] + percent_decode_bytes(b.drop_first())
    }
}

/// What `String::from_utf8_lossy` makes of `bytes`.
pub uninterp spec fn utf8_lossy(bytes: Seq<u8>) -> Seq<char>;

/// Calls `String::from_utf8_lossy`. Its result is named `utf8_lossy`; the
/// standard library documents that valid UTF-8 comes back unchanged, which
/// the second clause states. How invalid sequences are replaced is left to
/// the name.
#[verifier::external_body]
fn string_from_utf8_lossy(bytes: &[u8]) -> (r: String)
    ensures
        r@ == utf8_lossy(bytes@),
        valid_utf8(bytes@) ==> r@ == decode_utf8(bytes@),
{
    String::from_utf8_lossy(bytes).into_owned()
}

/// The value of a hexadecimal digit (`0-9`, `a-f`, `A-F`).
pub fn from_hex(b: u8) -> (r: Option<u8>)
    ensures
        r == hex_value(b),
{
    if 48 <= b && b <= 57 {
        Some(b - 48)
    } else if 97 <= b && b <= 102 {
        Some(b - 97 + 10)
    } else if 65 <= b && b <= 70 {
        Some(b - 65 + 10)
    } else {
        None
    }
}

/// Bytes with no `%` and no `+` decode to themselves.
pub proof fn plain_bytes_decode_to_themselves(b: Seq<u8>)
    requires
        forall|i: int| 0 <= i < b.len() ==> #[trigger] b[i] != 37 && b[i] != 43,
    ensures
        percent_decode_bytes(b) == b,
    decreases b.len(),
{
    if b.len() > 0 {
        let rest = b.drop_first();
        assert forall|i: int| 0 <= i < rest.len() implies #[trigger] rest[i] != 37 && rest[i] != 43 by {
            assert(rest[i] == b[i + 1]);
        }
        plain_bytes_decode_to_themselves(rest);
        assert(seq![b[0]] + rest =~= b);
    }
}

/// ASCII text without `%` and `+` decodes to itself: the bytes stay as they
/// are and read back as the same text.
pub proof fn plain_ascii_text_decodes_to_itself(s: Seq<char>)
    requires
        is_ascii_chars(s),
        !has_char(s, '%'),
        !has_char(s, '+'),
    ensures
        percent_decode_bytes(encode_utf8(s)) == encode_utf8(s),
        valid_utf8(percent_decode_bytes(encode_utf8(s))),
        decode_utf8(percent_decode_bytes(encode_utf8(s))) == s,
{
    is_ascii_chars_encode_utf8(s);
    let b = encode_utf8(s);
    assert forall|i: int| 0 <= i < b.len() implies #[trigger] b[i] != 37 && b[i] != 43 by {
        assert(s[i] as u8 == b[i]);
        assert(s[i] != '%');
        assert(s[i] != '+');
        assert(('\0' <= s[i] <= '\u{7f}'));
    }
    plain_bytes_decode_to_themselves(b);
    encode_utf8_valid_utf8(s);
    encode_utf8_decode_utf8(s);
}

/// Percent-decodes the bytes `bytes`.
pub fn percent_decode_vec(bytes: &[u8]) -> (r: Vec<u8>)
    ensures
        r@ == percent_decode_bytes(bytes@),
{
    let n = bytes.len();
    let mut out: Vec<u8> = Vec::new();
    let mut i: usize = 0;
    assert(bytes@.subrange(0, n as int) =~= bytes@);
    while i < n
        invariant
            i <= n == bytes.len(),
            out@ + percent_decode_bytes(bytes@.subrange(i as int, n as int)) == percent_decode_bytes(
                bytes@,
            ),
        decreases n - i,
    {
        let ghost s = bytes@.subrange(i as int, n as int);
        if bytes[i] == 37 && n - i > 2 {
            let h = from_hex(bytes[i + 1]);
            let l = from_hex(bytes[i + 2]);
            if h.is_some() && l.is_some() {
                let hv = h.unwrap();
                let lv = l.unwrap();
                assert((hv << 4u8) | lv == hv * 16 + lv) by (bit_vector)
                    requires
                        hv < 16,
                        lv < 16,
                ;
                let ghost old_out = out@;
                out.push((hv << 4) | lv);
                proof {
                    assert(s[1] == bytes@[i + 1]);
                    assert(s[2] == bytes@[i + 2]);
                    assert(s.subrange(3, s.len() as int) =~= bytes@.subrange(i + 3, n as int));
                    assert(old_out + percent_decode_bytes(s) =~= out@ + percent_decode_bytes(
                        bytes@.subrange(i + 3, n as int),
                    ));
                }
                i = i + 3;
                continue;
            }
        }
        let ghost old_out = out@;
        if bytes[i] == 43 {
            out.push(32);
        } else {
            out.push(bytes[i]);
        }
        proof {
            assert(s[0] == bytes@[i as int]);
            if s[0] == 37 && s.len() > 2 {
                assert(s[1] == bytes@[i + 1]);
                assert(s[2] == bytes@[i + 2]);
            }
            assert(s.drop_first() =~= bytes@.subrange(i + 1, n as int));
            assert(old_out + percent_decode_bytes(s) =~= out@ + percent_decode_bytes(
                bytes@.subrange(i + 1, n as int),
            ));
        }
        i = i + 1;
    }
    assert(percent_decode_bytes(bytes@.subrange(n as int, n as int)) =~= Seq::<u8>::empty());
    assert(out@ =~= percent_decode_bytes(bytes@));
    out
}

/// Percent-decodes `input` (with `+` as space) and reads the bytes as UTF-8,
/// replacing invalid sequences.
pub fn percent_encoding_decode(input: &str) -> (r: String)
    ensures
        r@ == utf8_lossy(percent_decode_bytes(encode_utf8(input@))),
        valid_utf8(percent_decode_bytes(encode_utf8(input@))) ==> r@ == decode_utf8(
            percent_decode_bytes(encode_utf8(input@)),
        ),
{
    let bytes = input.as_bytes();
    let out = percent_decode_vec(bytes);
    string_from_utf8_lossy(out.as_slice())
}

/// Decodes a query-parameter value.
pub fn urlencoding_decode(s: &str) -> (r: String)
    ensures
        r@ == utf8_lossy(percent_decode_bytes(encode_utf8(s@))),
        valid_utf8(percent_decode_bytes(encode_utf8(s@))) ==> r@ == decode_utf8(
            percent_decode_bytes(encode_utf8(s@)),
        ),
{
    percent_encoding_decode(s)
}

// ---------------------------------------------------------------------------
// Splitting text
// ---------------------------------------------------------------------------

/// The pieces of `s` between the separators `c` (`str::split(c)`): always at
/// least one piece, empty pieces included.
pub open spec fn split_on(s: Seq<char>, c: char) -> Seq<Seq<char>>
    decreases s.len(),
{
    if s.len() == 0 {
        seq![Seq::empty()]
    } else {
        let p = split_on(s.drop_last(), c);
        if s.last() == c {
            p.push(Seq::empty())
        } else {
            p.update(p.len() - 1, p.last().push(s.last()))
        }
    }
}

/// The index of the first `c` in `s`, or -1.
pub open spec fn first_index(s: Seq<char>, c: char) -> int
    decreases s.len(),
{
    if s.len() == 0 {
        -1
    } else if s[0] == c {
        0
    } else {
        let r = first_index(s.drop_first(), c);
        if r < 0 {
            -1
        } else {
            r + 1
        }
    }
}

pub proof fn lemma_split_on_len(s: Seq<char>, c: char)
    ensures
        split_on(s, c).len() >= 1,
        forall|k: int| 0 <= k < split_on(s, c).len() ==> !has_char(#[trigger] split_on(s, c)[k], c),
    decreases s.len(),
{
    if s.len() > 0 {
        lemma_split_on_len(s.drop_last(), c);
        let p = split_on(s.drop_last(), c);
        if s.last() != c {
            assert forall|k: int| 0 <= k < split_on(s, c).len() implies !has_char(
                #[trigger] split_on(s, c)[k],
                c,
            ) by {
                if k == p.len() - 1 {
                    let x = p.last().push(s.last());
                    assert(!has_char(p[k], c));
                    if has_char(x, c) {
                        let j = choose|j: int| 0 <= j < x.len() && x[j] == c;
                        if j < p.last().len() {
                            assert(p[k][j] == c);
                        }
                    }
                }
            }
        } else {
            assert forall|k: int| 0 <= k < split_on(s, c).len() implies !has_char(
                #[trigger] split_on(s, c)[k],
                c,
            ) by {
                if k < p.len() {
                    assert(split_on(s, c)[k] == p[k]);
                }
            }
        }
    }
}

pub proof fn lemma_first_index(s: Seq<char>, c: char)
    ensures
        -1 <= first_index(s, c) < s.len(),
        first_index(s, c) >= 0 ==> s[first_index(s, c)] == c,
        forall|j: int| 0 <= j < s.len() && (first_index(s, c) < 0 || j < first_index(s, c)) ==> s[j]
            != c,
    decreases s.len(),
{
    if s.len() > 0 && s[0] != c {
        lemma_first_index(s.drop_first(), c);
        assert forall|j: int|
            0 <= j < s.len() && (first_index(s, c) < 0 || j < first_index(s, c)) implies s[j] != c by {
            if j > 0 {
                assert(s[j] == s.drop_first()[j - 1]);
            }
        }
    }
}

pub proof fn lemma_first_index_none(s: Seq<char>, c: char)
    requires
        !has_char(s, c),
    ensures
        first_index(s, c) == -1,
    decreases s.len(),
{
    if s.len() > 0 {
        assert(s[0] != c);
        if has_char(s.drop_first(), c) {
            let j = choose|j: int| 0 <= j < s.drop_first().len() && s.drop_first()[j] == c;
            assert(s[j + 1] == c);
        }
        lemma_first_index_none(s.drop_first(), c);
    }
}

/// The first `c` of `a + [c] + b` is the one after `a` when `a` holds none.
pub proof fn lemma_first_index_concat(a: Seq<char>, b: Seq<char>, c: char)
    requires
        !has_char(a, c),
    ensures
        first_index(a + seq![c] + b, c) == a.len(),
    decreases a.len(),
{
    let t = a + seq![c] + b;
    if a.len() > 0 {
        assert(t[0] == a[0]);
        assert(t.drop_first() =~= a.drop_first() + seq![c] + b);
        if has_char(a.drop_first(), c) {
            let j = choose|j: int| 0 <= j < a.drop_first().len() && a.drop_first()[j] == c;
            assert(a[j + 1] == c);
        }
        lemma_first_index_concat(a.drop_first(), b, c);
    } else {
        assert(t[0] == c);
    }
}

/// Finds the first `c` in `cs`.
pub fn first_index_of(cs: &[char], c: char) -> (r: Option<usize>)
    ensures
        match r {
            Some(k) => k as int == first_index(cs@, c) && k < cs.len(),
            None => first_index(cs@, c) == -1,
        },
{
    proof {
        lemma_first_index(cs@, c);
    }
    let mut i: usize = 0;
    while i < cs.len()
        invariant
            i <= cs.len(),
            forall|j: int| 0 <= j < i ==> cs@[j] != c,
            -1 <= first_index(cs@, c) < cs@.len(),
            first_index(cs@, c) >= 0 ==> cs@[first_index(cs@, c)] == c,
            forall|j: int|
                0 <= j < cs@.len() && (first_index(cs@, c) < 0 || j < first_index(cs@, c)) ==> cs@[j]
                    != c,
        decreases cs.len() - i,
    {
        if cs[i] == c {
            return Some(i);
        }
        i = i + 1;
    }
    None
}

/// The key of a `key=value` pair: the text before the first `=`, or all of
/// it (`splitn(2, '=')`).
pub open spec fn pair_key(p: Seq<char>) -> Seq<char> {
    if first_index(p, '=') < 0 {
        p
    } else {
        p.take(first_index(p, '='))
    }
}

/// The value of a `key=value` pair: the text after the first `=`, or empty.
pub open spec fn pair_value(p: Seq<char>) -> Seq<char> {
    if first_index(p, '=') < 0 {
        Seq::empty()
    } else {
        p.skip(first_index(p, '=') + 1)
    }
}

pub open spec fn server_word() -> Seq<char> {
    seq!['s', 'e', 'r', 'v', 'e', 'r']
}

/// A query pair that selects a server: key `server` and a non-empty value.
pub open spec fn is_server_pair(p: Seq<char>) -> bool {
    pair_key(p) == server_word() && pair_value(p).len() > 0
}

/// The value of the first server-selecting pair among `ps`.
pub open spec fn first_server_value(ps: Seq<Seq<char>>) -> Option<Seq<char>>
    decreases ps.len(),
{
    if ps.len() == 0 {
        None
    } else {
        match first_server_value(ps.drop_last()) {
            Some(v) => Some(v),
            None => if is_server_pair(ps.last()) {
                Some(pair_value(ps.last()))
            } else {
                None
            },
        }
    }
}

/// The raw (still encoded) server id that the query `q` selects.
pub open spec fn server_query_value(q: Seq<char>) -> Option<Seq<char>> {
    first_server_value(split_on(q, '&'))
}

fn server_chars() -> (r: Vec<char>)
    ensures
        r@ == server_word(),
{
    let r = vec!['s', 'e', 'r', 'v', 'e', 'r'];
    assert(r@ =~= server_word());
    r
}

/// Splits a query pair into key and value at its first `=`.
pub fn split_pair(p: &[char]) -> (r: (Vec<char>, Vec<char>))
    ensures
        r.0@ == pair_key(p@),
        r.1@ == pair_value(p@),
{
    match first_index_of(p, '=') {
        Some(k) => {
            let key = slice_vec(p, 0, k);
            let value = slice_vec(p, k + 1, p.len());
            assert(key@ =~= p@.take(k as int));
            assert(value@ =~= p@.skip(k + 1));
            (key, value)
        },
        None => {
            let key = slice_vec(p, 0, p.len());
            assert(key@ =~= p@);
            (key, Vec::new())
        },
    }
}

fn is_server_pair_exec(p: &[char]) -> (r: bool)
    ensures
        r == is_server_pair(p@),
{
    let (key, value) = split_pair(p);
    let word = server_chars();
    chars_eq(key.as_slice(), word.as_slice()) && value.len() > 0
}

pub open spec fn opt_chars(o: Option<Vec<char>>) -> Option<Seq<char>> {
    match o {
        Some(v) => Some(v@),
        None => None,
    }
}

proof fn lemma_split_step(s: Seq<char>, i: int, c: char)
    requires
        0 <= i < s.len(),
    ensures
        s.take(i + 1).drop_last() == s.take(i),
        s.take(i + 1).last() == s[i],
{
    assert(s.take(i + 1).drop_last() =~= s.take(i));
}

/// The still-encoded value of the first `server=` pair of the query `q`.
fn find_server_value(q: &[char]) -> (r: Option<Vec<char>>)
    ensures
        opt_chars(r) == server_query_value(q@),
{
    let n = q.len();
    let mut cur: Vec<char> = Vec::new();
    let mut found: Option<Vec<char>> = None;
    let mut i: usize = 0;
    proof {
        assert(q@.take(0) =~= Seq::<char>::empty());
        assert(split_on(q@.take(0), '&').drop_last() =~= Seq::<Seq<char>>::empty());
    }
    while i < n
        invariant
            i <= n == q.len(),
            split_on(q@.take(i as int), '&').len() >= 1,
            cur@ == split_on(q@.take(i as int), '&').last(),
            opt_chars(found) == first_server_value(split_on(q@.take(i as int), '&').drop_last()),
        decreases n - i,
    {
        proof {
            lemma_split_step(q@, i as int, '&');
            lemma_split_on_len(q@.take(i as int), '&');
        }
        let ghost ps = split_on(q@.take(i as int), '&');
        if q[i] == '&' {
            if found.is_none() && is_server_pair_exec(cur.as_slice()) {
                let (_, value) = split_pair(cur.as_slice());
                found = Some(value);
            }
            cur = Vec::new();
            proof {
                let ps2 = split_on(q@.take(i + 1), '&');
                assert(ps2 == ps.push(Seq::empty()));
                assert(ps2.drop_last() =~= ps);
                assert(ps.drop_last().push(ps.last()) =~= ps);
                assert(ps == ps.drop_last().push(ps.last()));
                assert(ps.drop_last().push(ps.last()).drop_last() =~= ps.drop_last());
                assert(cur@ =~= ps2.last());
            }
        } else {
            cur.push(q[i]);
            proof {
                let ps2 = split_on(q@.take(i + 1), '&');
                assert(ps2.drop_last() =~= ps.drop_last());
            }
        }
        i = i + 1;
    }
    proof {
        assert(q@.take(n as int) =~= q@);
        lemma_split_on_len(q@, '&');
        let ps = split_on(q@, '&');
        assert(ps.drop_last().push(ps.last()) =~= ps);
        assert(ps.drop_last().push(ps.last()).drop_last() =~= ps.drop_last());
    }
    if found.is_none() && is_server_pair_exec(cur.as_slice()) {
        let (_, value) = split_pair(cur.as_slice());
        found = Some(value);
    }
    found
}

/// The decoded server id selected by a `server=<id>` pair of the request
/// query `query`, if there is one with a non-empty value.
pub fn server_id_from_uri(query: Option<&str>) -> (r: Option<String>)
    ensures
        match query {
            None => r is None,
            Some(q) => match server_query_value(q@) {
                None => r is None,
                Some(v) => {
                    &&& r is Some
                    &&& r->0@ == utf8_lossy(percent_decode_bytes(encode_utf8(v)))
                    &&& valid_utf8(percent_decode_bytes(encode_utf8(v))) ==> r->0@ == decode_utf8(
                        percent_decode_bytes(encode_utf8(v)),
                    )
                },
            },
        },
{
    match query {
        None => None,
        Some(q) => {
            let cs = chars_of(q);
            match find_server_value(cs.as_slice()) {
                None => None,
                Some(v) => {
                    let text = string_from(v.as_slice());
                    Some(urlencoding_decode(text.as_str()))
                },
            }
        },
    }
}

/// The server id of the `x-nexus-server` header value, trimmed, when it is
/// not blank.
pub fn server_id_from_headers(value: Option<&str>) -> (r: Option<String>)
    ensures
        match value {
            None => r is None,
            Some(v) => if trim(v@).len() > 0 {
                r is Some && r->0@ == trim(v@)
            } else {
                r is None
            },
        },
{
    match value {
        None => None,
        Some(v) => {
            let t = trim_str(v);
            if t.as_str().unicode_len() > 0 {
                Some(t)
            } else {
                None
            }
        },
    }
}

// ---------------------------------------------------------------------------
// Removing the routing parameter
// ---------------------------------------------------------------------------

pub open spec fn server_eq_word() -> Seq<char> {
    seq!['s', 'e', 'r', 'v', 'e', 'r', '=']
}

/// A query pair that is forwarded: not empty and not the `server` routing
/// parameter.
pub open spec fn keep_param(p: Seq<char>) -> bool {
    p.len() > 0 && !has_prefix(p, server_eq_word()) && p != server_word()
}

/// The pairs of `ps` that are forwarded, in order.
pub open spec fn kept_params(ps: Seq<Seq<char>>) -> Seq<Seq<char>>
    decreases ps.len(),
{
    if ps.len() == 0 {
        Seq::empty()
    } else {
        let r = kept_params(ps.drop_last());
        if keep_param(ps.last()) {
            r.push(ps.last())
        } else {
            r
        }
    }
}

/// The pieces `ps` joined with `&`.
pub open spec fn join_amp(ps: Seq<Seq<char>>) -> Seq<char>
    decreases ps.len(),
{
    if ps.len() == 0 {
        Seq::empty()
    } else if ps.len() == 1 {
        ps[0]
    } else {
        join_amp(ps.drop_last()) + seq!['&'] + ps.last()
    }
}

/// A path with query, with the `server` routing parameter and empty pairs
/// removed from its query; the `?` goes too when no pair is left.
pub open spec fn stripped_query(s: Seq<char>) -> Seq<char> {
    let k = first_index(s, '?');
    if k < 0 {
        s
    } else {
        let kept = kept_params(split_on(s.skip(k + 1), '&'));
        if kept.len() == 0 {
            s.take(k)
        } else {
            s.take(k) + seq!['?'] + join_amp(kept)
        }
    }
}

fn keep_param_exec(p: &[char]) -> (r: bool)
    ensures
        r == keep_param(p@),
{
    let prefix = vec!['s', 'e', 'r', 'v', 'e', 'r', '='];
    assert(prefix@ =~= server_eq_word());
    let word = server_chars();
    p.len() > 0 && !starts_with_chars(p, prefix.as_slice()) && !chars_eq(p, word.as_slice())
}

proof fn lemma_join_push(r: Seq<Seq<char>>, x: Seq<char>)
    ensures
        join_amp(r.push(x)) == if r.len() == 0 {
            x
        } else {
            join_amp(r) + seq!['&'] + x
        },
{
    assert(r.push(x).drop_last() =~= r);
}

/// Appends the kept pairs of the query `q` to `out`, joined with `&`, and
/// says how many there were.
fn kept_query(q: &[char], out: &mut Vec<char>) -> (nk: usize)
    requires
        old(out)@.len() == 0,
    ensures
        final(out)@ == join_amp(kept_params(split_on(q@, '&'))),
        nk as int == kept_params(split_on(q@, '&')).len(),
{
    let n = q.len();
    let mut cur: Vec<char> = Vec::new();
    let mut nk: usize = 0;
    let mut i: usize = 0;
    proof {
        assert(q@.take(0) =~= Seq::<char>::empty());
        assert(split_on(q@.take(0), '&').drop_last() =~= Seq::<Seq<char>>::empty());
        assert(out@ =~= join_amp(Seq::<Seq<char>>::empty()));
    }
    while i < n
        invariant
            i <= n == q.len(),
            split_on(q@.take(i as int), '&').len() >= 1,
            cur@ == split_on(q@.take(i as int), '&').last(),
            out@ == join_amp(kept_params(split_on(q@.take(i as int), '&').drop_last())),
            nk as int == kept_params(split_on(q@.take(i as int), '&').drop_last()).len(),
            nk + cur@.len() <= i,
        decreases n - i,
    {
        proof {
            lemma_split_step(q@, i as int, '&');
            lemma_split_on_len(q@.take(i as int), '&');
        }
        let ghost ps = split_on(q@.take(i as int), '&');
        if q[i] == '&' {
            proof {
                assert(ps.drop_last().push(ps.last()) =~= ps);
                assert(ps.drop_last().push(ps.last()).drop_last() =~= ps.drop_last());
                lemma_join_push(kept_params(ps.drop_last()), ps.last());
            }
            if keep_param_exec(cur.as_slice()) {
                if nk > 0 {
                    out.push('&');
                }
                extend_chars(out, cur.as_slice());
                nk = nk + 1;
            }
            cur = Vec::new();
            proof {
                let ps2 = split_on(q@.take(i + 1), '&');
                assert(ps2 == ps.push(Seq::empty()));
                assert(ps2.drop_last() =~= ps);
                assert(cur@ =~= ps2.last());
            }
        } else {
            cur.push(q[i]);
            proof {
                let ps2 = split_on(q@.take(i + 1), '&');
                assert(ps2.drop_last() =~= ps.drop_last());
            }
        }
        i = i + 1;
    }
    proof {
        assert(q@.take(n as int) =~= q@);
        lemma_split_on_len(q@, '&');
        let ps = split_on(q@, '&');
        assert(ps.drop_last().push(ps.last()) =~= ps);
        assert(ps.drop_last().push(ps.last()).drop_last() =~= ps.drop_last());
        lemma_join_push(kept_params(ps.drop_last()), ps.last());
    }
    if keep_param_exec(cur.as_slice()) {
        if nk > 0 {
            out.push('&');
        }
        extend_chars(out, cur.as_slice());
        nk = nk + 1;
    }
    nk
}

/// Removes the `server` routing parameter (and empty pairs) from the query
/// of `path_and_query`; drops the `?` when no pair is left.
pub fn strip_server_query(path_and_query: &str) -> (r: String)
    ensures
        r@ == stripped_query(path_and_query@),
{
    let s = chars_of(path_and_query);
    match first_index_of(s.as_slice(), '?') {
        None => string_from(s.as_slice()),
        Some(k) => {
            let query = slice_vec(s.as_slice(), k + 1, s.len());
            assert(query@ =~= s@.skip(k + 1));
            let mut out = slice_vec(s.as_slice(), 0, k);
            assert(out@ =~= s@.take(k as int));
            let mut joined: Vec<char> = Vec::new();
            let nk = kept_query(query.as_slice(), &mut joined);
            if nk > 0 {
                out.push('?');
                extend_chars(&mut out, joined.as_slice());
                assert(out@ =~= s@.take(k as int) + seq!['?'] + joined@);
            }
            string_from(out.as_slice())
        },
    }
}

// ---------------------------------------------------------------------------
// Idempotence of the query rewriting
// ---------------------------------------------------------------------------

proof fn lemma_split_no_sep(s: Seq<char>, c: char)
    requires
        !has_char(s, c),
    ensures
        split_on(s, c) == seq![s],
    decreases s.len(),
{
    if s.len() > 0 {
        assert(s.last() == s[s.len() - 1]);
        if has_char(s.drop_last(), c) {
            let j = choose|j: int| 0 <= j < s.drop_last().len() && s.drop_last()[j] == c;
            assert(s[j] == c);
        }
        lemma_split_no_sep(s.drop_last(), c);
        assert(s.drop_last().push(s.last()) =~= s);
        assert(seq![s.drop_last()].update(0, s.drop_last().push(s.last())) =~= seq![s]);
    } else {
        assert(s =~= Seq::<char>::empty());
    }
}

proof fn lemma_split_concat(a: Seq<char>, b: Seq<char>, c: char)
    ensures
        split_on(a + seq![c] + b, c) == split_on(a, c) + split_on(b, c),
    decreases b.len(),
{
    let t = a + seq![c] + b;
    lemma_split_on_len(a, c);
    lemma_split_on_len(b, c);
    if b.len() == 0 {
        assert(t.drop_last() =~= a);
        assert(split_on(a, c).push(Seq::empty()) =~= split_on(a, c) + split_on(b, c));
    } else {
        assert(t.drop_last() =~= a + seq![c] + b.drop_last());
        lemma_split_concat(a, b.drop_last(), c);
        lemma_split_on_len(b.drop_last(), c);
        let pa = split_on(a, c);
        let pb = split_on(b.drop_last(), c);
        if b.last() == c {
            assert((pa + pb).push(Seq::empty()) =~= pa + pb.push(Seq::empty()));
        } else {
            let p = pa + pb;
            assert(p.last() == pb.last());
            assert(p.update(p.len() - 1, p.last().push(t.last())) =~= pa + pb.update(
                pb.len() - 1,
                pb.last().push(b.last()),
            ));
        }
    }
}

proof fn lemma_split_join(ps: Seq<Seq<char>>)
    requires
        ps.len() >= 1,
        forall|k: int| 0 <= k < ps.len() ==> !has_char(#[trigger] ps[k], '&'),
    ensures
        split_on(join_amp(ps), '&') == ps,
    decreases ps.len(),
{
    if ps.len() == 1 {
        lemma_split_no_sep(ps[0], '&');
        assert(seq![ps[0]] =~= ps);
    } else {
        lemma_split_join(ps.drop_last());
        lemma_split_concat(join_amp(ps.drop_last()), ps.last(), '&');
        lemma_split_no_sep(ps.last(), '&');
        assert(ps.drop_last() + seq![ps.last()] =~= ps);
    }
}

proof fn lemma_kept_props(ps: Seq<Seq<char>>)
    requires
        forall|k: int| 0 <= k < ps.len() ==> !has_char(#[trigger] ps[k], '&'),
    ensures
        forall|k: int|
            0 <= k < kept_params(ps).len() ==> keep_param(#[trigger] kept_params(ps)[k]) && !has_char(
                kept_params(ps)[k],
                '&',
            ),
    decreases ps.len(),
{
    if ps.len() > 0 {
        assert forall|k: int| 0 <= k < ps.drop_last().len() implies !has_char(
            #[trigger] ps.drop_last()[k],
            '&',
        ) by {
            assert(ps.drop_last()[k] == ps[k]);
        }
        lemma_kept_props(ps.drop_last());
        let r = kept_params(ps.drop_last());
        assert(!has_char(ps[ps.len() - 1], '&'));
        assert forall|k: int| 0 <= k < kept_params(ps).len() implies keep_param(
            #[trigger] kept_params(ps)[k],
        ) && !has_char(kept_params(ps)[k], '&') by {
            if k < r.len() {
                assert(kept_params(ps)[k] == r[k]);
            }
        }
    }
}

proof fn lemma_kept_all(ps: Seq<Seq<char>>)
    requires
        forall|k: int| 0 <= k < ps.len() ==> keep_param(#[trigger] ps[k]),
    ensures
        kept_params(ps) == ps,
    decreases ps.len(),
{
    if ps.len() > 0 {
        assert forall|k: int| 0 <= k < ps.drop_last().len() implies keep_param(
            #[trigger] ps.drop_last()[k],
        ) by {
            assert(ps.drop_last()[k] == ps[k]);
        }
        lemma_kept_all(ps.drop_last());
        assert(ps.drop_last().push(ps.last()) =~= ps);
    }
}

proof fn lemma_no_char_before_first(s: Seq<char>, c: char)
    requires
        first_index(s, c) >= 0,
    ensures
        !has_char(s.take(first_index(s, c)), c),
{
    lemma_first_index(s, c);
    let k = first_index(s, c);
    if has_char(s.take(k), c) {
        let j = choose|j: int| 0 <= j < s.take(k).len() && s.take(k)[j] == c;
        assert(s[j] == c);
    }
}

/// A forwarded pair never selects a server.
proof fn lemma_kept_pair_not_server(p: Seq<char>)
    requires
        keep_param(p),
    ensures
        !is_server_pair(p),
{
    if is_server_pair(p) {
        lemma_first_index(p, '=');
        let k = first_index(p, '=');
        assert(k >= 0);
        assert(p.take(k) == server_word());
        assert(k == 6);
        assert(p.subrange(0, 7) =~= server_eq_word());
    }
}

/// No server is selected by pieces that are all forwarded.
proof fn lemma_kept_select_nothing(ps: Seq<Seq<char>>)
    requires
        forall|k: int| 0 <= k < ps.len() ==> keep_param(#[trigger] ps[k]),
    ensures
        first_server_value(ps) is None,
    decreases ps.len(),
{
    if ps.len() > 0 {
        assert forall|k: int| 0 <= k < ps.drop_last().len() implies keep_param(
            #[trigger] ps.drop_last()[k],
        ) by {
            assert(ps.drop_last()[k] == ps[k]);
        }
        lemma_kept_select_nothing(ps.drop_last());
        lemma_kept_pair_not_server(ps.last());
    }
}

/// The routing parameter is consumed: the path forwarded upstream selects
/// no server any more.
pub proof fn stripped_query_selects_no_server(s: Seq<char>)
    ensures
        first_index(stripped_query(s), '?') >= 0 ==> server_query_value(
            stripped_query(s).skip(first_index(stripped_query(s), '?') + 1),
        ) is None,
{
    let k = first_index(s, '?');
    if k >= 0 {
        lemma_first_index(s, '?');
        lemma_no_char_before_first(s, '?');
        let path = s.take(k);
        let ps = split_on(s.skip(k + 1), '&');
        lemma_split_on_len(s.skip(k + 1), '&');
        lemma_kept_props(ps);
        let kept = kept_params(ps);
        if kept.len() == 0 {
            lemma_first_index_none(path, '?');
        } else {
            let r = path + seq!['?'] + join_amp(kept);
            lemma_first_index_concat(path, join_amp(kept), '?');
            assert(r.skip(path.len() as int + 1) =~= join_amp(kept));
            lemma_split_join(kept);
            lemma_kept_select_nothing(kept);
        }
    } else {
        lemma_first_index(s, '?');
    }
}

/// Removing the routing parameter a second time changes nothing.
pub proof fn strip_server_query_idempotent(s: Seq<char>)
    ensures
        stripped_query(stripped_query(s)) == stripped_query(s),
{
    let k = first_index(s, '?');
    if k >= 0 {
        lemma_first_index(s, '?');
        lemma_no_char_before_first(s, '?');
        let path = s.take(k);
        let ps = split_on(s.skip(k + 1), '&');
        lemma_split_on_len(s.skip(k + 1), '&');
        lemma_kept_props(ps);
        let kept = kept_params(ps);
        if kept.len() == 0 {
            lemma_first_index_none(path, '?');
        } else {
            let r = path + seq!['?'] + join_amp(kept);
            lemma_first_index_concat(path, join_amp(kept), '?');
            assert(r.skip(path.len() as int + 1) =~= join_amp(kept));
            assert(r.take(path.len() as int) =~= path);
            lemma_split_join(kept);
            lemma_kept_all(kept);
        }
    }
}

// ---------------------------------------------------------------------------
// Hop-by-hop headers
// ---------------------------------------------------------------------------

/// Headers that the proxy never forwards: hop-by-hop headers, `host`,
/// `content-length`, and the `x-nexus-server` routing header.
pub open spec fn hop_by_hop_names() -> Seq<Seq<char>> {
    seq![
        "connection"@,
        "keep-alive"@,
        "proxy-authenticate"@,
        "proxy-authorization"@,
        "te"@,
        "trailers"@,
        "transfer-encoding"@,
        "upgrade"@,
        "host"@,
        "content-length"@,
        "x-nexus-server"@,
    ]
}

/// `name` is, ignoring ASCII case, one of the headers that are not
/// forwarded.
pub open spec fn is_hop_by_hop_name(name: Seq<char>) -> bool {
    exists|k: int|
        0 <= k < hop_by_hop_names().len() && eq_ignore_ascii_case(
            #[trigger] hop_by_hop_names()[k],
            name,
        )
}

/// The proxy forwards every header except, in any ASCII case, these:
/// `connection`, `keep-alive`, `proxy-authenticate`, `proxy-authorization`,
/// `te`, `trailers`, `transfer-encoding`, `upgrade`, `host`,
/// `content-length` and `x-nexus-server`.
pub proof fn unforwarded_headers_are_exactly(name: Seq<char>)
    ensures
        is_hop_by_hop_name(name) <==> (eq_ignore_ascii_case("connection"@, name)
            || eq_ignore_ascii_case("keep-alive"@, name)
            || eq_ignore_ascii_case("proxy-authenticate"@, name)
            || eq_ignore_ascii_case("proxy-authorization"@, name)
            || eq_ignore_ascii_case("te"@, name)
            || eq_ignore_ascii_case("trailers"@, name)
            || eq_ignore_ascii_case("transfer-encoding"@, name)
            || eq_ignore_ascii_case("upgrade"@, name)
            || eq_ignore_ascii_case("host"@, name)
            || eq_ignore_ascii_case("content-length"@, name)
            || eq_ignore_ascii_case("x-nexus-server"@, name)),
{
    if eq_ignore_ascii_case("connection"@, name) {
        assert(hop_by_hop_names()[0] == "connection"@);
    }
    if eq_ignore_ascii_case("keep-alive"@, name) {
        assert(hop_by_hop_names()[1] == "keep-alive"@);
    }
    if eq_ignore_ascii_case("proxy-authenticate"@, name) {
        assert(hop_by_hop_names()[2] == "proxy-authenticate"@);
    }
    if eq_ignore_ascii_case("proxy-authorization"@, name) {
        assert(hop_by_hop_names()[3] == "proxy-authorization"@);
    }
    if eq_ignore_ascii_case("te"@, name) {
        assert(hop_by_hop_names()[4] == "te"@);
    }
    if eq_ignore_ascii_case("trailers"@, name) {
        assert(hop_by_hop_names()[5] == "trailers"@);
    }
    if eq_ignore_ascii_case("transfer-encoding"@, name) {
        assert(hop_by_hop_names()[6] == "transfer-encoding"@);
    }
    if eq_ignore_ascii_case("upgrade"@, name) {
        assert(hop_by_hop_names()[7] == "upgrade"@);
    }
    if eq_ignore_ascii_case("host"@, name) {
        assert(hop_by_hop_names()[8] == "host"@);
    }
    if eq_ignore_ascii_case("content-length"@, name) {
        assert(hop_by_hop_names()[9] == "content-length"@);
    }
    if eq_ignore_ascii_case("x-nexus-server"@, name) {
        assert(hop_by_hop_names()[10] == "x-nexus-server"@);
    }
    if is_hop_by_hop_name(name) {
        let k = choose|k: int|
            0 <= k < hop_by_hop_names().len() && eq_ignore_ascii_case(
                #[trigger] hop_by_hop_names()[k],
                name,
            );
        assert(hop_by_hop_names()[0] == "connection"@);
        assert(hop_by_hop_names()[1] == "keep-alive"@);
        assert(hop_by_hop_names()[2] == "proxy-authenticate"@);
        assert(hop_by_hop_names()[3] == "proxy-authorization"@);
        assert(hop_by_hop_names()[4] == "te"@);
        assert(hop_by_hop_names()[5] == "trailers"@);
        assert(hop_by_hop_names()[6] == "transfer-encoding"@);
        assert(hop_by_hop_names()[7] == "upgrade"@);
        assert(hop_by_hop_names()[8] == "host"@);
        assert(hop_by_hop_names()[9] == "content-length"@);
        assert(hop_by_hop_names()[10] == "x-nexus-server"@);
    }
}

/// Whether the header `name` is one that the proxy does not forward.
pub fn is_hop_by_hop(name: &str) -> (r: bool)
    ensures
        r == is_hop_by_hop_name(name@),
{
    let names: [&str; 11] = [
        "connection",
        "keep-alive",
        "proxy-authenticate",
        "proxy-authorization",
        "te",
        "trailers",
        "transfer-encoding",
        "upgrade",
        "host",
        "content-length",
        "x-nexus-server",
    ];
    let n = chars_of(name);
    let mut k: usize = 0;
    while k < 11
        invariant
            k <= 11,
            forall|j: int| 0 <= j < 11 ==> (#[trigger] names@[j])@ == hop_by_hop_names()[j],
            forall|j: int| 0 <= j < k ==> !eq_ignore_ascii_case(#[trigger] hop_by_hop_names()[j], n@),
            n@ == name@,
        decreases 11 - k,
    {
        let h = chars_of(names[k]);
        if eq_ignore_ascii_case_chars(h.as_slice(), n.as_slice()) {
            return true;
        }
        k = k + 1;
    }
    false
}

/// The headers of `src` that the proxy forwards, in their order.
pub fn filter_request_headers<V>(src: Vec<(String, V)>) -> (r: Vec<(String, V)>)
    ensures
        r@ == src@.filter(|h: (String, V)| !is_hop_by_hop_name(h.0@)),
{
    let ghost keep = |h: (String, V)| !is_hop_by_hop_name(h.0@);
    let ghost orig = src@;
    let mut out: Vec<(String, V)> = Vec::new();
    let mut rest = src;
    let ghost n = orig.len();
    while rest.len() > 0
        invariant
            n == orig.len(),
            keep == (|h: (String, V)| !is_hop_by_hop_name(h.0@)),
            rest@.len() <= n,
            rest@ == orig.subrange(n - rest@.len(), n as int),
            out@ == orig.take(n - rest@.len()).filter(keep),
        decreases rest.len(),
    {
        let ghost i = n - rest@.len();
        let h = rest.remove(0);
        proof {
            assert(h == orig[i]);
            assert(rest@ =~= orig.subrange(i + 1, n as int));
            assert(orig.take(i + 1).drop_last() =~= orig.take(i));
            assert(orig.take(i + 1).last() == orig[i]);
            reveal_with_fuel(Seq::filter, 1);
            assert(orig.take(i + 1).filter(keep) == if keep(orig[i]) {
                orig.take(i).filter(keep).push(orig[i])
            } else {
                orig.take(i).filter(keep)
            });
        }
        let forward = !is_hop_by_hop(h.0.as_str());
        assert(forward == !is_hop_by_hop_name(h.0@));
        assert(keep(h) == !is_hop_by_hop_name(h.0@));
        if forward {
            out.push(h);
        }
    }
    assert(orig.take(n as int) =~= orig);
    out
}


// ---------------------------------------------------------------------------
// Query pieces
// ---------------------------------------------------------------------------

pub open spec fn pieces_view(v: Seq<Vec<char>>) -> Seq<Seq<char>> {
    v.map_values(|x: Vec<char>| x@)
}

/// The `&`-separated pieces of the query `q` (`q.split('&')`).
pub fn split_query(q: &[char]) -> (r: Vec<Vec<char>>)
    ensures
        pieces_view(r@) == split_on(q@, '&'),
{
    let n = q.len();
    let mut done: Vec<Vec<char>> = Vec::new();
    let mut cur: Vec<char> = Vec::new();
    let mut i: usize = 0;
    proof {
        assert(q@.take(0) =~= Seq::<char>::empty());
        assert(pieces_view(done@) =~= split_on(q@.take(0), '&').drop_last());
    }
    while i < n
        invariant
            i <= n == q.len(),
            split_on(q@.take(i as int), '&').len() >= 1,
            cur@ == split_on(q@.take(i as int), '&').last(),
            pieces_view(done@) == split_on(q@.take(i as int), '&').drop_last(),
        decreases n - i,
    {
        proof {
            lemma_split_step(q@, i as int, '&');
            lemma_split_on_len(q@.take(i as int), '&');
        }
        let ghost ps = split_on(q@.take(i as int), '&');
        if q[i] == '&' {
            let mut piece: Vec<char> = Vec::new();
            std::mem::swap(&mut piece, &mut cur);
            let ghost d0 = done@;
            done.push(piece);
            proof {
                let ps2 = split_on(q@.take(i + 1), '&');
                assert(ps2 == ps.push(Seq::empty()));
                assert(pieces_view(done@) =~= pieces_view(d0).push(ps.last()));
                assert(ps.drop_last().push(ps.last()) =~= ps);
                assert(ps2.drop_last() =~= ps);
                assert(cur@ =~= ps2.last());
            }
        } else {
            cur.push(q[i]);
            proof {
                let ps2 = split_on(q@.take(i + 1), '&');
                assert(ps2.drop_last() =~= ps.drop_last());
            }
        }
        i = i + 1;
    }
    proof {
        assert(q@.take(n as int) =~= q@);
        lemma_split_on_len(q@, '&');
    }
    let ghost d0 = done@;
    done.push(cur);
    proof {
        let ps = split_on(q@, '&');
        assert(pieces_view(done@) =~= pieces_view(d0).push(ps.last()));
        assert(ps.drop_last().push(ps.last()) =~= ps);
    }
    done
}

} // verus!
