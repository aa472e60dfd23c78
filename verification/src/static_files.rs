//! Which embedded file of the panel's single-page app answers a request.

use vstd::prelude::*;
use crate::text::{chars_of, extend_chars, slice_vec, string_from, trim_end_char, trim_end_char_chars};

verus! {

/// `s` without any leading copies of `c`.
pub open spec fn trim_start_char(s: Seq<char>, c: char) -> Seq<char>
    decreases s.len(),
{
    if s.len() > 0 && s[0] == c {
        trim_start_char(s.drop_first(), c)
    } else {
        s
    }
}

pub open spec fn index_html() -> Seq<char> {
    "index.html"@
}

/// The asset path of a request path: without leading slashes, and
/// `index.html` for the root.
pub open spec fn asset_path(path: Seq<char>) -> Seq<char> {
    let p = trim_start_char(path, '/');
    if p.len() == 0 {
        index_html()
    } else {
        p
    }
}

proof fn lemma_trim_start_char_skip(s: Seq<char>, c: char, i: int)
    requires
        0 <= i <= s.len(),
        forall|j: int| 0 <= j < i ==> s[j] == c,
    ensures
        trim_start_char(s, c) == trim_start_char(s.skip(i), c),
    decreases i,
{
    if i > 0 {
        assert(s.drop_first().skip(i - 1) =~= s.skip(i));
        lemma_trim_start_char_skip(s.drop_first(), c, i - 1);
    } else {
        assert(s.skip(0) =~= s);
    }
}

/// The asset path of the request path `path`.
pub fn normalize_path(path: &str) -> (r: String)
    ensures
        r@ == asset_path(path@),
{
    let cs = chars_of(path);
    let mut i: usize = 0;
    while i < cs.len() && cs[i] == '/'
        invariant
            i <= cs.len(),
            forall|j: int| 0 <= j < i ==> cs@[j] == '/',
        decreases cs.len() - i,
    {
        i = i + 1;
    }
    proof {
        lemma_trim_start_char_skip(cs@, '/', i as int);
        if i < cs.len() {
            assert(cs@.skip(i as int)[0] == cs@[i as int]);
        }
        assert(trim_start_char(cs@.skip(i as int), '/') == cs@.skip(i as int));
    }
    if i == cs.len() {
        "index.html".to_owned()
    } else {
        let rest = slice_vec(cs.as_slice(), i, cs.len());
        assert(rest@ =~= cs@.skip(i as int));
        string_from(rest.as_slice())
    }
}

/// The assets tried for a request, in order: the asset itself, the
/// directory's `index.html`, and the app's `index.html` (client routing).
pub open spec fn spa_lookups(path: Seq<char>) -> Seq<Seq<char>> {
    let p = asset_path(path);
    seq![p, trim_end_char(p, '/') + "/index.html"@, index_html()]
}

/// The embedded files to try for request path `path`, in order.
pub fn spa_candidates(path: &str) -> (r: Vec<String>)
    ensures
        r@.len() == 3,
        r@[0]@ == spa_lookups(path@)[0],
        r@[1]@ == spa_lookups(path@)[1],
        r@[2]@ == spa_lookups(path@)[2],
{
    let p = normalize_path(path);
    let cs = chars_of(p.as_str());
    let mut dir = trim_end_char_chars(cs.as_slice(), '/');
    let tail = chars_of("/index.html");
    extend_chars(&mut dir, tail.as_slice());
    let mut r: Vec<String> = Vec::new();
    r.push(p);
    r.push(string_from(dir.as_slice()));
    r.push("index.html".to_owned());
    r
}

/// What `mime_guess` takes for the content type of `path` (by its
/// extension, `application/octet-stream` when it knows none), as the text of
/// the type's essence.
pub uninterp spec fn mime_essence(path: Seq<char>) -> Seq<char>;

/// Calls `mime_guess::from_path(path).first_or_octet_stream()` and gives
/// the type's essence text. The result is named `mime_essence`: it depends on
/// the path's extension and the crate's fixed table alone.
#[verifier::external_body]
fn guess_mime(path: &str) -> (r: String)
    ensures
        r@ == mime_essence(path@),
{
    mime_guess::from_path(path).first_or_octet_stream().essence_str().to_owned()
}

/// The content type an embedded file is served with.
pub fn content_type(path: &str) -> (r: String)
    ensures
        r@ == mime_essence(path@),
{
    guess_mime(path)
}

} // verus!
