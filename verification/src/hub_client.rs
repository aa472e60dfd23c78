//! A server node's side of management forwarding: a request forwarded by
//! the hub is replayed against the node's localhost-only management API,
//! and the outcome goes back to the hub as a reply.

use vstd::prelude::*;
use crate::codec::base64_standard_encoding;
use crate::text::{chars_of, decimal, eq_ignore_ascii_case, eq_ignore_ascii_case_chars, extend_chars, push_decimal, string_from};

verus! {

/// `http://127.0.0.1:<api_port><path>`: the local API address of a
/// forwarded request.
pub fn local_mgmt_url(api_port: u16, path: &str) -> (r: String)
    ensures
        r@ == "http://127.0.0.1:"@ + decimal(api_port as nat) + path@,
{
    let mut v = chars_of("http://127.0.0.1:");
    push_decimal(&mut v, api_port as u64);
    let p = chars_of(path);
    extend_chars(&mut v, p.as_slice());
    string_from(v.as_slice())
}

/// A forwarded header that is not replayed: `host` and `content-length`
/// (ignoring ASCII case) belong to the connection the request came in on.
pub open spec fn connection_header(name: Seq<char>) -> bool {
    eq_ignore_ascii_case(name, "host"@) || eq_ignore_ascii_case(name, "content-length"@)
}

/// The forwarded headers that are replayed, in order.
pub fn local_mgmt_headers(headers: Vec<(String, String)>) -> (r: Vec<(String, String)>)
    ensures
        r@ == headers@.filter(|h: (String, String)| !connection_header(h.0@)),
        r@ == replayed_headers(headers@),
{
    let ghost keep = |h: (String, String)| !connection_header(h.0@);
    let ghost orig = headers@;
    let ghost n = orig.len();
    let host = chars_of("host");
    let clen = chars_of("content-length");
    let mut out: Vec<(String, String)> = Vec::new();
    let mut rest = headers;
    while rest.len() > 0
        invariant
            n == orig.len(),
            keep == (|h: (String, String)| !connection_header(h.0@)),
            host@ == "host"@,
            clen@ == "content-length"@,
            rest@.len() <= n,
            rest@ == orig.subrange(n - rest@.len(), n as int),
            out@ == orig.take(n - rest@.len()).filter(keep),
        decreases rest.len(),
    {
        let ghost i = n - rest@.len();
        let h = rest.remove(0);
        proof {
            assert(h == orig[i]);
            assert(rest@ =~= orig.subrange(i + 1, n as int));
            assert(orig.take(i + 1).drop_last() =~= orig.take(i));
            assert(orig.take(i + 1).last() == orig[i]);
            reveal_with_fuel(Seq::filter, 1);
        }
        let name = chars_of(h.0.as_str());
        let skip = eq_ignore_ascii_case_chars(name.as_slice(), host.as_slice())
            || eq_ignore_ascii_case_chars(name.as_slice(), clen.as_slice());
        if !skip {
            out.push(h);
        }
    }
    assert(orig.take(n as int) =~= orig);
    out
}

/// The headers a replayed call carries: the forwarded ones that are not
/// connection headers, in order.
pub open spec fn replayed_headers(headers: Seq<(String, String)>) -> Seq<(String, String)> {
    headers.filter(|h: (String, String)| !connection_header(h.0@))
}

/// Replaying a forwarded call passes on every header whose name is neither
/// `host` nor `content-length` (in any ASCII case), credentials included,
/// and no other header.
pub proof fn replay_keeps_all_but_host_and_length(headers: Seq<(String, String)>)
    ensures
        forall|i: int|
            0 <= i < headers.len() && !eq_ignore_ascii_case(headers[i].0@, "host"@)
                && !eq_ignore_ascii_case(headers[i].0@, "content-length"@) ==> #[trigger] replayed_headers(
                headers,
            ).contains(headers[i]),
        forall|h: (String, String)|
            #[trigger] replayed_headers(headers).contains(h) ==> headers.contains(h)
                && !eq_ignore_ascii_case(h.0@, "host"@) && !eq_ignore_ascii_case(h.0@, "content-length"@),
{
    let keep = |h: (String, String)| !connection_header(h.0@);
    assert(replayed_headers(headers) == headers.filter(keep));
    assert forall|i: int|
        0 <= i < headers.len() && !eq_ignore_ascii_case(headers[i].0@, "host"@)
            && !eq_ignore_ascii_case(headers[i].0@, "content-length"@) implies #[trigger] replayed_headers(
        headers,
    ).contains(headers[i]) by {
        headers.lemma_filter_contains(keep, i);
    }
    assert forall|h: (String, String)| #[trigger] replayed_headers(headers).contains(h) implies headers.contains(
        h,
    ) && !eq_ignore_ascii_case(h.0@, "host"@) && !eq_ignore_ascii_case(h.0@, "content-length"@) by {
        headers.lemma_filter_contains_rev(keep, h);
        let j = choose|j: int| 0 <= j < headers.filter(keep).len() && headers.filter(keep)[j] == h;
        headers.lemma_filter_pred(keep, j);
    }
}

/// The reply to a forwarded management request.
pub struct MgmtForwardResult {
    pub request_id: String,
    pub status: u16,
    pub headers: Vec<(String, String)>,
    pub body_b64: Option<String>,
    pub error: Option<String>,
}

/// The reply for the outcome of replaying request `request_id`: the local
/// API's status, headers and base64 body; or status 502 with the error
/// text when the replay failed.
pub fn mgmt_reply(request_id: String, outcome: Result<(u16, Vec<(String, String)>, Vec<u8>), String>) -> (r: MgmtForwardResult)
    requires
        outcome matches Ok((_, _, body)) ==> body@.len() <= usize::MAX / 2,
    ensures
        r.request_id == request_id,
        match outcome {
            Ok((status, headers, body)) => {
                &&& r.status == status
                &&& r.headers == headers
                &&& r.body_b64 is Some
                &&& r.body_b64->0@ == base64_standard_encoding(body@)
                &&& r.error is None
            },
            Err(e) => {
                &&& r.status == 502
                &&& r.headers@.len() == 0
                &&& r.body_b64 is None
                &&& r.error == Some(e)
            },
        },
{
    match outcome {
        Ok((status, headers, body)) => MgmtForwardResult {
            request_id,
            status,
            headers,
            body_b64: crate::codec::request_body_b64(Some(body)),
            error: None,
        },
        Err(e) => MgmtForwardResult {
            request_id,
            status: 502,
            headers: Vec::new(),
            body_b64: None,
            error: Some(e),
        },
    }
}

} // verus!
