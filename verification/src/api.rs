//! The server node's management API: its request and reply records, its
//! error replies, where a request's access token comes from, and the small
//! rules of its handlers (node status, service ports, defaults of new
//! nodes, services, routes and users).

use vstd::prelude::*;
use crate::codec::{is_uuid_text, new_uuid_text};
use crate::proxy::{pieces_view, split_on, split_query};
use crate::text::{
    after_last, after_last_chars, chars_of, has_prefix, parse_u16, parse_u16_chars, slice_vec,
    starts_with_chars, string_from,
};

verus! {

// ---------------------------------------------------------------------------
// Errors
// ---------------------------------------------------------------------------

/// An error reply: HTTP status and message.
pub struct AppError {
    status: u16,
    message: String,
}

impl AppError {
    pub closed spec fn status_view(&self) -> u16 {
        self.status
    }

    pub closed spec fn message_view(&self) -> Seq<char> {
        self.message@
    }

    /// 401: the caller is not authenticated.
    pub fn unauthorized(msg: &str) -> (r: Self)
        ensures
            r.status_view() == 401,
            r.message_view() == msg@,
    {
        AppError { status: 401, message: msg.to_owned() }
    }

    /// 400: the request is malformed.
    pub fn bad_request(msg: &str) -> (r: Self)
        ensures
            r.status_view() == 400,
            r.message_view() == msg@,
    {
        AppError { status: 400, message: msg.to_owned() }
    }

    /// 404: the thing asked for does not exist.
    pub fn not_found(msg: &str) -> (r: Self)
        ensures
            r.status_view() == 404,
            r.message_view() == msg@,
    {
        AppError { status: 404, message: msg.to_owned() }
    }

    /// 500: something failed inside the server; `err` is its description.
    pub fn internal(err: String) -> (r: Self)
        ensures
            r.status_view() == 500,
            r.message_view() == err@,
    {
        AppError { status: 500, message: err }
    }

    pub fn status(&self) -> (r: u16)
        ensures
            r == self.status_view(),
    {
        self.status
    }

    pub fn message(&self) -> (r: &str)
        ensures
            r@ == self.message_view(),
    {
        self.message.as_str()
    }
}

// ---------------------------------------------------------------------------
// Access tokens
// ---------------------------------------------------------------------------

pub open spec fn bearer_word() -> Seq<char> {
    "Bearer "@
}

pub open spec fn token_eq_word() -> Seq<char> {
    "token="@
}

pub open spec fn ws_prefix() -> Seq<char> {
    "/ws/"@
}

/// The token of an `Authorization: Bearer <token>` header value.
pub open spec fn bearer_token(v: Seq<char>) -> Option<Seq<char>> {
    if has_prefix(v, bearer_word()) {
        Some(v.skip(bearer_word().len() as int))
    } else {
        None
    }
}

/// The token of the first `token=` pair among `ps`.
pub open spec fn first_token_param(ps: Seq<Seq<char>>) -> Option<Seq<char>>
    decreases ps.len(),
{
    if ps.len() == 0 {
        None
    } else {
        match first_token_param(ps.drop_last()) {
            Some(t) => Some(t),
            None => if has_prefix(ps.last(), token_eq_word()) {
                Some(ps.last().skip(token_eq_word().len() as int))
            } else {
                None
            },
        }
    }
}

/// Where the token of a request comes from.
pub enum TokenSource {
    /// An `Authorization: Bearer` header.
    Header(String),
    /// A `token=` query pair of a WebSocket path (browsers cannot set
    /// headers on WebSocket upgrades).
    Query(String),
    /// No token at all.
    Missing,
}

/// The token of an `Authorization` header value, when it is a bearer token.
pub fn extract_token(authorization: Option<&str>) -> (r: Option<String>)
    ensures
        match authorization {
            None => r is None,
            Some(v) => match bearer_token(v@) {
                Some(t) => r is Some && r->0@ == t,
                None => r is None,
            },
        },
{
    match authorization {
        None => None,
        Some(v) => {
            let cs = chars_of(v);
            let word = chars_of("Bearer ");
            if starts_with_chars(cs.as_slice(), word.as_slice()) {
                let rest = slice_vec(cs.as_slice(), word.len(), cs.len());
                assert(rest@ =~= v@.skip(bearer_word().len() as int));
                Some(string_from(rest.as_slice()))
            } else {
                None
            }
        },
    }
}

/// The first `token=` pair of the query `q`.
fn token_from_query(q: &str) -> (r: Option<String>)
    ensures
        match first_token_param(split_on(q@, '&')) {
            Some(t) => r is Some && r->0@ == t,
            None => r is None,
        },
{
    let cs = chars_of(q);
    let pieces = split_query(cs.as_slice());
    let word = chars_of("token=");
    let mut i: usize = 0;
    while i < pieces.len()
        invariant
            i <= pieces.len(),
            word@ == token_eq_word(),
            pieces_view(pieces@) == split_on(q@, '&'),
            first_token_param(pieces_view(pieces@).take(i as int)) is None,
        decreases pieces.len() - i,
    {
        let p = &pieces[i];
        proof {
            let ps = pieces_view(pieces@);
            assert(ps.take(i + 1).drop_last() =~= ps.take(i as int));
            assert(ps.take(i + 1).last() == p@);
        }
        if starts_with_chars(p.as_slice(), word.as_slice()) {
            let rest = slice_vec(p.as_slice(), word.len(), p.len());
            proof {
                let ps = pieces_view(pieces@);
                assert(rest@ =~= p@.skip(token_eq_word().len() as int));
                lemma_first_token_prefix(ps, i + 1);
            }
            return Some(string_from(rest.as_slice()));
        }
        i = i + 1;
    }
    assert(pieces_view(pieces@).take(i as int) =~= pieces_view(pieces@));
    None
}

/// A token found in a prefix is the first token of the whole.
proof fn lemma_first_token_prefix(ps: Seq<Seq<char>>, k: int)
    requires
        0 <= k <= ps.len(),
        first_token_param(ps.take(k)) is Some,
    ensures
        first_token_param(ps) == first_token_param(ps.take(k)),
    decreases ps.len() - k,
{
    if k < ps.len() {
        assert(ps.take(k + 1).drop_last() =~= ps.take(k));
        lemma_first_token_prefix(ps, k + 1);
    } else {
        assert(ps.take(k) =~= ps);
    }
}

/// Where a request's token comes from: the bearer header when there is
/// one; else, for `/ws/` paths, the first `token=` pair of the query.
pub fn select_token(path: &str, authorization: Option<&str>, query: Option<&str>) -> (r: TokenSource)
    ensures
        match (if authorization is Some {
            bearer_token(authorization->0@)
        } else {
            None
        }) {
            Some(t) => r matches TokenSource::Header(h) && h@ == t,
            None => if has_prefix(path@, ws_prefix()) && query is Some && first_token_param(
                split_on(query->0@, '&'),
            ) is Some {
                r matches TokenSource::Query(q) && q@ == first_token_param(
                    split_on(query->0@, '&'),
                )->0
            } else {
                r is Missing
            },
        },
{
    if let Some(t) = extract_token(authorization) {
        return TokenSource::Header(t);
    }
    let p = chars_of(path);
    let ws = chars_of("/ws/");
    if starts_with_chars(p.as_slice(), ws.as_slice()) {
        if let Some(q) = query {
            if let Some(t) = token_from_query(q) {
                return TokenSource::Query(t);
            }
        }
    }
    TokenSource::Missing
}

// ---------------------------------------------------------------------------
// Handler rules
// ---------------------------------------------------------------------------

/// The status a node is listed with.
pub open spec fn node_status_text(enabled: i64, online: bool) -> Seq<char> {
    if enabled != 1 {
        "disabled"@
    } else if online {
        "online"@
    } else {
        "offline"@
    }
}

/// A node is `disabled` unless its flag is 1; else `online` when connected
/// and `offline` when not.
pub fn node_status(enabled: i64, online: bool) -> (r: String)
    ensures
        r@ == node_status_text(enabled, online),
{
    if enabled != 1 {
        "disabled".to_owned()
    } else if online {
        "online".to_owned()
    } else {
        "offline".to_owned()
    }
}

/// The port of a service's local address: the number after its last `:`,
/// or 0 when that is not a port number.
pub fn local_port_of(local_addr: &str) -> (r: u16)
    ensures
        r == match parse_u16(after_last(local_addr@, ':')) {
            Some(p) => p,
            None => 0u16,
        },
{
    let cs = chars_of(local_addr);
    let tail = after_last_chars(cs.as_slice(), ':');
    match parse_u16_chars(tail.as_slice()) {
        Some(p) => p,
        None => 0,
    }
}

/// The stored flag of an optional `enabled`: 1 unless it is `false`.
pub fn enabled_flag(enabled: Option<bool>) -> (r: i64)
    ensures
        r == if enabled == Some(false) {
            0i64
        } else {
            1i64
        },
{
    match enabled {
        Some(false) => 0,
        _ => 1,
    }
}

// ---------------------------------------------------------------------------
// Records
// ---------------------------------------------------------------------------

pub struct LoginReq {
    pub username: String,
    pub password: String,
}

pub struct UserDto {
    pub user_id: String,
    pub username: String,
    pub role: String,
    pub enabled: bool,
    pub email: Option<String>,
    pub last_login: Option<String>,
    pub created_at: Option<String>,
}

pub struct LoginResp {
    pub token: String,
    pub user: UserDto,
    pub expires_at: Option<String>,
}

/// The authenticated caller of a request.
pub struct AuthUser {
    pub user_id: String,
    pub role: String,
}

/// A node as stored.
pub struct NodeRecord {
    pub node_id: String,
    pub name: String,
    pub status: String,
    pub token_hash: String,
    pub public_ip: Option<String>,
    pub nat_type: Option<String>,
    pub version: String,
    pub enabled: bool,
    pub created_at: String,
}

pub struct CreateNodeReq {
    pub name: String,
    pub node_id: Option<String>,
}

/// `edge-` followed by the first eight characters of `uuid`.
pub open spec fn generated_node_id(uuid: Seq<char>) -> Seq<char> {
    "edge-"@ + uuid.take(8)
}

impl CreateNodeReq {
    /// The id of the new node: the one asked for, else `edge-` and eight
    /// random hex digits.
    pub fn node_id_or_new(&self) -> (r: String)
        ensures
            match self.node_id {
                Some(id) => r@ == id@,
                None => exists|u: Seq<char>| is_uuid_text(u) && r@ == generated_node_id(u),
            },
    {
        match &self.node_id {
            Some(id) => id.clone(),
            None => {
                let u = new_uuid_text();
                let cs = chars_of(u.as_str());
                let head = slice_vec(cs.as_slice(), 0, 8);
                let mut out = chars_of("edge-");
                crate::text::extend_chars(&mut out, head.as_slice());
                assert(out@ =~= generated_node_id(u@));
                string_from(out.as_slice())
            },
        }
    }
}

pub struct UpdateNodeReq {
    pub name: Option<String>,
    pub enabled: Option<bool>,
}

pub struct ServiceReq {
    pub name: String,
    pub node_id: String,
    pub protocol: String,
    pub local_addr: String,
    pub enabled: Option<bool>,
    pub description: Option<String>,
    pub service_id: Option<String>,
}

impl ServiceReq {
    /// The id of the new service: the one asked for, else a random UUID.
    pub fn id_or_new(&self) -> (r: String)
        ensures
            match self.service_id {
                Some(id) => r@ == id@,
                None => is_uuid_text(r@),
            },
    {
        match &self.service_id {
            Some(id) => id.clone(),
            None => new_uuid_text(),
        }
    }
}

pub struct RouteReq {
    pub name: String,
    pub public_port: u16,
    pub protocol: String,
    pub node_id: String,
    pub service_id: String,
    pub enabled: Option<bool>,
    pub description: Option<String>,
    pub route_id: Option<String>,
}

impl RouteReq {
    /// The id of the new route: the one asked for, else a random UUID.
    pub fn id_or_new(&self) -> (r: String)
        ensures
            match self.route_id {
                Some(id) => r@ == id@,
                None => is_uuid_text(r@),
            },
    {
        match &self.route_id {
            Some(id) => id.clone(),
            None => new_uuid_text(),
        }
    }
}

pub struct UserReq {
    pub username: String,
    pub password: Option<String>,
    pub role: Option<String>,
    pub enabled: Option<bool>,
    pub email: Option<String>,
}

impl UserReq {
    /// The password of a new user: the one given, else `changeme`.
    pub fn password_or_default(&self) -> (r: String)
        ensures
            r@ == match self.password {
                Some(p) => p@,
                None => "changeme"@,
            },
    {
        match &self.password {
            Some(p) => p.clone(),
            None => "changeme".to_owned(),
        }
    }

    /// The role of a new user: the one given, else `viewer`.
    pub fn role_or_default(&self) -> (r: String)
        ensures
            r@ == match self.role {
                Some(p) => p@,
                None => "viewer"@,
            },
    {
        match &self.role {
            Some(p) => p.clone(),
            None => "viewer".to_owned(),
        }
    }
}

} // verus!
