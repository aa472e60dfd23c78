//! The admin panel's registry of server nodes: listing, resolving a request
//! to a server, and adding, replacing, removing and choosing the default
//! server. Every change leaves the configuration in normal form; writing it
//! to `admin.toml` is left to the caller.

use vstd::prelude::*;
use crate::admin_config::{
    entries_view, find_entry, has_entry, http_base, http_base_of, is_normal, lemma_find_entry,
    lemma_find_entry_is, normalized, normalized_is_normal, opt_str, opt_str_ref, resolve_index,
    same_outcome, ws_base, ws_base_of, AdminConfig, AdminConfigView, ConfigError, ServerEntry,
    ServerEntryView,
};
use crate::text::{trim, trim_str};

verus! {

/// Why a change to the registry was refused.
#[derive(Debug)]
pub enum RegistryError {
    /// The entry's id is blank.
    IdRequired,
    /// The entry's upstream address is blank.
    UpstreamRequired,
    /// Removing would leave no server.
    LastServer,
    /// No server has this id.
    NotFound(String),
}

impl RegistryError {
    /// The error text shown to the user.
    pub fn message(&self) -> (r: String)
        ensures
            match self {
                RegistryError::IdRequired => r@ == "server id required"@,
                RegistryError::UpstreamRequired => r@ == "api_upstream required"@,
                RegistryError::LastServer => r@ == "at least one server node is required"@,
                RegistryError::NotFound(id) => r@ == "server not found: "@ + id@,
            },
    {
        match self {
            RegistryError::IdRequired => "server id required".to_owned(),
            RegistryError::UpstreamRequired => "api_upstream required".to_owned(),
            RegistryError::LastServer => "at least one server node is required".to_owned(),
            RegistryError::NotFound(id) => {
                let mut m = "server not found: ".to_owned();
                m.append(id.as_str());
                m
            },
        }
    }
}

/// The configuration after adding `e`, or replacing the first server with
/// its id; `e` becomes the default when asked to or when there is none.
pub open spec fn upserted(c: AdminConfigView, e: ServerEntryView, make_default: bool) -> AdminConfigView {
    let k = find_entry(c.servers, e.id);
    let servers = if k >= 0 {
        c.servers.update(k, e)
    } else {
        c.servers.push(e)
    };
    let default_server = if make_default || c.default_server is None {
        Some(e.id)
    } else {
        c.default_server
    };
    normalized(AdminConfigView { servers, default_server, ..c })
}

/// The configuration after removing every server with id `id`; when the
/// default was `id`, the first remaining server becomes the default.
pub open spec fn removed(c: AdminConfigView, id: Seq<char>) -> AdminConfigView {
    let servers = c.servers.filter(|e: ServerEntryView| e.id != id);
    let default_server = if c.default_server == Some(id) {
        if servers.len() > 0 {
            Some(servers[0].id)
        } else {
            None
        }
    } else {
        c.default_server
    };
    normalized(AdminConfigView { servers, default_server, ..c })
}

/// The configuration with `id` as its default server.
pub open spec fn default_set(c: AdminConfigView, id: Seq<char>) -> AdminConfigView {
    normalized(AdminConfigView { default_server: Some(id), ..c })
}

/// The registered servers of the admin panel.
pub struct ServerRegistry {
    config: AdminConfig,
    path: String,
}

impl View for ServerRegistry {
    type V = AdminConfigView;

    closed spec fn view(&self) -> AdminConfigView {
        self.config@
    }
}

impl ServerRegistry {
    /// Where the configuration is saved.
    pub closed spec fn path_spec(&self) -> Seq<char> {
        self.path@
    }

    pub fn new(cfg: AdminConfig, path: String) -> (r: Self)
        ensures
            r@ == cfg@,
            r.path_spec() == path@,
    {
        ServerRegistry { config: cfg, path }
    }

    /// The file the configuration belongs to.
    pub fn path(&self) -> (r: &str)
        ensures
            r@ == self.path_spec(),
    {
        self.path.as_str()
    }

    /// A copy of the whole configuration.
    pub fn snapshot(&self) -> (r: AdminConfig)
        ensures
            r@ == self@,
    {
        let c = &self.config;
        let r = AdminConfig {
            listen: c.listen.clone(),
            listen_port: c.listen_port,
            api_upstream: c.api_upstream.clone(),
            default_server: c.default_server.clone(),
            servers: self.list(),
            hub_enabled: c.hub_enabled,
            hub_listen: c.hub_listen.clone(),
            hub_control_port: c.hub_control_port,
            hub_data_port: c.hub_data_port,
            hub_token: c.hub_token.clone(),
        };
        assert(r@ =~= self@);
        r
    }

    /// The registered servers, in order.
    pub fn list(&self) -> (r: Vec<ServerEntry>)
        ensures
            entries_view(r@) == self@.servers,
    {
        let mut out: Vec<ServerEntry> = Vec::new();
        let mut i: usize = 0;
        while i < self.config.servers.len()
            invariant
                i <= self.config.servers.len(),
                out@.len() == i,
                entries_view(out@) == entries_view(self.config.servers@).take(i as int),
            decreases self.config.servers.len() - i,
        {
            let e = self.config.servers[i].clone();
            assert(e@ == self.config.servers@[i as int]@);
            let ghost old_out = out@;
            out.push(e);
            proof {
                let a = entries_view(out@);
                let b = entries_view(self.config.servers@).take(i + 1);
                assert(a.len() == b.len());
                assert forall|j: int| 0 <= j < a.len() implies a[j] == b[j] by {
                    if j < i {
                        assert(a[j] == out@[j]@);
                        assert(out@[j] == old_out[j]);
                        assert(entries_view(old_out)[j] == old_out[j]@);
                    }
                }
                assert(a =~= b);
            }
            i = i + 1;
        }
        assert(entries_view(self.config.servers@).take(i as int) =~= entries_view(
            self.config.servers@,
        ));
        out
    }

    /// The id of the default server.
    pub fn default_server_id(&self) -> (r: Option<String>)
        ensures
            opt_str(r) == self@.default_server,
    {
        self.config.default_server.clone()
    }

    /// The HTTP and WebSocket base URLs of the server that `server_id`
    /// selects (see `AdminConfig::resolve_upstream`).
    pub fn resolve(&self, server_id: Option<&str>) -> (r: Result<(String, String), ConfigError>)
        ensures
            same_outcome(r, resolve_index(self@, opt_str_ref(server_id))),
            r matches Ok(p) ==> {
                let e = self@.servers[resolve_index(self@, opt_str_ref(server_id))->Ok_0];
                p.0@ == http_base_of(e.api_upstream) && p.1@ == ws_base_of(e.api_upstream)
            },
            r matches Err(ConfigError::UnknownServer(id)) ==> id@ == server_id->0@,
    {
        match self.config.resolve_upstream(server_id) {
            Ok(e) => Ok((http_base(e.api_upstream.as_str()), ws_base(e.api_upstream.as_str()))),
            Err(err) => Err(err),
        }
    }

    /// A copy of the server entry that `server_id` selects.
    pub fn resolve_entry(&self, server_id: Option<&str>) -> (r: Result<ServerEntry, ConfigError>)
        ensures
            same_outcome(r, resolve_index(self@, opt_str_ref(server_id))),
            r matches Ok(e) ==> e@ == self@.servers[resolve_index(
                self@,
                opt_str_ref(server_id),
            )->Ok_0],
            r matches Err(ConfigError::UnknownServer(id)) ==> id@ == server_id->0@,
    {
        match self.config.resolve_upstream(server_id) {
            Ok(e) => Ok(e.clone()),
            Err(err) => Err(err),
        }
    }

    /// Adds `entry`, or replaces the first server with its id, and makes it
    /// the default when `make_default` is set or no default exists.
    /// Refused when the id or the upstream is blank.
    pub fn upsert(&mut self, entry: ServerEntry, make_default: bool) -> (r: Result<
        Vec<ServerEntry>,
        RegistryError,
    >)
        ensures
            trim(entry@.id).len() == 0 ==> (r matches Err(RegistryError::IdRequired) && final(self)@ == old(self)@),
            trim(entry@.id).len() > 0 && trim(entry@.api_upstream).len() == 0 ==> (r matches Err(
                RegistryError::UpstreamRequired,
            ) && final(self)@ == old(self)@),
            trim(entry@.id).len() > 0 && trim(entry@.api_upstream).len() > 0 ==> (r matches Ok(list)
                && final(self)@ == upserted(old(self)@, entry@, make_default) && entries_view(list@)
                == final(self)@.servers),
            final(self).path_spec() == old(self).path_spec(),
    {
        let id_text = trim_str(entry.id.as_str());
        if id_text.as_str().unicode_len() == 0 {
            return Err(RegistryError::IdRequired);
        }
        let up_text = trim_str(entry.api_upstream.as_str());
        if up_text.as_str().unicode_len() == 0 {
            return Err(RegistryError::UpstreamRequired);
        }
        let ghost c = self@;
        let ghost e = entry@;
        let make = make_default || self.config.default_server.is_none();
        let new_default = if make {
            Some(entry.id.clone())
        } else {
            self.config.default_server.clone()
        };
        match self.config.find_index(entry.id.as_str()) {
            Some(k) => {
                self.config.servers.set(k, entry);
                assert(entries_view(self.config.servers@) =~= c.servers.update(k as int, e));
            },
            None => {
                self.config.servers.push(entry);
                assert(entries_view(self.config.servers@) =~= c.servers.push(e));
            },
        }
        self.config.default_server = new_default;
        self.config.normalize();
        assert(self@ =~= upserted(c, e, make_default));
        Ok(self.list())
    }

    /// Removes every server with id `id`. Refused when at most one server is
    /// registered or when none has that id.
    pub fn remove(&mut self, id: &str) -> (r: Result<Vec<ServerEntry>, RegistryError>)
        ensures
            old(self)@.servers.len() <= 1 ==> (r matches Err(RegistryError::LastServer) && final(self)@ == old(self)@),
            old(self)@.servers.len() > 1 && !has_entry(old(self)@.servers, id@) ==> (r matches Err(
                RegistryError::NotFound(missing),
            ) && missing@ == id@ && final(self)@ == old(self)@),
            old(self)@.servers.len() > 1 && has_entry(old(self)@.servers, id@) ==> (r matches Ok(list)
                && final(self)@ == removed(old(self)@, id@) && entries_view(list@) == final(self)@.servers),
            final(self).path_spec() == old(self).path_spec(),
    {
        if self.config.servers.len() <= 1 {
            return Err(RegistryError::LastServer);
        }
        if self.config.find_index(id).is_none() {
            return Err(RegistryError::NotFound(id.to_owned()));
        }
        let ghost c = self@;
        let ghost keep = |e: ServerEntryView| e.id != id@;
        let mut rest: Vec<ServerEntry> = Vec::new();
        std::mem::swap(&mut rest, &mut self.config.servers);
        let ghost orig = rest@;
        let ghost n = orig.len();
        let mut kept: Vec<ServerEntry> = Vec::new();
        assert(entries_view(orig) == c.servers);
        while rest.len() > 0
            invariant
                n == orig.len(),
                keep == (|e: ServerEntryView| e.id != id@),
                rest@.len() <= n,
                rest@ == orig.subrange(n - rest@.len(), n as int),
                entries_view(kept@) == entries_view(orig.take(n - rest@.len())).filter(keep),
            decreases rest.len(),
        {
            let ghost i = n - rest@.len();
            let e = rest.remove(0);
            proof {
                assert(e == orig[i]);
                assert(rest@ =~= orig.subrange(i + 1, n as int));
                let pre = entries_view(orig.take(i + 1));
                assert(pre.drop_last() =~= entries_view(orig.take(i)));
                assert(pre.last() == e@);
                reveal_with_fuel(Seq::filter, 1);
                assert(pre.filter(keep) == if keep(e@) {
                    entries_view(orig.take(i)).filter(keep).push(e@)
                } else {
                    entries_view(orig.take(i)).filter(keep)
                });
            }
            let same = crate::text::str_eq(e.id.as_str(), id);
            if !same {
                kept.push(e);
                assert(entries_view(kept@) =~= entries_view(orig.take(i + 1)).filter(keep));
            }
        }
        assert(orig.take(n as int) =~= orig);
        self.config.servers = kept;
        let ghost servers = self@.servers;
        assert(servers == c.servers.filter(keep));
        let was_default = match &self.config.default_server {
            Some(d) => crate::text::str_eq(d.as_str(), id),
            None => false,
        };
        if was_default {
            if self.config.servers.len() > 0 {
                assert(self@.servers[0] == self.config.servers@[0]@);
                self.config.default_server = Some(self.config.servers[0].id.clone());
            } else {
                self.config.default_server = None;
            }
        }
        self.config.normalize();
        assert(self@ =~= removed(c, id@));
        Ok(self.list())
    }

    /// Makes the server with id `id` the default. Refused when no server has
    /// that id.
    pub fn set_default(&mut self, id: &str) -> (r: Result<Vec<ServerEntry>, RegistryError>)
        ensures
            !has_entry(old(self)@.servers, id@) ==> (r matches Err(RegistryError::NotFound(missing))
                && missing@ == id@ && final(self)@ == old(self)@),
            has_entry(old(self)@.servers, id@) ==> (r matches Ok(list) && final(self)@ == default_set(
                old(self)@,
                id@,
            ) && entries_view(list@) == final(self)@.servers),
            final(self).path_spec() == old(self).path_spec(),
    {
        if self.config.find_index(id).is_none() {
            return Err(RegistryError::NotFound(id.to_owned()));
        }
        let ghost c = self@;
        self.config.default_server = Some(id.to_owned());
        self.config.normalize();
        assert(self@ =~= default_set(c, id@));
        Ok(self.list())
    }
}

// ---------------------------------------------------------------------------
// Laws
// ---------------------------------------------------------------------------

/// Every accepted change leaves the configuration in normal form: at least
/// one server and a default that names one of them.
pub proof fn registry_changes_keep_normal_form(
    c: AdminConfigView,
    e: ServerEntryView,
    make_default: bool,
    id: Seq<char>,
)
    ensures
        is_normal(upserted(c, e, make_default)),
        is_normal(removed(c, id)),
        is_normal(default_set(c, id)),
{
    let k = find_entry(c.servers, e.id);
    normalized_is_normal(
        AdminConfigView {
            servers: if k >= 0 {
                c.servers.update(k, e)
            } else {
                c.servers.push(e)
            },
            default_server: if make_default || c.default_server is None {
                Some(e.id)
            } else {
                c.default_server
            },
            ..c
        },
    );
    let servers = c.servers.filter(|x: ServerEntryView| x.id != id);
    normalized_is_normal(
        AdminConfigView {
            servers,
            default_server: if c.default_server == Some(id) {
                if servers.len() > 0 {
                    Some(servers[0].id)
                } else {
                    None
                }
            } else {
                c.default_server
            },
            ..c
        },
    );
    normalized_is_normal(AdminConfigView { default_server: Some(id), ..c });
}

/// After adding or replacing a server, asking for its id resolves to exactly
/// that entry.
pub proof fn upsert_then_resolve(c: AdminConfigView, e: ServerEntryView, make_default: bool)
    requires
        e.id.len() > 0,
    ensures
        resolve_index(upserted(c, e, make_default), Some(e.id)) matches Ok(k) && upserted(
            c,
            e,
            make_default,
        ).servers[k] == e,
{
    lemma_find_entry(c.servers, e.id);
    let k = find_entry(c.servers, e.id);
    let servers = if k >= 0 {
        c.servers.update(k, e)
    } else {
        c.servers.push(e)
    };
    let u = upserted(c, e, make_default);
    assert(u.servers == servers);
    if k >= 0 {
        assert forall|j: int| 0 <= j < k implies servers[j].id != e.id by {
            assert(servers[j] == c.servers[j]);
        }
        lemma_find_entry_is(servers, e.id, k);
    } else {
        assert forall|j: int| 0 <= j < c.servers.len() implies servers[j].id != e.id by {
            assert(servers[j] == c.servers[j]);
        }
        lemma_find_entry_is(servers, e.id, c.servers.len() as int);
    }
}

/// Asking for an entry as the default makes it the default server, which a
/// request without a server id then resolves to.
pub proof fn upsert_as_default(c: AdminConfigView, e: ServerEntryView)
    ensures
        upserted(c, e, true).default_server == Some(e.id),
        resolve_index(upserted(c, e, true), None) matches Ok(k) && upserted(c, e, true).servers[k]
            == e,
{
    lemma_find_entry(c.servers, e.id);
    let k = find_entry(c.servers, e.id);
    let servers = if k >= 0 {
        c.servers.update(k, e)
    } else {
        c.servers.push(e)
    };
    if k >= 0 {
        assert forall|j: int| 0 <= j < k implies servers[j].id != e.id by {
            assert(servers[j] == c.servers[j]);
        }
        lemma_find_entry_is(servers, e.id, k);
    } else {
        assert forall|j: int| 0 <= j < c.servers.len() implies servers[j].id != e.id by {
            assert(servers[j] == c.servers[j]);
        }
        lemma_find_entry_is(servers, e.id, c.servers.len() as int);
    }
}

/// After choosing a registered server as default, a request without a
/// server id resolves to it.
pub proof fn set_default_then_resolve(c: AdminConfigView, id: Seq<char>)
    requires
        has_entry(c.servers, id),
    ensures
        default_set(c, id).default_server == Some(id),
        resolve_index(default_set(c, id), None) matches Ok(k) && default_set(c, id).servers[k].id
            == id,
{
    lemma_find_entry(c.servers, id);
}

/// Once removed, an id no longer resolves, provided some server with
/// another id remains (otherwise the seed server may bring it back).
pub proof fn remove_then_absent(c: AdminConfigView, id: Seq<char>)
    requires
        exists|j: int| 0 <= j < c.servers.len() && c.servers[j].id != id,
    ensures
        !has_entry(removed(c, id).servers, id),
        id.len() > 0 ==> resolve_index(removed(c, id), Some(id)) matches Err(
            ConfigError::UnknownServer(_),
        ),
{
    let keep = |e: ServerEntryView| e.id != id;
    let servers = c.servers.filter(keep);
    let j = choose|j: int| 0 <= j < c.servers.len() && c.servers[j].id != id;
    broadcast use vstd::seq_lib::group_filter_ensures;

    assert(servers.contains(c.servers[j]));
    assert(removed(c, id).servers == servers);
    lemma_find_entry(servers, id);
    if has_entry(servers, id) {
        let k = find_entry(servers, id);
        assert(keep(servers[k]));
    }
}

/// The servers with another id than `id` keep their order: when the first
/// `k` servers have id `id` and server `k` has not, server `k` comes first.
proof fn lemma_first_kept(s: Seq<ServerEntryView>, id: Seq<char>, k: int)
    requires
        0 <= k < s.len(),
        s[k].id != id,
        forall|j: int| 0 <= j < k ==> s[j].id == id,
    ensures
        s.filter(|e: ServerEntryView| e.id != id).len() > 0,
        s.filter(|e: ServerEntryView| e.id != id)[0] == s[k],
{
    let keep = |e: ServerEntryView| e.id != id;
    let a = s.take(k);
    let b = seq![s[k]];
    let rest = s.skip(k + 1);
    assert(s =~= a + (b + rest));
    Seq::filter_distributes_over_add(a, b + rest, keep);
    Seq::filter_distributes_over_add(b, rest, keep);
    if a.filter(keep).len() > 0 {
        let x = a.filter(keep)[0];
        a.lemma_filter_pred(keep, 0);
        assert(a.filter(keep).contains(x));
        a.lemma_filter_contains_rev(keep, x);
        let j = choose|j: int| 0 <= j < a.len() && a[j] == x;
        assert(a[j] == s[j]);
    }
    assert(b.drop_last() =~= Seq::<ServerEntryView>::empty());
    reveal_with_fuel(Seq::filter, 2);
    assert(b.filter(keep) =~= seq![s[k]]);
    assert(s.filter(keep) == a.filter(keep) + (b.filter(keep) + rest.filter(keep)));
    assert((a.filter(keep) + (b.filter(keep) + rest.filter(keep)))[0] == s[k]);
}

/// Removing the default server makes the first server that remains (server
/// `k`, the first whose id is not `id`) the new default, and the API
/// upstream follows it; the remaining servers keep their order, with server
/// `k` first.
pub proof fn removing_default_promotes_first_remaining(c: AdminConfigView, id: Seq<char>, k: int)
    requires
        c.default_server == Some(id),
        0 <= k < c.servers.len(),
        c.servers[k].id != id,
        forall|j: int| 0 <= j < k ==> c.servers[j].id == id,
    ensures
        removed(c, id).servers[0] == c.servers[k],
        removed(c, id).default_server == Some(c.servers[k].id),
        removed(c, id).api_upstream == c.servers[k].api_upstream,
{
    lemma_first_kept(c.servers, id, k);
    let servers = c.servers.filter(|e: ServerEntryView| e.id != id);
    assert(removed(c, id).servers == servers);
    lemma_find_entry_is(servers, servers[0].id, 0);
}

} // verus!
