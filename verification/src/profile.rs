//! Connection profiles: where a server is, how to log in to it and how to get there.
use crate::local_path::{local_paths_equal, paths_equal};
use crate::text::{clone_opt_text, clone_texts, opt_text_eq, opt_view, text_eq};
use std::path::PathBuf;
use vstd::prelude::*;
use vstd::string::*;

verus! {

/// How to log in.
#[derive(Debug, PartialEq, Eq)]
pub enum AuthConfig {
    NoPassword,
    Password,
    PrivateKey { path: PathBuf },
    Agent,
}

impl Clone for AuthConfig {
    fn clone(&self) -> (r: Self)
        ensures
            r == *self,
    {
        match self {
            AuthConfig::NoPassword => AuthConfig::NoPassword,
            AuthConfig::Password => AuthConfig::Password,
            AuthConfig::PrivateKey { path } => AuthConfig::PrivateKey { path: path.clone() },
            AuthConfig::Agent => AuthConfig::Agent,
        }
    }
}

/// Two ways to log in are the same; key files go by their paths' components.
pub open spec fn same_auth(a: AuthConfig, b: AuthConfig) -> bool {
    match (a, b) {
        (AuthConfig::NoPassword, AuthConfig::NoPassword) => true,
        (AuthConfig::Password, AuthConfig::Password) => true,
        (AuthConfig::PrivateKey { path: p }, AuthConfig::PrivateKey { path: q }) => {
            local_paths_equal(p, q)
        },
        (AuthConfig::Agent, AuthConfig::Agent) => true,
        _ => false,
    }
}

/// Two ways to log in are the same.
pub fn auth_eq(a: &AuthConfig, b: &AuthConfig) -> (r: bool)
    ensures
        r == same_auth(*a, *b),
{
    match (a, b) {
        (AuthConfig::NoPassword, AuthConfig::NoPassword) => true,
        (AuthConfig::Password, AuthConfig::Password) => true,
        (AuthConfig::PrivateKey { path: p }, AuthConfig::PrivateKey { path: q }) => {
            paths_equal(p, q)
        },
        (AuthConfig::Agent, AuthConfig::Agent) => true,
        _ => false,
    }
}

/// What stands between this machine and the first server. Of a proxy command only digests are
/// kept: of the command, and of the expanded command that was approved.
#[derive(Debug, PartialEq, Eq)]
pub enum ProxyConfig {
    HttpConnect { host: String, port: u16, username: Option<String> },
    Socks5 { host: String, port: u16, username: Option<String> },
    ProxyCommand { command_digest: String, approved_digest: Option<String> },
}

impl Clone for ProxyConfig {
    fn clone(&self) -> (r: Self)
        ensures
            r == *self,
    {
        match self {
            ProxyConfig::HttpConnect { host, port, username } => ProxyConfig::HttpConnect {
                host: host.clone(),
                port: *port,
                username: clone_opt_text(username),
            },
            ProxyConfig::Socks5 { host, port, username } => ProxyConfig::Socks5 {
                host: host.clone(),
                port: *port,
                username: clone_opt_text(username),
            },
            ProxyConfig::ProxyCommand { command_digest, approved_digest } => {
                ProxyConfig::ProxyCommand {
                    command_digest: command_digest.clone(),
                    approved_digest: clone_opt_text(approved_digest),
                }
            },
        }
    }
}

/// Two proxies are the same, field by field.
pub open spec fn same_proxy(a: Option<ProxyConfig>, b: Option<ProxyConfig>) -> bool {
    match (a, b) {
        (None, None) => true,
        (
            Some(ProxyConfig::HttpConnect { host: h, port: p, username: u }),
            Some(ProxyConfig::HttpConnect { host, port, username }),
        ) => h@ == host@ && p == port && opt_view(u) == opt_view(username),
        (
            Some(ProxyConfig::Socks5 { host: h, port: p, username: u }),
            Some(ProxyConfig::Socks5 { host, port, username }),
        ) => h@ == host@ && p == port && opt_view(u) == opt_view(username),
        (
            Some(ProxyConfig::ProxyCommand { command_digest: c, approved_digest: a }),
            Some(ProxyConfig::ProxyCommand { command_digest, approved_digest }),
        ) => c@ == command_digest@ && opt_view(a) == opt_view(approved_digest),
        _ => false,
    }
}

/// Two proxies are the same.
pub fn proxy_eq(a: &Option<ProxyConfig>, b: &Option<ProxyConfig>) -> (r: bool)
    ensures
        r == same_proxy(*a, *b),
{
    match (a, b) {
        (None, None) => true,
        (
            Some(ProxyConfig::HttpConnect { host: h, port: p, username: u }),
            Some(ProxyConfig::HttpConnect { host, port, username }),
        ) => text_eq(h.as_str(), host.as_str()) && *p == *port && opt_text_eq(u, username),
        (
            Some(ProxyConfig::Socks5 { host: h, port: p, username: u }),
            Some(ProxyConfig::Socks5 { host, port, username }),
        ) => text_eq(h.as_str(), host.as_str()) && *p == *port && opt_text_eq(u, username),
        (
            Some(ProxyConfig::ProxyCommand { command_digest: c, approved_digest: a }),
            Some(ProxyConfig::ProxyCommand { command_digest, approved_digest }),
        ) => text_eq(c.as_str(), command_digest.as_str()) && opt_text_eq(a, approved_digest),
        _ => false,
    }
}

/// A copy of an optional proxy.
pub fn clone_proxy(proxy: &Option<ProxyConfig>) -> (r: Option<ProxyConfig>)
    ensures
        r == *proxy,
{
    match proxy {
        Some(proxy) => Some(proxy.clone()),
        None => None,
    }
}

/// The way to a server: a proxy, then other profiles' servers, then the server itself.
#[derive(Debug, PartialEq, Eq)]
pub struct ConnectionRoute {
    pub upstream_proxy: Option<ProxyConfig>,
    pub jump_host_ids: Vec<String>,
}

/// A route straight to the server.
pub open spec fn is_direct_route(route: ConnectionRoute) -> bool {
    route.upstream_proxy is None && route.jump_host_ids@.len() == 0
}

impl Default for ConnectionRoute {
    fn default() -> (r: Self)
        ensures
            is_direct_route(r),
    {
        ConnectionRoute { upstream_proxy: None, jump_host_ids: Vec::new() }
    }
}

impl ConnectionRoute {
    /// The route leads straight to the server.
    pub fn is_direct(&self) -> (r: bool)
        ensures
            r == is_direct_route(*self),
    {
        self.upstream_proxy.is_none() && self.jump_host_ids.len() == 0
    }
}

/// Two routes agree: the same proxy, and the same servers in between.
pub open spec fn same_route_values(a: ConnectionRoute, b: ConnectionRoute) -> bool {
    a.upstream_proxy == b.upstream_proxy && a.jump_host_ids@ == b.jump_host_ids@
}

/// A server to connect to.
#[derive(Debug, PartialEq, Eq)]
pub struct ConnectionProfile {
    pub id: String,
    pub name: String,
    pub host: String,
    pub port: u16,
    pub username: String,
    pub auth: AuthConfig,
    pub route: ConnectionRoute,
}

/// Two profiles agree in every value.
pub open spec fn same_profile(a: ConnectionProfile, b: ConnectionProfile) -> bool {
    &&& a.id == b.id
    &&& a.name == b.name
    &&& a.host == b.host
    &&& a.port == b.port
    &&& a.username == b.username
    &&& a.auth == b.auth
    &&& same_route_values(a.route, b.route)
}

/// Two lists of profiles agree.
pub open spec fn same_profiles(a: Seq<ConnectionProfile>, b: Seq<ConnectionProfile>) -> bool {
    a.len() == b.len() && forall|i: int|
        0 <= i < a.len() ==> same_profile(#[trigger] a[i], b[i])
}

impl Clone for ConnectionProfile {
    fn clone(&self) -> (r: Self)
        ensures
            same_profile(r, *self),
    {
        ConnectionProfile {
            id: self.id.clone(),
            name: self.name.clone(),
            host: self.host.clone(),
            port: self.port,
            username: self.username.clone(),
            auth: self.auth.clone(),
            route: ConnectionRoute {
                upstream_proxy: clone_proxy(&self.route.upstream_proxy),
                jump_host_ids: clone_texts(&self.route.jump_host_ids),
            },
        }
    }
}

impl ConnectionProfile {
    /// A profile that logs in with a password and goes straight to the server.
    pub fn new(id: &str, name: &str, host: &str, port: u16, username: &str) -> (r: Self)
        ensures
            r.id@ == id@,
            r.name@ == name@,
            r.host@ == host@,
            r.port == port,
            r.username@ == username@,
            r.auth == AuthConfig::Password,
            is_direct_route(r.route),
    {
        ConnectionProfile {
            id: id.to_owned(),
            name: name.to_owned(),
            host: host.to_owned(),
            port,
            username: username.to_owned(),
            auth: AuthConfig::Password,
            route: ConnectionRoute::default(),
        }
    }
}

/// Having the identifier `id`.
pub open spec fn has_profile_id(id: Seq<char>) -> spec_fn(ConnectionProfile) -> bool {
    |profile: ConnectionProfile| profile.id@ == id
}

/// The position of the profile `id`; the number of profiles where there is none.
pub open spec fn profile_position(profiles: Seq<ConnectionProfile>, id: Seq<char>) -> int {
    crate::sequences::first_index(profiles, has_profile_id(id))
}

/// There is a profile `id`.
pub open spec fn has_profile(profiles: Seq<ConnectionProfile>, id: Seq<char>) -> bool {
    0 <= profile_position(profiles, id) < profiles.len()
}

/// The position of the profile `id`.
pub fn find_profile(profiles: &Vec<ConnectionProfile>, id: &str) -> (r: Option<usize>)
    ensures
        match r {
            Some(i) => i == profile_position(profiles@, id@) && has_profile(profiles@, id@)
                && profiles@[i as int].id@ == id@,
            None => !has_profile(profiles@, id@),
        },
{
    let mut i: usize = 0;
    while i < profiles.len()
        invariant
            i <= profiles@.len(),
            forall|k: int| 0 <= k < i ==> (#[trigger] profiles@[k]).id@ != id@,
        decreases profiles@.len() - i,
    {
        if text_eq(profiles[i].id.as_str(), id) {
            proof {
                crate::sequences::first_index_is(profiles@, has_profile_id(id@), i as int);
            }
            return Some(i);
        }
        i = i + 1;
    }
    proof {
        crate::sequences::first_index_is(profiles@, has_profile_id(id@), i as int);
    }
    None
}

/// A copy of a list of profiles.
pub fn clone_profiles(list: &Vec<ConnectionProfile>) -> (r: Vec<ConnectionProfile>)
    ensures
        same_profiles(r@, list@),
{
    let mut out: Vec<ConnectionProfile> = Vec::new();
    let mut i: usize = 0;
    while i < list.len()
        invariant
            i <= list@.len(),
            out@.len() == i,
            forall|k: int| 0 <= k < i ==> same_profile(#[trigger] out@[k], list@[k]),
        decreases list@.len() - i,
    {
        out.push(list[i].clone());
        i = i + 1;
    }
    out
}

/// The position of the profile `id` is the first with that identifier, and there is one exactly
/// where some profile has it.
pub proof fn profile_position_is_first(profiles: Seq<ConnectionProfile>, id: Seq<char>)
    ensures
        has_profile(profiles, id) <==> exists|i: int|
            0 <= i < profiles.len() && (#[trigger] profiles[i]).id@ == id,
        has_profile(profiles, id) ==> profiles[profile_position(profiles, id)].id@ == id,
        forall|k: int|
            0 <= k < profile_position(profiles, id) ==> (#[trigger] profiles[k]).id@ != id,
{
    let wanted = has_profile_id(id);
    crate::sequences::first_index_properties(profiles, wanted);
    if has_profile(profiles, id) {
        assert(wanted(profiles[profile_position(profiles, id)]));
    }
    if exists|i: int| 0 <= i < profiles.len() && (#[trigger] profiles[i]).id@ == id {
        let i = choose|i: int| 0 <= i < profiles.len() && (#[trigger] profiles[i]).id@ == id;
        assert(wanted(profiles[i]));
    }
    assert forall|k: int| 0 <= k < profile_position(profiles, id) implies (
    #[trigger] profiles[k]).id@ != id by {
        assert(!wanted(profiles[k]));
    }
}

/// Two ways to log in are the same only where they are of one kind; of key files, where std takes
/// the two paths for equal. Two proxies are the same only where they are of one kind and agree in
/// every value, two profiles only where they do.
pub proof fn same_means_every_value(
    a: ConnectionProfile,
    b: ConnectionProfile,
    p: Option<ProxyConfig>,
    q: Option<ProxyConfig>,
)
    ensures
        same_auth(a.auth, b.auth) <==> match (a.auth, b.auth) {
            (AuthConfig::NoPassword, other) => other == AuthConfig::NoPassword,
            (AuthConfig::Password, other) => other == AuthConfig::Password,
            (AuthConfig::Agent, other) => other == AuthConfig::Agent,
            (AuthConfig::PrivateKey { path }, AuthConfig::PrivateKey { path: other }) => {
                local_paths_equal(path, other)
            },
            (AuthConfig::PrivateKey { .. }, _) => false,
        },
        same_proxy(p, q) ==> (p is None <==> q is None),
        same_proxy(p, q) && p is Some ==> match (p->0, q->0) {
            (
                ProxyConfig::HttpConnect { host, port, username },
                ProxyConfig::HttpConnect { host: h, port: n, username: u },
            ) => host@ == h@ && port == n && (username is Some <==> u is Some) && (username is Some
                ==> username->0@ == u->0@),
            (
                ProxyConfig::Socks5 { host, port, username },
                ProxyConfig::Socks5 { host: h, port: n, username: u },
            ) => host@ == h@ && port == n && (username is Some <==> u is Some) && (username is Some
                ==> username->0@ == u->0@),
            (
                ProxyConfig::ProxyCommand { command_digest, approved_digest },
                ProxyConfig::ProxyCommand { command_digest: c, approved_digest: d },
            ) => command_digest@ == c@ && (approved_digest is Some <==> d is Some) && (
            approved_digest is Some ==> approved_digest->0@ == d->0@),
            _ => false,
        },
        p == q ==> same_proxy(p, q),
        same_profile(a, b) ==> a.id == b.id && a.name == b.name && a.host == b.host && a.port
            == b.port && a.username == b.username && a.auth == b.auth && a.route.upstream_proxy
            == b.route.upstream_proxy && a.route.jump_host_ids@ == b.route.jump_host_ids@,
{
}

} // verus!
