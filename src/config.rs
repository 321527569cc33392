use crate::backend::{has_server, Backend, BackendRegistry, ReverseProxy};
use crate::bytes::{bytes_eq, copy_bytes, lower, to_lower};
use crate::upstream::{names_option, parse_options, scheme_of, Upstream, UpstreamGroup, UpstreamOption, UpstreamOptions};
use vstd::prelude::*;

verus! {

/// One upstream entry of the configuration.
#[derive(Clone, Debug)]
pub struct UpstreamParams {
    /// `host:port`.
    pub location: Vec<u8>,
    pub tls: Option<bool>,
}

/// One reverse-proxy entry of a tenant.
#[derive(Clone, Debug)]
pub struct ReverseProxyOption {
    pub path: Option<Vec<u8>>,
    pub replace_path: Option<Vec<u8>>,
    pub upstream: Vec<UpstreamParams>,
    pub upstream_options: Option<Vec<Vec<u8>>>,
}

/// Why a configuration is refused.
#[derive(Clone, Copy, Debug, PartialEq, Eq, Structural)]
pub enum ConfigError {
    /// Both listen ports absent, or equal.
    PortConflict,
    /// No tenant configured.
    MissingApplicationSpec,
    /// A tenant without a server name, or with an empty one.
    MissingServerName,
    /// A tenant without reverse-proxy entries.
    MissingReverseProxySpec,
    /// A reverse-proxy entry without upstreams.
    MissingUpstream,
    /// A TLS block without both certificate and key paths.
    TlsMaterialIncomplete,
    /// A tenant without TLS while the plaintext port is disabled.
    TlsRequiredButAbsent,
    /// HTTPS redirection set while the TLS port is disabled.
    HttpsRedirectionWithoutTlsPort,
    /// More than one reverse-proxy entry of a tenant without a path.
    DuplicateDefaultPath,
    /// Two reverse-proxy entries of a tenant with the same path.
    DuplicatePath,
}

/// The key `/` of the default group.
pub open spec fn root_key() -> Seq<u8> {
    seq![47u8]
}

/// The routing key of an entry: its lowercased path, `/` without one.
pub open spec fn path_key(e: ReverseProxyOption) -> Seq<u8> {
    match e.path {
        Some(p) => lower(p@),
        None => root_key(),
    }
}

pub open spec fn lowered_opt(o: Option<Vec<u8>>) -> Option<Seq<u8>> {
    match o {
        Some(v) => Some(lower(v@)),
        None => None,
    }
}

pub open spec fn opt_view(o: Option<Vec<u8>>) -> Option<Seq<u8>> {
    match o {
        Some(v) => Some(v@),
        None => None,
    }
}

/// Whether the option tokens of an entry name `x`.
pub open spec fn opts_of(o: Option<Vec<Vec<u8>>>, x: UpstreamOption) -> bool {
    match o {
        Some(ts) => names_option(ts@, x),
        None => false,
    }
}

pub open spec fn upstream_built(u: Upstream, p: UpstreamParams) -> bool {
    u.address@ == p.location@ && u.scheme == scheme_of(p.tls)
}

/// `g` is the group that entry `e` describes.
pub open spec fn group_built(g: UpstreamGroup, e: ReverseProxyOption) -> bool {
    &&& g.path@ == path_key(e)
    &&& g.upstreams@.len() == e.upstream@.len()
    &&& forall|k: int| 0 <= k < g.upstreams@.len() ==> upstream_built(#[trigger] g.upstreams@[k], e.upstream@[k])
    &&& opt_view(g.replace_path) == lowered_opt(e.replace_path)
    &&& forall|x: UpstreamOption| #[trigger] g.opts.has(x) == opts_of(e.upstream_options, x)
}

/// Number of entries without a path.
pub open spec fn count_default(s: Seq<ReverseProxyOption>) -> nat
    decreases s.len(),
{
    if s.len() == 0 {
        0
    } else {
        count_default(s.drop_last()) + if s.last().path is None {
            1nat
        } else {
            0nat
        }
    }
}

/// The error a list of reverse-proxy entries gives, if any.
pub open spec fn rp_error(s: Seq<ReverseProxyOption>) -> Option<ConfigError> {
    if s.len() == 0 {
        Some(ConfigError::MissingReverseProxySpec)
    } else if count_default(s) >= 2 {
        Some(ConfigError::DuplicateDefaultPath)
    } else if exists|i: int| 0 <= i < s.len() && (#[trigger] s[i]).upstream@.len() == 0 {
        Some(ConfigError::MissingUpstream)
    } else if exists|i: int, j: int|
        0 <= i < s.len() && 0 <= j < s.len() && i != j && path_key(#[trigger] s[i]) == path_key(#[trigger] s[j]) {
        Some(ConfigError::DuplicatePath)
    } else {
        None
    }
}

/// `rp` holds, in order, the groups that the entries `s` describe.
pub open spec fn rp_built(rp: ReverseProxy, s: Seq<ReverseProxyOption>) -> bool {
    &&& rp.wf()
    &&& rp.upstream@.len() == s.len()
    &&& forall|i: int| 0 <= i < s.len() ==> group_built(#[trigger] rp.upstream@[i], s[i])
}

fn count_defaults(s: &[ReverseProxyOption]) -> (r: usize)
    ensures
        r == count_default(s@),
{
    let mut n: usize = 0;
    let mut i: usize = 0;
    while i < s.len()
        invariant
            i <= s@.len(),
            n == count_default(s@.subrange(0, i as int)),
            n <= i,
        decreases s@.len() - i,
    {
        assert(s@.subrange(0, i + 1).drop_last() =~= s@.subrange(0, i as int));
        if s[i].path.is_none() {
            n = n + 1;
        }
        i = i + 1;
    }
    assert(s@.subrange(0, s@.len() as int) =~= s@);
    n
}

/// The routing key of an entry.
fn key_of(e: &ReverseProxyOption) -> (r: Vec<u8>)
    ensures
        r@ == path_key(*e),
{
    match &e.path {
        Some(p) => to_lower(p.as_slice()),
        None => {
            let r: Vec<u8> = vec![47u8];
            assert(r@ =~= root_key());
            r
        },
    }
}

/// The group an entry describes.
fn build_group(e: &ReverseProxyOption) -> (r: UpstreamGroup)
    requires
        e.upstream@.len() > 0,
    ensures
        r.wf(),
        group_built(r, *e),
{
    let path = key_of(e);
    let mut ups: Vec<Upstream> = Vec::with_capacity(e.upstream.len());
    let mut k: usize = 0;
    while k < e.upstream.len()
        invariant
            k <= e.upstream@.len(),
            ups@.len() == k,
            forall|m: int| 0 <= m < k ==> upstream_built(#[trigger] ups@[m], e.upstream@[m]),
        decreases e.upstream@.len() - k,
    {
        let p = &e.upstream[k];
        ups.push(Upstream::new(copy_bytes(p.location.as_slice()), p.tls));
        k = k + 1;
    }
    let replace_path = match &e.replace_path {
        Some(v) => Some(to_lower(v.as_slice())),
        None => None,
    };
    let opts = match &e.upstream_options {
        Some(ts) => parse_options(ts),
        None => UpstreamOptions::empty(),
    };
    UpstreamGroup::new(path, ups, replace_path, opts)
}

/// Builds the routing table of one tenant. Fails when there is no entry, then
/// when more than one entry has no path, then when an entry has no upstream, then when two entries share
/// a path.
pub fn get_reverse_proxy(rp_settings: &[ReverseProxyOption]) -> (r: Result<ReverseProxy, ConfigError>)
    ensures
        match rp_error(rp_settings@) {
            Some(e) => r == Err::<ReverseProxy, ConfigError>(e),
            None => (r matches Ok(rp) && rp_built(rp, rp_settings@)),
        },
{
    if rp_settings.len() == 0 {
        return Err(ConfigError::MissingReverseProxySpec);
    }
    if count_defaults(rp_settings) >= 2 {
        return Err(ConfigError::DuplicateDefaultPath);
    }
    let mut i: usize = 0;
    while i < rp_settings.len()
        invariant
            i <= rp_settings@.len(),
            count_default(rp_settings@) < 2,
            rp_settings@.len() > 0,
            forall|m: int| 0 <= m < i ==> (#[trigger] rp_settings@[m]).upstream@.len() > 0,
        decreases rp_settings@.len() - i,
    {
        if rp_settings[i].upstream.len() == 0 {
            assert(rp_settings@[i as int].upstream@.len() == 0);
            return Err(ConfigError::MissingUpstream);
        }
        i = i + 1;
    }
    let mut keys: Vec<Vec<u8>> = Vec::with_capacity(rp_settings.len());
    let mut i: usize = 0;
    while i < rp_settings.len()
        invariant
            i <= rp_settings@.len(),
            keys@.len() == i,
            count_default(rp_settings@) < 2,
            rp_settings@.len() > 0,
            forall|m: int| 0 <= m < rp_settings@.len() ==> (#[trigger] rp_settings@[m]).upstream@.len() > 0,
            forall|m: int| 0 <= m < i ==> (#[trigger] keys@[m])@ == path_key(rp_settings@[m]),
            forall|m: int, n: int| 0 <= m < i && 0 <= n < i && m != n ==> path_key(#[trigger] rp_settings@[m]) != path_key(#[trigger] rp_settings@[n]),
        decreases rp_settings@.len() - i,
    {
        let k = key_of(&rp_settings[i]);
        let mut j: usize = 0;
        while j < i
            invariant
                j <= i,
                i < rp_settings@.len(),
                keys@.len() == i,
                count_default(rp_settings@) < 2,
                rp_settings@.len() > 0,
            rp_settings@.len() > 0,
                forall|m: int| 0 <= m < rp_settings@.len() ==> (#[trigger] rp_settings@[m]).upstream@.len() > 0,
                k@ == path_key(rp_settings@[i as int]),
                forall|m: int| 0 <= m < i ==> (#[trigger] keys@[m])@ == path_key(rp_settings@[m]),
                forall|m: int| 0 <= m < j ==> path_key(#[trigger] rp_settings@[m]) != k@,
            decreases i - j,
        {
            if bytes_eq(keys[j].as_slice(), k.as_slice()) {
                assert(path_key(rp_settings@[j as int]) == path_key(rp_settings@[i as int]));
                return Err(ConfigError::DuplicatePath);
            }
            j = j + 1;
        }
        keys.push(k);
        i = i + 1;
    }
    let mut groups: Vec<UpstreamGroup> = Vec::with_capacity(rp_settings.len());
    let mut i: usize = 0;
    while i < rp_settings.len()
        invariant
            i <= rp_settings@.len(),
            groups@.len() == i,
            forall|m: int| 0 <= m < rp_settings@.len() ==> (#[trigger] rp_settings@[m]).upstream@.len() > 0,
            forall|m: int| 0 <= m < i ==> group_built(#[trigger] groups@[m], rp_settings@[m]) && groups@[m].wf(),
        decreases rp_settings@.len() - i,
    {
        groups.push(build_group(&rp_settings[i]));
        i = i + 1;
    }
    let rp = ReverseProxy { upstream: groups };
    assert forall|m: int, n: int|
        0 <= m < rp.upstream@.len() && 0 <= n < rp.upstream@.len() && m != n implies
        #[trigger] rp.upstream@[m].path@ != #[trigger] rp.upstream@[n].path@ by {
        assert(group_built(rp.upstream@[m], rp_settings@[m]));
        assert(group_built(rp.upstream@[n], rp_settings@[n]));
    }
    Ok(rp)
}

proof fn lemma_count_prefix_step(s: Seq<ReverseProxyOption>, n: int)
    requires
        0 <= n < s.len(),
    ensures
        count_default(s.subrange(0, n + 1)) == count_default(s.subrange(0, n)) + if s[n].path is None {
            1nat
        } else {
            0nat
        },
{
    assert(s.subrange(0, n + 1).drop_last() =~= s.subrange(0, n));
}

proof fn lemma_count_prefix_mono(s: Seq<ReverseProxyOption>, n: int)
    requires
        0 <= n <= s.len(),
    ensures
        count_default(s.subrange(0, n)) <= count_default(s),
    decreases s.len() - n,
{
    if n == s.len() {
        assert(s.subrange(0, n) =~= s);
    } else {
        lemma_count_prefix_step(s, n);
        lemma_count_prefix_mono(s, n + 1);
    }
}

proof fn lemma_count_zero(s: Seq<ReverseProxyOption>)
    requires
        forall|j: int| 0 <= j < s.len() ==> (#[trigger] s[j]).path is Some,
    ensures
        count_default(s) == 0,
    decreases s.len(),
{
    if s.len() > 0 {
        lemma_count_zero(s.drop_last());
    }
}

proof fn lemma_count_at_most_one(s: Seq<ReverseProxyOption>, i: int)
    requires
        forall|j: int| 0 <= j < s.len() && j != i ==> (#[trigger] s[j]).path is Some,
    ensures
        count_default(s) <= 1,
    decreases s.len(),
{
    if s.len() > 0 {
        if i == s.len() - 1 {
            lemma_count_zero(s.drop_last());
        } else {
            lemma_count_at_most_one(s.drop_last(), i);
        }
    }
}

/// Two entries of a tenant without a path make its routing table fail with
/// `DuplicateDefaultPath`.
pub proof fn lemma_two_defaults_refused(s: Seq<ReverseProxyOption>, i: int, j: int)
    requires
        0 <= i < s.len(),
        0 <= j < s.len(),
        i != j,
        s[i].path is None,
        s[j].path is None,
    ensures
        rp_error(s) == Some(ConfigError::DuplicateDefaultPath),
{
    let (a, b) = if i < j {
        (i, j)
    } else {
        (j, i)
    };
    lemma_count_prefix_step(s, a);
    lemma_count_prefix_step(s, b);
    lemma_count_prefix_mono(s.subrange(0, b), a + 1);
    assert(s.subrange(0, b).subrange(0, a + 1) =~= s.subrange(0, a + 1));
    lemma_count_prefix_mono(s, b + 1);
}

/// A tenant whose entries all have upstreams and whose explicit paths are
/// distinct and differ from `/`, with exactly one entry without a path, gets a
/// routing table, and that entry is the `/` group.
pub proof fn lemma_single_default_accepted(s: Seq<ReverseProxyOption>, i: int)
    requires
        0 <= i < s.len(),
        s[i].path is None,
        forall|j: int| 0 <= j < s.len() && j != i ==> (#[trigger] s[j]).path is Some,
        forall|j: int| 0 <= j < s.len() ==> (#[trigger] s[j]).upstream@.len() > 0,
        forall|j: int| 0 <= j < s.len() && j != i ==> path_key(#[trigger] s[j]) != root_key(),
        forall|j: int, k: int|
            0 <= j < s.len() && 0 <= k < s.len() && j != k && j != i && k != i ==> path_key(#[trigger] s[j]) != path_key(#[trigger] s[k]),
    ensures
        rp_error(s) is None,
        path_key(s[i]) == root_key(),
{
    lemma_count_at_most_one(s, i);
}

/// Default cap on concurrent clients.
pub const MAX_CLIENTS: u32 = 512;

/// Default cap on concurrent streams per connection.
pub const MAX_CONCURRENT_STREAMS: u32 = 64;

/// Default max age of the `Alt-Svc` header, in seconds.
pub const H3_ALT_SVC_MAX_AGE: u32 = 3600;

/// Default cap on a request body over HTTP/3, in bytes.
pub const H3_REQUEST_MAX_BODY_SIZE: u64 = 65536;

/// Default cap on concurrent HTTP/3 connections.
pub const H3_MAX_CONCURRENT_CONNECTIONS: u32 = 4096;

/// Default cap on concurrent bidirectional HTTP/3 streams.
pub const H3_MAX_CONCURRENT_BIDISTREAM: u32 = 100;

/// Default cap on concurrent unidirectional HTTP/3 streams.
pub const H3_MAX_CONCURRENT_UNISTREAM: u32 = 100;

/// TLS block of a tenant.
#[derive(Clone, Debug)]
pub struct TlsOption {
    pub tls_cert_path: Option<Vec<u8>>,
    pub tls_cert_key_path: Option<Vec<u8>>,
    pub https_redirection: Option<bool>,
}

/// One tenant of the configuration.
#[derive(Clone, Debug)]
pub struct Application {
    pub server_name: Option<Vec<u8>>,
    pub reverse_proxy: Option<Vec<ReverseProxyOption>>,
    pub tls: Option<TlsOption>,
}

/// HTTP/3 tuning, each field overriding a default.
#[derive(Clone, Copy, Debug, PartialEq, Eq, Structural)]
pub struct Http3Option {
    pub alt_svc_max_age: Option<u32>,
    pub request_max_body_size: Option<u64>,
    pub max_concurrent_connections: Option<u32>,
    pub max_concurrent_bidistream: Option<u32>,
    pub max_concurrent_unistream: Option<u32>,
}

/// Experimental overrides.
#[derive(Clone, Copy, Debug, PartialEq, Eq, Structural)]
pub struct Experimental {
    pub h3: Option<Http3Option>,
    pub ignore_sni_consistency: Option<bool>,
}

/// A parsed configuration.
#[derive(Clone, Debug)]
pub struct ConfigToml {
    pub listen_port: Option<u16>,
    pub listen_port_tls: Option<u16>,
    pub listen_ipv6: Option<bool>,
    pub max_clients: Option<u32>,
    pub max_concurrent_streams: Option<u32>,
    pub default_app: Option<Vec<u8>>,
    /// Tenants by application name.
    pub apps: Option<Vec<(Vec<u8>, Application)>>,
    pub experimental: Option<Experimental>,
}

/// HTTP/3 settings in force.
#[derive(Clone, Copy, Debug, PartialEq, Eq, Structural)]
pub struct Http3Config {
    pub alt_svc_max_age: u32,
    pub request_max_body_size: u64,
    pub max_concurrent_connections: u32,
    pub max_concurrent_bidistream: u32,
    pub max_concurrent_unistream: u32,
}

/// A listen socket on the unspecified address of IPv4 (`0.0.0.0`) or of IPv6
/// (`[::]`, which also takes IPv4).
#[derive(Clone, Copy, Debug, PartialEq, Eq, Structural)]
pub struct ListenSocket {
    pub ipv6: bool,
    pub port: u16,
}

/// Listen settings and tenants, built once at startup.
#[derive(Debug)]
pub struct Globals {
    pub http_port: Option<u16>,
    pub https_port: Option<u16>,
    pub listen_sockets: Vec<ListenSocket>,
    pub max_clients: u32,
    pub max_concurrent_streams: u32,
    /// Whether the TLS server name must match the Host header.
    pub sni_consistency: bool,
    pub http3: Option<Http3Config>,
    pub backends: BackendRegistry,
}

impl Globals {
    /// Whether a request with this TLS server name and Host header may go on:
    /// always when consistency is not enforced, else when they match.
    pub fn sni_allows(&self, sni: &[u8], host: &[u8]) -> (r: bool)
        ensures
            r == (!self.sni_consistency || lower(sni@) == lower(host@)),
    {
        if !self.sni_consistency {
            return true;
        }
        crate::backend::consistent(sni, host)
    }
}

pub open spec fn or_u32(o: Option<u32>, d: u32) -> u32 {
    match o {
        Some(x) => x,
        None => d,
    }
}

pub open spec fn or_u64(o: Option<u64>, d: u64) -> u64 {
    match o {
        Some(x) => x,
        None => d,
    }
}

/// At least one port, and two distinct ones when both are set.
pub open spec fn ports_ok(http: Option<u16>, https: Option<u16>) -> bool {
    match (http, https) {
        (Some(p), Some(t)) => p != t,
        (None, None) => false,
        _ => true,
    }
}

/// Lowercased server name of a tenant; empty without one.
pub open spec fn server_key(a: Application) -> Seq<u8> {
    match a.server_name {
        Some(s) => lower(s@),
        None => Seq::empty(),
    }
}

/// Reverse-proxy entries of a tenant; none without them.
pub open spec fn entries_of(a: Application) -> Seq<ReverseProxyOption> {
    match a.reverse_proxy {
        Some(v) => v@,
        None => Seq::empty(),
    }
}

/// The error a tenant gives under the listen ports, if any.
pub open spec fn app_error(a: Application, http: Option<u16>, https: Option<u16>) -> Option<ConfigError> {
    if a.server_name is None || a.server_name.unwrap()@.len() == 0 {
        Some(ConfigError::MissingServerName)
    } else if entries_of(a).len() == 0 {
        Some(ConfigError::MissingReverseProxySpec)
    } else {
        match a.tls {
            None => if http is None {
                Some(ConfigError::TlsRequiredButAbsent)
            } else {
                rp_error(entries_of(a))
            },
            Some(t) => if t.tls_cert_path is None || t.tls_cert_key_path is None {
                Some(ConfigError::TlsMaterialIncomplete)
            } else if t.https_redirection is Some && https is None {
                Some(ConfigError::HttpsRedirectionWithoutTlsPort)
            } else {
                rp_error(entries_of(a))
            },
        }
    }
}

/// The first error among tenants, in order.
pub open spec fn apps_error(s: Seq<(Vec<u8>, Application)>, http: Option<u16>, https: Option<u16>) -> Option<ConfigError>
    decreases s.len(),
{
    if s.len() == 0 {
        None
    } else {
        match apps_error(s.drop_last(), http, https) {
            Some(e) => Some(e),
            None => app_error(s.last().1, http, https),
        }
    }
}

/// The error a configuration gives, if any.
pub open spec fn config_error(c: ConfigToml) -> Option<ConfigError> {
    if !ports_ok(c.listen_port, c.listen_port_tls) {
        Some(ConfigError::PortConflict)
    } else {
        match c.apps {
            None => Some(ConfigError::MissingApplicationSpec),
            Some(a) => if a@.len() == 0 {
                Some(ConfigError::MissingApplicationSpec)
            } else {
                apps_error(a@, c.listen_port, c.listen_port_tls)
            },
        }
    }
}

/// HTTPS redirection of a tenant: on by default with TLS, unset without.
pub open spec fn redirection_of(a: Application) -> Option<bool> {
    match a.tls {
        None => None,
        Some(t) => match t.https_redirection {
            None => Some(true),
            Some(b) => Some(b),
        },
    }
}

pub open spec fn cert_of(a: Application) -> Option<Seq<u8>> {
    match a.tls {
        None => None,
        Some(t) => opt_view(t.tls_cert_path),
    }
}

pub open spec fn key_of_tls(a: Application) -> Option<Seq<u8>> {
    match a.tls {
        None => None,
        Some(t) => opt_view(t.tls_cert_key_path),
    }
}

/// `b` is the backend that tenant `e` (name, spec) describes.
pub open spec fn backend_built(b: Backend, e: (Vec<u8>, Application)) -> bool {
    &&& b.app_name@ == e.0@
    &&& b.server_name@ == server_key(e.1)
    &&& opt_view(b.tls_cert_path) == cert_of(e.1)
    &&& opt_view(b.tls_cert_key_path) == key_of_tls(e.1)
    &&& b.https_redirection == redirection_of(e.1)
    &&& rp_built(b.reverse_proxy, entries_of(e.1))
}

/// The listen sockets of a configuration: the HTTP port, then the TLS port.
pub open spec fn sockets_of(c: ConfigToml) -> Seq<ListenSocket> {
    let v6 = c.listen_ipv6 == Some(true);
    let a = match c.listen_port {
        Some(p) => seq![ListenSocket { ipv6: v6, port: p }],
        None => Seq::empty(),
    };
    let b = match c.listen_port_tls {
        Some(p) => seq![ListenSocket { ipv6: v6, port: p }],
        None => Seq::empty(),
    };
    a + b
}

pub open spec fn h3_of(o: Http3Option) -> Http3Config {
    Http3Config {
        alt_svc_max_age: or_u32(o.alt_svc_max_age, H3_ALT_SVC_MAX_AGE),
        request_max_body_size: or_u64(o.request_max_body_size, H3_REQUEST_MAX_BODY_SIZE),
        max_concurrent_connections: or_u32(o.max_concurrent_connections, H3_MAX_CONCURRENT_CONNECTIONS),
        max_concurrent_bidistream: or_u32(o.max_concurrent_bidistream, H3_MAX_CONCURRENT_BIDISTREAM),
        max_concurrent_unistream: or_u32(o.max_concurrent_unistream, H3_MAX_CONCURRENT_UNISTREAM),
    }
}

/// HTTP/3 is on exactly when the experimental block has an `h3` part.
pub open spec fn http3_of(c: ConfigToml) -> Option<Http3Config> {
    match c.experimental {
        Some(x) => match x.h3 {
            Some(o) => Some(h3_of(o)),
            None => None,
        },
        None => None,
    }
}

/// Consistency is enforced unless `ignore_sni_consistency` is true.
pub open spec fn sni_consistency_of(c: ConfigToml) -> bool {
    match c.experimental {
        Some(x) => x.ignore_sni_consistency != Some(true),
        None => true,
    }
}

fn copy_opt(o: &Option<Vec<u8>>) -> (r: Option<Vec<u8>>)
    ensures
        opt_view(r) == opt_view(*o),
{
    match o {
        Some(v) => Some(copy_bytes(v.as_slice())),
        None => None,
    }
}

/// Validates one tenant under the listen ports and builds its backend.
pub fn build_backend(app_name: &Vec<u8>, app: &Application, http_port: Option<u16>, https_port: Option<u16>) -> (r: Result<Backend, ConfigError>)
    ensures
        match app_error(*app, http_port, https_port) {
            Some(e) => r == Err::<Backend, ConfigError>(e),
            None => (r matches Ok(b) && b.wf() && backend_built(b, (*app_name, *app))),
        },
{
    let server_name = match &app.server_name {
        Some(sn) => {
            if sn.len() == 0 {
                return Err(ConfigError::MissingServerName);
            }
            to_lower(sn.as_slice())
        },
        None => {
            return Err(ConfigError::MissingServerName);
        },
    };
    let entries = match &app.reverse_proxy {
        Some(v) => {
            if v.len() == 0 {
                return Err(ConfigError::MissingReverseProxySpec);
            }
            v
        },
        None => {
            return Err(ConfigError::MissingReverseProxySpec);
        },
    };
    let (tls_cert_path, tls_cert_key_path, https_redirection) = match &app.tls {
        None => {
            if http_port.is_none() {
                return Err(ConfigError::TlsRequiredButAbsent);
            }
            (None, None, None)
        },
        Some(tls) => {
            if tls.tls_cert_path.is_none() || tls.tls_cert_key_path.is_none() {
                return Err(ConfigError::TlsMaterialIncomplete);
            }
            let redirection = match tls.https_redirection {
                None => Some(true),
                Some(b) => {
                    if https_port.is_none() {
                        return Err(ConfigError::HttpsRedirectionWithoutTlsPort);
                    }
                    Some(b)
                },
            };
            (copy_opt(&tls.tls_cert_path), copy_opt(&tls.tls_cert_key_path), redirection)
        },
    };
    let reverse_proxy = get_reverse_proxy(entries.as_slice())?;
    Ok(Backend {
        app_name: copy_bytes(app_name.as_slice()),
        server_name,
        reverse_proxy,
        tls_cert_path,
        tls_cert_key_path,
        https_redirection,
    })
}

/// What the registry holds after the tenants `s` were registered in order:
/// each tenant's server name is present, and each backend is the one built
/// from the last tenant with its server name.
pub open spec fn registry_built(apps: Seq<Backend>, s: Seq<(Vec<u8>, Application)>) -> bool {
    &&& forall|m: int| 0 <= m < s.len() ==> has_server(apps, server_key(#[trigger] s[m].1))
    &&& forall|k: int| 0 <= k < apps.len() ==> exists|m: int|
        0 <= m < s.len() && backend_built(#[trigger] apps[k], s[m]) && forall|j: int|
            m < j < s.len() ==> server_key(#[trigger] s[j].1) != apps[k].server_name@
}

/// The fallback server name: that of a backend named `d`, and none where no
/// backend is named so.
pub open spec fn default_built(apps: Seq<Backend>, d: Option<Vec<u8>>, dsn: Option<Vec<u8>>) -> bool {
    match d {
        None => dsn is None,
        Some(name) => match dsn {
            Some(sn) => exists|k: int| 0 <= k < apps.len() && (#[trigger] apps[k]).app_name@ == name@ && apps[k].server_name@ == sn@,
            None => forall|k: int| 0 <= k < apps.len() ==> (#[trigger] apps[k]).app_name@ != name@,
        },
    }
}

/// `g` is what a valid configuration `c` gives.
pub open spec fn globals_built(g: Globals, c: ConfigToml) -> bool {
    &&& g.http_port == c.listen_port
    &&& g.https_port == c.listen_port_tls
    &&& g.listen_sockets@ == sockets_of(c)
    &&& g.max_clients == or_u32(c.max_clients, MAX_CLIENTS)
    &&& g.max_concurrent_streams == or_u32(c.max_concurrent_streams, MAX_CONCURRENT_STREAMS)
    &&& g.sni_consistency == sni_consistency_of(c)
    &&& g.http3 == http3_of(c)
    &&& g.backends.wf()
    &&& registry_built(g.backends.apps@, c.apps.unwrap()@)
    &&& default_built(g.backends.apps@, c.default_app, g.backends.default_server_name)
}

fn listen_sockets(c: &ConfigToml) -> (r: Vec<ListenSocket>)
    ensures
        r@ == sockets_of(*c),
{
    let v6 = match c.listen_ipv6 {
        Some(true) => true,
        _ => false,
    };
    let mut r: Vec<ListenSocket> = Vec::new();
    if let Some(p) = c.listen_port {
        r.push(ListenSocket { ipv6: v6, port: p });
    }
    if let Some(p) = c.listen_port_tls {
        r.push(ListenSocket { ipv6: v6, port: p });
    }
    assert(r@ =~= sockets_of(*c));
    r
}

fn http3_config(c: &ConfigToml) -> (r: Option<Http3Config>)
    ensures
        r == http3_of(*c),
{
    match c.experimental {
        Some(x) => match x.h3 {
            Some(o) => Some(Http3Config {
                alt_svc_max_age: o.alt_svc_max_age.unwrap_or(H3_ALT_SVC_MAX_AGE),
                request_max_body_size: o.request_max_body_size.unwrap_or(H3_REQUEST_MAX_BODY_SIZE),
                max_concurrent_connections: o.max_concurrent_connections.unwrap_or(H3_MAX_CONCURRENT_CONNECTIONS),
                max_concurrent_bidistream: o.max_concurrent_bidistream.unwrap_or(H3_MAX_CONCURRENT_BIDISTREAM),
                max_concurrent_unistream: o.max_concurrent_unistream.unwrap_or(H3_MAX_CONCURRENT_UNISTREAM),
            }),
            None => None,
        },
        None => None,
    }
}

/// Server name of the first backend named `d`, if any.
fn default_server_name(reg: &BackendRegistry, d: &Vec<u8>) -> (r: Option<Vec<u8>>)
    ensures
        default_built(reg.apps@, Some(*d), r),
        r matches Some(sn) ==> has_server(reg.apps@, sn@),
{
    let mut k: usize = 0;
    while k < reg.apps.len()
        invariant
            k <= reg.apps@.len(),
            forall|j: int| 0 <= j < k ==> (#[trigger] reg.apps@[j]).app_name@ != d@,
        decreases reg.apps@.len() - k,
    {
        if bytes_eq(reg.apps[k].app_name.as_slice(), d.as_slice()) {
            let sn = copy_bytes(reg.apps[k].server_name.as_slice());
            assert(reg.apps@[k as int].app_name@ == d@ && reg.apps@[k as int].server_name@ == sn@);
            return Some(sn);
        }
        k = k + 1;
    }
    None
}

/// Validates a configuration and builds the listen settings and the tenant
/// registry, or gives the first error in this order: ports, presence of
/// tenants, then each tenant in turn.
pub fn parse_opts(config: &ConfigToml) -> (r: Result<Globals, ConfigError>)
    ensures
        match config_error(*config) {
            Some(e) => r == Err::<Globals, ConfigError>(e),
            None => (r matches Ok(g) && globals_built(g, *config)),
        },
{
    let http_port = config.listen_port;
    let https_port = config.listen_port_tls;
    match http_port {
        Some(p) => {
            if let Some(t) = https_port {
                if p == t {
                    return Err(ConfigError::PortConflict);
                }
            }
        },
        None => {
            if https_port.is_none() {
                return Err(ConfigError::PortConflict);
            }
        },
    }
    assert(ports_ok(http_port, https_port));
    let listen = listen_sockets(config);
    let max_clients = config.max_clients.unwrap_or(MAX_CLIENTS);
    let max_concurrent_streams = config.max_concurrent_streams.unwrap_or(MAX_CONCURRENT_STREAMS);

    let apps = match &config.apps {
        Some(a) => a,
        None => {
            return Err(ConfigError::MissingApplicationSpec);
        },
    };
    if apps.len() == 0 {
        return Err(ConfigError::MissingApplicationSpec);
    }

    let mut reg = BackendRegistry::new();
    let mut i: usize = 0;
    while i < apps.len()
        invariant
            i <= apps@.len(),
            apps_error(apps@.subrange(0, i as int), http_port, https_port) is None,
            http_port == config.listen_port,
            https_port == config.listen_port_tls,
            ports_ok(http_port, https_port),
            config.apps == Some(*apps),
            apps@.len() > 0,
            reg.wf(),
            reg.default_server_name is None,
            registry_built(reg.apps@, apps@.subrange(0, i as int)),
        decreases apps@.len() - i,
    {
        let ghost pre = apps@.subrange(0, i as int);
        let ghost next = apps@.subrange(0, i + 1);
        assert(next.drop_last() =~= pre);
        let b = match build_backend(&apps[i].0, &apps[i].1, http_port, https_port) {
            Ok(b) => b,
            Err(e) => {
                assert(apps_error(next, http_port, https_port) == Some(e));
                proof {
                    lemma_apps_error_prefix(apps@, http_port, https_port, i + 1);
                }
                return Err(e);
            },
        };
        let ghost old_apps = reg.apps@;
        let ghost b0 = b;
        reg.insert(b);
        proof {
            lemma_registry_step(old_apps, reg.apps@, b0, apps@, i as int);
        }
        i = i + 1;
    }
    assert(apps@.subrange(0, apps@.len() as int) =~= apps@);

    let dsn = match &config.default_app {
        Some(d) => default_server_name(&reg, d),
        None => None,
    };
    reg.default_server_name = dsn;

    let sni_consistency = match config.experimental {
        Some(x) => match x.ignore_sni_consistency {
            Some(b) => !b,
            None => true,
        },
        None => true,
    };
    Ok(Globals {
        http_port,
        https_port,
        listen_sockets: listen,
        max_clients,
        max_concurrent_streams,
        sni_consistency,
        http3: http3_config(config),
        backends: reg,
    })
}

/// An error among the first `n` tenants is the first error of all of them.
proof fn lemma_apps_error_prefix(s: Seq<(Vec<u8>, Application)>, http: Option<u16>, https: Option<u16>, n: int)
    requires
        0 <= n <= s.len(),
        apps_error(s.subrange(0, n), http, https) is Some,
    ensures
        apps_error(s, http, https) == apps_error(s.subrange(0, n), http, https),
    decreases s.len() - n,
{
    if n == s.len() {
        assert(s.subrange(0, n) =~= s);
    } else {
        assert(s.subrange(0, n + 1).drop_last() =~= s.subrange(0, n));
        lemma_apps_error_prefix(s, http, https, n + 1);
    }
}

/// Registering the backend of tenant `i` keeps what `registry_built` says.
proof fn lemma_registry_step(old_apps: Seq<Backend>, new_apps: Seq<Backend>, b: Backend, s: Seq<(Vec<u8>, Application)>, i: int)
    requires
        0 <= i < s.len(),
        backend_built(b, s[i]),
        registry_built(old_apps, s.subrange(0, i)),
        forall|x: int, y: int|
            0 <= x < old_apps.len() && 0 <= y < old_apps.len() && x != y
                ==> #[trigger] old_apps[x].server_name@ != #[trigger] old_apps[y].server_name@,
        has_server(old_apps, b.server_name@) ==> exists|p: int| 0 <= p < old_apps.len()
            && old_apps[p].server_name@ == b.server_name@ && new_apps == old_apps.update(p, b),
        !has_server(old_apps, b.server_name@) ==> new_apps == old_apps.push(b),
    ensures
        registry_built(new_apps, s.subrange(0, i + 1)),
{
    let pre = s.subrange(0, i);
    let next = s.subrange(0, i + 1);
    assert forall|m: int| 0 <= m < next.len() implies has_server(new_apps, server_key(#[trigger] next[m].1)) by {
        if m == i {
            if has_server(old_apps, b.server_name@) {
                let p = choose|p: int| 0 <= p < old_apps.len()
                    && old_apps[p].server_name@ == b.server_name@ && new_apps == old_apps.update(p, b);
                assert(new_apps[p] == b);
            } else {
                assert(new_apps[old_apps.len() as int] == b);
            }
        } else {
            assert(pre[m] == next[m]);
            let q = choose|q: int| 0 <= q < old_apps.len() && #[trigger] old_apps[q].server_name@ == server_key(pre[m].1);
            if has_server(old_apps, b.server_name@) {
                let p = choose|p: int| 0 <= p < old_apps.len()
                    && old_apps[p].server_name@ == b.server_name@ && new_apps == old_apps.update(p, b);
                assert(new_apps[q].server_name@ == old_apps[q].server_name@);
            } else {
                assert(new_apps[q] == old_apps[q]);
            }
        }
    }
    assert forall|k: int| 0 <= k < new_apps.len() implies exists|m: int|
        0 <= m < next.len() && backend_built(#[trigger] new_apps[k], next[m]) && forall|j: int|
            m < j < next.len() ==> server_key(#[trigger] next[j].1) != new_apps[k].server_name@ by {
        if new_apps[k] == b && (k == old_apps.len() || (k < old_apps.len() && old_apps[k].server_name@ == b.server_name@)) {
            assert(next[i] == s[i]);
            assert(backend_built(new_apps[k], next[i]));
        } else {
            assert(k < old_apps.len());
            assert(new_apps[k] == old_apps[k]) by {
                if has_server(old_apps, b.server_name@) {
                    let p = choose|p: int| 0 <= p < old_apps.len()
                        && old_apps[p].server_name@ == b.server_name@ && new_apps == old_apps.update(p, b);
                    if k == p {
                        assert(new_apps[k] == b);
                    }
                }
            }
            assert(old_apps[k].server_name@ != b.server_name@) by {
                if old_apps[k].server_name@ == b.server_name@ {
                    let p = choose|p: int| 0 <= p < old_apps.len()
                        && old_apps[p].server_name@ == b.server_name@ && new_apps == old_apps.update(p, b);
                    assert(p == k);
                }
            }
            let m = choose|m: int|
                0 <= m < pre.len() && backend_built(#[trigger] old_apps[k], pre[m]) && forall|j: int|
                    m < j < pre.len() ==> server_key(#[trigger] pre[j].1) != old_apps[k].server_name@;
            assert(next[m] == pre[m]);
            assert forall|j: int| m < j < next.len() implies server_key(#[trigger] next[j].1) != new_apps[k].server_name@ by {
                if j < i {
                    assert(next[j] == pre[j]);
                } else {
                    assert(next[j] == s[i]);
                }
            }
        }
    }
}

/// A configuration whose plaintext and TLS ports are equal is refused with
/// `PortConflict`.
pub proof fn lemma_equal_ports_refused(c: ConfigToml)
    requires
        c.listen_port is Some,
        c.listen_port == c.listen_port_tls,
    ensures
        config_error(c) == Some(ConfigError::PortConflict),
{
}

/// With only the TLS port enabled, a tenant without a TLS block is refused
/// with `TlsRequiredButAbsent`; the same tenant with a complete TLS block is
/// accepted, provided its other parts (server name, reverse-proxy entries)
/// are valid.
pub proof fn lemma_tls_coherence(a: Application, t: TlsOption, https: u16)
    requires
        a.server_name matches Some(sn) && sn@.len() > 0,
        a.tls is None,
        t.tls_cert_path is Some,
        t.tls_cert_key_path is Some,
        rp_error(entries_of(a)) is None,
    ensures
        app_error(a, None, Some(https)) == Some(ConfigError::TlsRequiredButAbsent),
        app_error(Application { tls: Some(t), ..a }, None, Some(https)) is None,
{
    let b = Application { tls: Some(t), ..a };
    assert(entries_of(b) == entries_of(a));
}

} // verus!
