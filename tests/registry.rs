use rpxy_core::backend::{consistent, forwarded_path, BackendRegistry};
use rpxy_core::bytes::to_lower;
use rpxy_core::config::{
    get_reverse_proxy, parse_opts, Application, ConfigError, ConfigToml, Experimental, Http3Option, ListenSocket,
    ReverseProxyOption, TlsOption, UpstreamParams, H3_ALT_SVC_MAX_AGE, MAX_CLIENTS, MAX_CONCURRENT_STREAMS,
};
use rpxy_core::upstream::{parse_options, LoadBalance, Scheme, Upstream, UpstreamGroup, UpstreamOption, UpstreamOptions};

fn b(s: &str) -> Vec<u8> {
    s.as_bytes().to_vec()
}

fn entry(path: Option<&str>, ups: &[&str]) -> ReverseProxyOption {
    ReverseProxyOption {
        path: path.map(b),
        replace_path: None,
        upstream: ups.iter().map(|u| UpstreamParams { location: b(u), tls: None }).collect(),
        upstream_options: None,
    }
}

fn app(server_name: &str, entries: Vec<ReverseProxyOption>) -> Application {
    Application { server_name: Some(b(server_name)), reverse_proxy: Some(entries), tls: None }
}

fn full_tls() -> TlsOption {
    TlsOption { tls_cert_path: Some(b("cert.pem")), tls_cert_key_path: Some(b("key.pem")), https_redirection: None }
}

fn config(http: Option<u16>, https: Option<u16>, apps: Vec<(&str, Application)>) -> ConfigToml {
    ConfigToml {
        listen_port: http,
        listen_port_tls: https,
        listen_ipv6: None,
        max_clients: None,
        max_concurrent_streams: None,
        default_app: None,
        apps: Some(apps.into_iter().map(|(n, a)| (b(n), a)).collect()),
        experimental: None,
    }
}

fn simple_app() -> Application {
    app("a.example", vec![entry(None, &["127.0.0.1:8080"])])
}

fn group(n: usize, opts: UpstreamOptions) -> UpstreamGroup {
    let ups = (0..n).map(|i| Upstream::new(b(&format!("10.0.0.{}:80", i)), None)).collect();
    UpstreamGroup::new(b("/"), ups, None, opts)
}

#[test]
fn equal_ports_are_refused() {
    let c = config(Some(8080), Some(8080), vec![("app1", simple_app())]);
    assert_eq!(parse_opts(&c).err(), Some(ConfigError::PortConflict));
}

#[test]
fn missing_ports_are_refused() {
    let c = config(None, None, vec![("app1", simple_app())]);
    assert_eq!(parse_opts(&c).err(), Some(ConfigError::PortConflict));
}

#[test]
fn port_check_comes_before_apps() {
    let mut c = config(Some(80), Some(80), vec![]);
    c.apps = None;
    assert_eq!(parse_opts(&c).err(), Some(ConfigError::PortConflict));
}

#[test]
fn missing_or_empty_apps_are_refused() {
    let mut c = config(Some(8080), None, vec![]);
    assert_eq!(parse_opts(&c).err(), Some(ConfigError::MissingApplicationSpec));
    c.apps = None;
    assert_eq!(parse_opts(&c).err(), Some(ConfigError::MissingApplicationSpec));
}

#[test]
fn missing_or_empty_server_name_is_refused() {
    let mut a = simple_app();
    a.server_name = None;
    let c = config(Some(8080), None, vec![("app1", a.clone())]);
    assert_eq!(parse_opts(&c).err(), Some(ConfigError::MissingServerName));
    a.server_name = Some(vec![]);
    let c = config(Some(8080), None, vec![("app1", a)]);
    assert_eq!(parse_opts(&c).err(), Some(ConfigError::MissingServerName));
}

#[test]
fn tls_port_only_requires_tls_block() {
    let c = config(None, Some(8443), vec![("app1", simple_app())]);
    assert_eq!(parse_opts(&c).err(), Some(ConfigError::TlsRequiredButAbsent));
    let mut a = simple_app();
    a.tls = Some(full_tls());
    let c = config(None, Some(8443), vec![("app1", a)]);
    let g = parse_opts(&c).unwrap();
    assert_eq!(g.backends.apps.len(), 1);
    assert_eq!(g.backends.apps[0].https_redirection, Some(true));
    assert_eq!(g.backends.apps[0].tls_cert_path, Some(b("cert.pem")));
    assert_eq!(g.backends.apps[0].tls_cert_key_path, Some(b("key.pem")));
}

#[test]
fn incomplete_tls_material_is_refused() {
    let mut a = simple_app();
    a.tls = Some(TlsOption { tls_cert_path: Some(b("cert.pem")), tls_cert_key_path: None, https_redirection: None });
    let c = config(Some(8080), Some(8443), vec![("app1", a)]);
    assert_eq!(parse_opts(&c).err(), Some(ConfigError::TlsMaterialIncomplete));
}

#[test]
fn https_redirection_needs_tls_port() {
    let mut a = simple_app();
    let mut t = full_tls();
    t.https_redirection = Some(false);
    a.tls = Some(t);
    let c = config(Some(8080), None, vec![("app1", a.clone())]);
    assert_eq!(parse_opts(&c).err(), Some(ConfigError::HttpsRedirectionWithoutTlsPort));
    let c = config(Some(8080), Some(8443), vec![("app1", a)]);
    assert_eq!(parse_opts(&c).unwrap().backends.apps[0].https_redirection, Some(false));
}

#[test]
fn plaintext_tenant_has_no_redirection() {
    let c = config(Some(8080), Some(8443), vec![("app1", simple_app())]);
    let g = parse_opts(&c).unwrap();
    assert_eq!(g.backends.apps[0].https_redirection, None);
    assert_eq!(g.backends.apps[0].tls_cert_path, None);
}

#[test]
fn missing_reverse_proxy_is_refused() {
    let mut a = simple_app();
    a.reverse_proxy = None;
    let c = config(Some(8080), None, vec![("app1", a.clone())]);
    assert_eq!(parse_opts(&c).err(), Some(ConfigError::MissingReverseProxySpec));
    a.reverse_proxy = Some(vec![]);
    let c = config(Some(8080), None, vec![("app1", a)]);
    assert_eq!(parse_opts(&c).err(), Some(ConfigError::MissingReverseProxySpec));
}

#[test]
fn entry_without_upstream_is_refused() {
    let r = get_reverse_proxy(&[entry(Some("/api"), &[])]);
    assert_eq!(r.err(), Some(ConfigError::MissingUpstream));
}

#[test]
fn two_default_entries_are_refused() {
    let a = app("a.example", vec![entry(None, &["127.0.0.1:1"]), entry(None, &["127.0.0.1:2"])]);
    let c = config(Some(8080), None, vec![("app1", a)]);
    assert_eq!(parse_opts(&c).err(), Some(ConfigError::DuplicateDefaultPath));
}

#[test]
fn one_default_entry_becomes_root_group() {
    let rp = get_reverse_proxy(&[entry(Some("/API"), &["127.0.0.1:1"]), entry(None, &["127.0.0.1:2"])]).unwrap();
    assert_eq!(rp.upstream.len(), 2);
    assert_eq!(rp.upstream[0].path, b("/api"));
    assert_eq!(rp.upstream[1].path, b("/"));
    assert_eq!(rp.upstream[1].upstreams[0].address, b("127.0.0.1:2"));
}

#[test]
fn duplicate_paths_are_refused() {
    let r = get_reverse_proxy(&[entry(Some("/api"), &["127.0.0.1:1"]), entry(Some("/API"), &["127.0.0.1:2"])]);
    assert_eq!(r.err(), Some(ConfigError::DuplicatePath));
    let r = get_reverse_proxy(&[entry(Some("/"), &["127.0.0.1:1"]), entry(None, &["127.0.0.1:2"])]);
    assert_eq!(r.err(), Some(ConfigError::DuplicatePath));
}

#[test]
fn first_failing_tenant_decides() {
    let mut bad = simple_app();
    bad.reverse_proxy = None;
    let mut worse = simple_app();
    worse.server_name = None;
    let c = config(Some(8080), None, vec![("app1", bad), ("app2", worse)]);
    assert_eq!(parse_opts(&c).err(), Some(ConfigError::MissingReverseProxySpec));
}

#[test]
fn longest_prefix_routing() {
    let a = app(
        "a.example",
        vec![entry(None, &["10.0.0.1:80"]), entry(Some("/api"), &["10.0.0.2:80"]), entry(Some("/api/v2"), &["10.0.0.3:80"])],
    );
    let c = config(Some(8080), None, vec![("app1", a)]);
    let g = parse_opts(&c).unwrap();
    let be = g.backends.resolve(b"a.example").unwrap();
    assert_eq!(be.route(b"/api/v2/x").unwrap().path, b("/api/v2"));
    assert_eq!(be.route(b"/api/x").unwrap().path, b("/api"));
    assert_eq!(be.route(b"/other").unwrap().path, b("/"));
    assert_eq!(be.route(b"/API/V2/x").unwrap().path, b("/api/v2"));
}

#[test]
fn routing_without_match_gives_none() {
    let rp = get_reverse_proxy(&[entry(Some("/api"), &["10.0.0.2:80"])]).unwrap();
    assert!(rp.get_group(b"/other").is_none());
    assert_eq!(rp.route_index(b"/api/x"), Some(0));
}

#[test]
fn replace_path_rewrites_prefix() {
    let mut e = entry(Some("/old"), &["10.0.0.2:80"]);
    e.replace_path = Some(b("/New"));
    let rp = get_reverse_proxy(&[e]).unwrap();
    let g = rp.get_group(b"/old/page").unwrap();
    assert_eq!(g.replace_path, Some(b("/new")));
    assert_eq!(forwarded_path(g, b"/old/page"), b("/new/page"));
    let plain = get_reverse_proxy(&[entry(Some("/x"), &["10.0.0.2:80"])]).unwrap();
    assert_eq!(forwarded_path(&plain.upstream[0], b"/x/y"), b("/x/y"));
}

#[test]
fn round_robin_visits_each_in_order() {
    let g = group(3, UpstreamOptions::empty());
    assert_eq!(g.lb, LoadBalance::RoundRobin);
    let picks: Vec<usize> = (0..4).map(|_| g.select_index(0, 0)).collect();
    assert_eq!(picks, vec![0, 1, 2, 0]);
    let next = g.select(0, b"");
    assert_eq!(next.address, b("10.0.0.1:80"));
}

#[test]
fn round_robin_stays_in_bounds() {
    let g = std::sync::Arc::new(group(5, UpstreamOptions::empty()));
    let shared = g.clone();
    assert!((0..1000).all(|_| shared.select_index(0, 0) < 5 && g.select_index(0, 0) < 5));
    g.cnt.store(usize::MAX, std::sync::atomic::Ordering::Relaxed);
    assert_eq!(g.select_index(0, 0), usize::MAX % 5);
    assert_eq!(g.select_index(0, 0), 0);
}

#[test]
fn single_upstream_short_circuits() {
    let mut o = UpstreamOptions::empty();
    o.lb_random = true;
    let g = group(1, o);
    assert_eq!(g.select_index(7, 9), 0);
}

#[test]
fn random_policy_reduces_draw() {
    let mut o = UpstreamOptions::empty();
    o.lb_random = true;
    let g = group(4, o);
    assert_eq!(g.lb, LoadBalance::Random);
    assert_eq!(g.select_index(10, 0), 2);
    assert_eq!(g.select(7, b"").address, b("10.0.0.3:80"));
}

#[test]
fn sticky_policy_follows_key() {
    let mut o = UpstreamOptions::empty();
    o.lb_sticky = true;
    o.lb_random = true;
    let g = group(4, o);
    assert_eq!(g.lb, LoadBalance::Sticky);
    assert_eq!(g.select_index(0, 13), 1);
    let first = g.select(0, b"192.0.2.7").address.clone();
    for _ in 0..5 {
        assert_eq!(g.select(0, b"192.0.2.7").address, first);
    }
    let h = rpxy_core::upstream::affinity_hash(b"192.0.2.7");
    assert_eq!(b(&format!("10.0.0.{}:80", h % 4)), first);
    assert_ne!(h, 0);
}

#[test]
fn unknown_options_are_dropped() {
    let o = parse_options(&vec![b("foo"), b("preserve-host")]);
    assert!(o.contains(UpstreamOption::PreserveHost));
    assert!(!o.contains(UpstreamOption::ForceHttps));
    assert!(!o.contains(UpstreamOption::LbRandom));
    assert!(!o.contains(UpstreamOption::LbSticky));
    let o = parse_options(&vec![b("force-https"), b("lb-sticky"), b("lb-random")]);
    assert!(o.force_https && o.lb_sticky && o.lb_random && !o.preserve_host);
}

#[test]
fn upstream_scheme_follows_tls_flag() {
    assert_eq!(Upstream::new(b("h:1"), Some(true)).scheme, Scheme::Https);
    assert_eq!(Upstream::new(b("h:1"), Some(false)).scheme, Scheme::Http);
    assert_eq!(Upstream::new(b("h:1"), None).scheme, Scheme::Http);
}

#[test]
fn sni_consistency_comparison() {
    assert!(!consistent(b"a.com", b"b.com"));
    assert!(consistent(b"a.com", b"a.com"));
    assert!(consistent(b"A.com", b"a.COM"));
}

#[test]
fn sni_consistency_toggle() {
    let mut c = config(Some(8080), None, vec![("app1", simple_app())]);
    let g = parse_opts(&c).unwrap();
    assert!(g.sni_consistency);
    assert!(!g.sni_allows(b"a.com", b"b.com"));
    assert!(g.sni_allows(b"a.com", b"a.com"));
    c.experimental = Some(Experimental { h3: None, ignore_sni_consistency: Some(true) });
    let g = parse_opts(&c).unwrap();
    assert!(!g.sni_consistency);
    assert!(g.sni_allows(b"a.com", b"b.com"));
    c.experimental = Some(Experimental { h3: None, ignore_sni_consistency: Some(false) });
    assert!(parse_opts(&c).unwrap().sni_consistency);
}

#[test]
fn default_app_fallback() {
    let mut c = config(Some(8080), None, vec![("app1", simple_app())]);
    c.default_app = Some(b("app1"));
    let g = parse_opts(&c).unwrap();
    assert_eq!(g.backends.default_server_name, Some(b("a.example")));
    assert_eq!(g.backends.resolve(b"unknown.example").unwrap().server_name, b("a.example"));
    c.default_app = Some(b("nonexistent"));
    let g = parse_opts(&c).unwrap();
    assert_eq!(g.backends.default_server_name, None);
    assert!(g.backends.resolve(b"unknown.example").is_none());
    assert_eq!(g.backends.resolve(b"A.Example").unwrap().app_name, b("app1"));
}

#[test]
fn later_tenant_with_same_server_name_wins() {
    let c = config(
        Some(8080),
        None,
        vec![("first", app("Same.example", vec![entry(None, &["h:1"])])), ("second", app("same.example", vec![entry(None, &["h:2"])]))],
    );
    let g = parse_opts(&c).unwrap();
    assert_eq!(g.backends.apps.len(), 1);
    assert_eq!(g.backends.apps[0].app_name, b("second"));
    assert_eq!(g.backends.apps[0].server_name, b("same.example"));
}

#[test]
fn listen_settings_and_defaults() {
    let mut c = config(Some(8080), Some(8443), vec![("app1", simple_app())]);
    let g = parse_opts(&c).unwrap();
    assert_eq!(
        g.listen_sockets,
        vec![ListenSocket { ipv6: false, port: 8080 }, ListenSocket { ipv6: false, port: 8443 }]
    );
    assert_eq!(g.max_clients, MAX_CLIENTS);
    assert_eq!(g.max_concurrent_streams, MAX_CONCURRENT_STREAMS);
    assert_eq!(g.http3, None);
    c.listen_ipv6 = Some(true);
    c.max_clients = Some(10);
    c.max_concurrent_streams = Some(5);
    c.experimental = Some(Experimental {
        h3: Some(Http3Option {
            alt_svc_max_age: None,
            request_max_body_size: Some(1024),
            max_concurrent_connections: None,
            max_concurrent_bidistream: None,
            max_concurrent_unistream: None,
        }),
        ignore_sni_consistency: None,
    });
    let g = parse_opts(&c).unwrap();
    assert_eq!(g.listen_sockets[0], ListenSocket { ipv6: true, port: 8080 });
    assert_eq!(g.max_clients, 10);
    assert_eq!(g.max_concurrent_streams, 5);
    let h3 = g.http3.unwrap();
    assert_eq!(h3.request_max_body_size, 1024);
    assert_eq!(h3.alt_svc_max_age, H3_ALT_SVC_MAX_AGE);
}

#[test]
fn registry_insert_replaces_same_name() {
    let mut reg = BackendRegistry::new();
    let c = config(Some(8080), None, vec![("app1", simple_app())]);
    let g = parse_opts(&c).unwrap();
    assert!(reg.find(b"a.example").is_none());
    for be in g.backends.apps {
        reg.insert(be);
    }
    assert_eq!(reg.find(b"a.example"), Some(0));
}

#[test]
fn lowercase_is_ascii_only() {
    assert_eq!(to_lower(b"AbC-/Z\xc3\x89"), b"abc-/z\xc3\x89".to_vec());
}

#[test]
fn round_robin_index_follows_cursor() {
    let g = group(3, UpstreamOptions::empty());
    let picks: Vec<usize> = (0..7).map(|c| g.select_index_at(c, 0, 0)).collect();
    assert_eq!(picks, vec![0, 1, 2, 0, 1, 2, 0]);
    assert_eq!(g.select_index_at(usize::MAX, 0, 0), usize::MAX % 3);
    let mut o = UpstreamOptions::empty();
    o.lb_random = true;
    let r = group(4, o);
    assert_eq!(r.select_index_at(1, 10, 0), 2);
    assert_eq!(group(1, UpstreamOptions::empty()).select_index_at(5, 0, 0), 0);
}

#[test]
fn empty_entry_list_is_refused() {
    assert_eq!(get_reverse_proxy(&[]).err(), Some(ConfigError::MissingReverseProxySpec));
}

#[test]
fn reverse_proxy_presence_checked_before_tls() {
    let mut a = simple_app();
    a.reverse_proxy = None;
    let c = config(None, Some(8443), vec![("app1", a)]);
    assert_eq!(parse_opts(&c).err(), Some(ConfigError::MissingReverseProxySpec));
}
