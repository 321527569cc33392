use crate::bytes::{bytes_eq, copy_bytes, eq_ignore_case, is_prefix, lower, starts_with, to_lower};
use crate::upstream::UpstreamGroup;
use vstd::prelude::*;

verus! {

/// The upstream groups of one tenant, keyed by their path prefix.
#[derive(Debug)]
pub struct ReverseProxy {
    pub upstream: Vec<UpstreamGroup>,
}

/// The key of group `i` is a prefix of `p`.
pub open spec fn group_matches(gs: Seq<UpstreamGroup>, i: int, p: Seq<u8>) -> bool {
    is_prefix(gs[i].path@, p)
}

/// Group `i` matches `p` and no matching group has a longer key.
pub open spec fn longest_match(gs: Seq<UpstreamGroup>, i: int, p: Seq<u8>) -> bool {
    0 <= i < gs.len() && group_matches(gs, i, p) && forall|j: int|
        0 <= j < gs.len() && #[trigger] group_matches(gs, j, p) ==> gs[j].path@.len() <= gs[i].path@.len()
}

/// The path a request is forwarded with: the matched prefix of `path`, of
/// length `n`, replaced by `rp` when the group has one.
pub open spec fn forwarded(path: Seq<u8>, n: int, rp: Option<Seq<u8>>) -> Seq<u8> {
    match rp {
        Some(r) => r + path.subrange(n, path.len() as int),
        None => path,
    }
}

impl ReverseProxy {
    /// No two groups share a key.
    pub open spec fn keys_unique(&self) -> bool {
        forall|i: int, j: int|
            0 <= i < self.upstream@.len() && 0 <= j < self.upstream@.len() && i != j
                ==> #[trigger] self.upstream@[i].path@ != #[trigger] self.upstream@[j].path@
    }

    pub open spec fn wf(&self) -> bool {
        &&& self.keys_unique()
        &&& forall|i: int| 0 <= i < self.upstream@.len() ==> #[trigger] self.upstream@[i].wf()
    }

    /// Index of the group whose key is the longest prefix of the lowercased
    /// request path; `None` when no key is a prefix of it.
    pub fn route_index(&self, path: &[u8]) -> (r: Option<usize>)
        ensures
            r matches Some(i) ==> longest_match(self.upstream@, i as int, lower(path@)),
            r is None ==> forall|j: int| 0 <= j < self.upstream@.len() ==> !#[trigger] group_matches(self.upstream@, j, lower(path@)),
    {
        let lc = to_lower(path);
        let mut best: Option<usize> = None;
        let mut k: usize = 0;
        while k < self.upstream.len()
            invariant
                k <= self.upstream@.len(),
                lc@ == lower(path@),
                best matches Some(i) ==> i < k && group_matches(self.upstream@, i as int, lc@),
                best matches Some(i) ==> forall|j: int| 0 <= j < k && #[trigger] group_matches(self.upstream@, j, lc@)
                    ==> self.upstream@[j].path@.len() <= self.upstream@[i as int].path@.len(),
                best is None ==> forall|j: int| 0 <= j < k ==> !#[trigger] group_matches(self.upstream@, j, lc@),
            decreases self.upstream@.len() - k,
        {
            let g = &self.upstream[k];
            if starts_with(lc.as_slice(), g.path.as_slice()) {
                match best {
                    None => {
                        best = Some(k);
                    },
                    Some(b) => {
                        if g.path.len() > self.upstream[b].path.len() {
                            best = Some(k);
                        }
                    },
                }
            }
            k = k + 1;
        }
        best
    }

    /// The group a request path routes to.
    pub fn get_group(&self, path: &[u8]) -> (r: Option<&UpstreamGroup>)
        ensures
            r matches Some(g) ==> exists|i: int| longest_match(self.upstream@, i, lower(path@)) && g == &self.upstream@[i],
            r is None ==> forall|j: int| 0 <= j < self.upstream@.len() ==> !#[trigger] group_matches(self.upstream@, j, lower(path@)),
    {
        match self.route_index(path) {
            Some(i) => Some(&self.upstream[i]),
            None => None,
        }
    }
}

/// The path forwarded for `path` once it routed to `g`.
pub fn forwarded_path(g: &UpstreamGroup, path: &[u8]) -> (r: Vec<u8>)
    requires
        g.path@.len() <= path@.len(),
    ensures
        r@ == forwarded(path@, g.path@.len() as int, match g.replace_path {
            Some(v) => Some(v@),
            None => None,
        }),
{
    match &g.replace_path {
        Some(rp) => {
            let mut r = copy_bytes(rp.as_slice());
            let n = g.path.len();
            let mut j: usize = n;
            while j < path.len()
                invariant
                    n <= j <= path@.len(),
                    r@ == rp@ + path@.subrange(n as int, j as int),
                decreases path@.len() - j,
            {
                r.push(path[j]);
                j = j + 1;
                assert(r@ =~= rp@ + path@.subrange(n as int, j as int));
            }
            r
        },
        None => copy_bytes(path),
    }
}

/// Case-insensitive equality of the TLS server name and the Host header.
pub fn consistent(sni: &[u8], host: &[u8]) -> (r: bool)
    ensures
        r == (lower(sni@) == lower(host@)),
{
    eq_ignore_case(sni, host)
}

/// One tenant application.
#[derive(Debug)]
pub struct Backend {
    pub app_name: Vec<u8>,
    /// Lowercased server name.
    pub server_name: Vec<u8>,
    pub reverse_proxy: ReverseProxy,
    pub tls_cert_path: Option<Vec<u8>>,
    pub tls_cert_key_path: Option<Vec<u8>>,
    pub https_redirection: Option<bool>,
}

impl Backend {
    pub open spec fn wf(&self) -> bool {
        self.reverse_proxy.wf()
    }

    /// The group a request path routes to.
    pub fn route(&self, path: &[u8]) -> (r: Option<&UpstreamGroup>)
        ensures
            r matches Some(g) ==> exists|i: int| longest_match(self.reverse_proxy.upstream@, i, lower(path@)) && g == &self.reverse_proxy.upstream@[i],
            r is None ==> forall|j: int| 0 <= j < self.reverse_proxy.upstream@.len() ==> !#[trigger] group_matches(self.reverse_proxy.upstream@, j, lower(path@)),
    {
        self.reverse_proxy.get_group(path)
    }
}

/// Some backend has server name `k`.
pub open spec fn has_server(apps: Seq<Backend>, k: Seq<u8>) -> bool {
    exists|i: int| 0 <= i < apps.len() && #[trigger] apps[i].server_name@ == k
}

/// All tenants, keyed by server name, with the fallback tenant.
#[derive(Debug)]
pub struct BackendRegistry {
    pub apps: Vec<Backend>,
    pub default_server_name: Option<Vec<u8>>,
}

impl BackendRegistry {
    /// No two backends share a server name.
    pub open spec fn names_unique(&self) -> bool {
        forall|i: int, j: int|
            0 <= i < self.apps@.len() && 0 <= j < self.apps@.len() && i != j
                ==> #[trigger] self.apps@[i].server_name@ != #[trigger] self.apps@[j].server_name@
    }

    pub open spec fn wf(&self) -> bool {
        &&& self.names_unique()
        &&& forall|i: int| 0 <= i < self.apps@.len() ==> #[trigger] self.apps@[i].wf()
        &&& self.default_server_name matches Some(d) ==> has_server(self.apps@, d@)
    }

    /// An empty registry without a fallback.
    pub fn new() -> (r: BackendRegistry)
        ensures
            r.wf(),
            r.apps@.len() == 0,
            r.default_server_name is None,
    {
        BackendRegistry { apps: Vec::new(), default_server_name: None }
    }

    /// Index of the backend registered under server name `k`, compared exactly.
    pub fn find(&self, k: &[u8]) -> (r: Option<usize>)
        ensures
            r matches Some(i) ==> i < self.apps@.len() && self.apps@[i as int].server_name@ == k@,
            r is None ==> !has_server(self.apps@, k@),
    {
        let mut i: usize = 0;
        while i < self.apps.len()
            invariant
                i <= self.apps@.len(),
                forall|j: int| 0 <= j < i ==> #[trigger] self.apps@[j].server_name@ != k@,
            decreases self.apps@.len() - i,
        {
            if bytes_eq(self.apps[i].server_name.as_slice(), k) {
                return Some(i);
            }
            i = i + 1;
        }
        None
    }

    /// Registers `b` under its server name, replacing a backend already
    /// registered there.
    pub fn insert(&mut self, b: Backend)
        requires
            old(self).wf(),
            b.wf(),
        ensures
            final(self).wf(),
            final(self).default_server_name == old(self).default_server_name,
            has_server(old(self).apps@, b.server_name@) ==> exists|i: int| 0 <= i < old(self).apps@.len()
                && old(self).apps@[i].server_name@ == b.server_name@ && final(self).apps@ == old(self).apps@.update(i, b),
            !has_server(old(self).apps@, b.server_name@) ==> final(self).apps@ == old(self).apps@.push(b),
    {
        let ghost b0 = b;
        match self.find(b.server_name.as_slice()) {
            Some(i) => {
                self.apps.set(i, b);
                assert(self.apps@[i as int].server_name@ == old(self).apps@[i as int].server_name@);
                assert forall|k: int| 0 <= k < self.apps@.len() implies #[trigger] self.apps@[k].server_name@ == old(self).apps@[k].server_name@ by {
                }
                if let Some(d) = &self.default_server_name {
                    let ghost j = choose|j: int| 0 <= j < old(self).apps@.len() && #[trigger] old(self).apps@[j].server_name@ == d@;
                    assert(self.apps@[j].server_name@ == d@);
                }
            },
            None => {
                self.apps.push(b);
                assert(self.apps@[old(self).apps@.len() as int] == b0);
                if let Some(d) = &self.default_server_name {
                    let ghost j = choose|j: int| 0 <= j < old(self).apps@.len() && #[trigger] old(self).apps@[j].server_name@ == d@;
                    assert(self.apps@[j] == old(self).apps@[j]);
                }
            },
        }
    }

    /// The backend for a server name, compared case-insensitively; where none
    /// is registered under it, the fallback backend if one is set.
    pub fn resolve_index(&self, server_name: &[u8]) -> (r: Option<usize>)
        requires
            self.wf(),
        ensures
            has_server(self.apps@, lower(server_name@)) ==> (r matches Some(i) && i < self.apps@.len()
                && self.apps@[i as int].server_name@ == lower(server_name@)),
            !has_server(self.apps@, lower(server_name@)) ==> match self.default_server_name {
                Some(d) => (r matches Some(i) && i < self.apps@.len() && self.apps@[i as int].server_name@ == d@),
                None => r is None,
            },
    {
        let lc = to_lower(server_name);
        match self.find(lc.as_slice()) {
            Some(i) => Some(i),
            None => match &self.default_server_name {
                Some(d) => self.find(d.as_slice()),
                None => None,
            },
        }
    }

    /// The backend a server name resolves to, as `resolve_index` picks it.
    pub fn resolve(&self, server_name: &[u8]) -> (r: Option<&Backend>)
        requires
            self.wf(),
        ensures
            has_server(self.apps@, lower(server_name@)) ==> (r matches Some(b) && b.server_name@ == lower(server_name@)),
            !has_server(self.apps@, lower(server_name@)) ==> match self.default_server_name {
                Some(d) => (r matches Some(b) && b.server_name@ == d@),
                None => r is None,
            },
            r matches Some(b) ==> exists|i: int| 0 <= i < self.apps@.len() && b == &self.apps@[i],
    {
        match self.resolve_index(server_name) {
            Some(i) => Some(&self.apps[i]),
            None => None,
        }
    }
}

} // verus!
