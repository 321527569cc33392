use crate::bytes::bytes_eq;
use std::hash::Hasher;
use std::sync::atomic::{AtomicUsize, Ordering};
use vstd::prelude::*;

verus! {

/// A behavioural flag of an upstream group.
#[derive(Clone, Copy, Debug, PartialEq, Eq, Structural)]
pub enum UpstreamOption {
    /// Forward the client's Host header unchanged.
    PreserveHost,
    /// Talk to the upstream over HTTPS.
    ForceHttps,
    /// Pick upstreams uniformly at random.
    LbRandom,
    /// Pick upstreams by a hash of the client's affinity key.
    LbSticky,
}

/// The token `preserve-host`.
pub open spec fn preserve_host_token() -> Seq<u8> {
    seq![112u8, 114u8, 101u8, 115u8, 101u8, 114u8, 118u8, 101u8, 45u8, 104u8, 111u8, 115u8, 116u8]
}

fn preserve_host_bytes() -> (r: Vec<u8>)
    ensures
        r@ == preserve_host_token(),
{
    let r: Vec<u8> = vec![112u8, 114u8, 101u8, 115u8, 101u8, 114u8, 118u8, 101u8, 45u8, 104u8, 111u8, 115u8, 116u8];
    assert(r@ =~= preserve_host_token());
    r
}

/// The token `force-https`.
pub open spec fn force_https_token() -> Seq<u8> {
    seq![102u8, 111u8, 114u8, 99u8, 101u8, 45u8, 104u8, 116u8, 116u8, 112u8, 115u8]
}

fn force_https_bytes() -> (r: Vec<u8>)
    ensures
        r@ == force_https_token(),
{
    let r: Vec<u8> = vec![102u8, 111u8, 114u8, 99u8, 101u8, 45u8, 104u8, 116u8, 116u8, 112u8, 115u8];
    assert(r@ =~= force_https_token());
    r
}

/// The token `lb-random`.
pub open spec fn lb_random_token() -> Seq<u8> {
    seq![108u8, 98u8, 45u8, 114u8, 97u8, 110u8, 100u8, 111u8, 109u8]
}

fn lb_random_bytes() -> (r: Vec<u8>)
    ensures
        r@ == lb_random_token(),
{
    let r: Vec<u8> = vec![108u8, 98u8, 45u8, 114u8, 97u8, 110u8, 100u8, 111u8, 109u8];
    assert(r@ =~= lb_random_token());
    r
}

/// The token `lb-sticky`.
pub open spec fn lb_sticky_token() -> Seq<u8> {
    seq![108u8, 98u8, 45u8, 115u8, 116u8, 105u8, 99u8, 107u8, 121u8]
}

fn lb_sticky_bytes() -> (r: Vec<u8>)
    ensures
        r@ == lb_sticky_token(),
{
    let r: Vec<u8> = vec![108u8, 98u8, 45u8, 115u8, 116u8, 105u8, 99u8, 107u8, 121u8];
    assert(r@ =~= lb_sticky_token());
    r
}

/// The option that a configuration token names, if any.
pub open spec fn option_of(t: Seq<u8>) -> Option<UpstreamOption> {
    if t == preserve_host_token() {
        Some(UpstreamOption::PreserveHost)
    } else if t == force_https_token() {
        Some(UpstreamOption::ForceHttps)
    } else if t == lb_random_token() {
        Some(UpstreamOption::LbRandom)
    } else if t == lb_sticky_token() {
        Some(UpstreamOption::LbSticky)
    } else {
        None
    }
}

/// Reads one option token; unknown tokens give `None`.
pub fn parse_option(t: &[u8]) -> (r: Option<UpstreamOption>)
    ensures
        r == option_of(t@),
{
    if bytes_eq(t, preserve_host_bytes().as_slice()) {
        Some(UpstreamOption::PreserveHost)
    } else if bytes_eq(t, force_https_bytes().as_slice()) {
        Some(UpstreamOption::ForceHttps)
    } else if bytes_eq(t, lb_random_bytes().as_slice()) {
        Some(UpstreamOption::LbRandom)
    } else if bytes_eq(t, lb_sticky_bytes().as_slice()) {
        Some(UpstreamOption::LbSticky)
    } else {
        None
    }
}

/// A set of upstream options, one flag per member of the closed set.
#[derive(Clone, Copy, Debug, PartialEq, Eq, Structural)]
pub struct UpstreamOptions {
    pub preserve_host: bool,
    pub force_https: bool,
    pub lb_random: bool,
    pub lb_sticky: bool,
}

impl UpstreamOptions {
    pub open spec fn has(self, o: UpstreamOption) -> bool {
        match o {
            UpstreamOption::PreserveHost => self.preserve_host,
            UpstreamOption::ForceHttps => self.force_https,
            UpstreamOption::LbRandom => self.lb_random,
            UpstreamOption::LbSticky => self.lb_sticky,
        }
    }

    /// The empty set.
    pub fn empty() -> (r: UpstreamOptions)
        ensures
            forall|o: UpstreamOption| !r.has(o),
    {
        UpstreamOptions { preserve_host: false, force_https: false, lb_random: false, lb_sticky: false }
    }

    /// Whether `o` is in the set.
    pub fn contains(&self, o: UpstreamOption) -> (r: bool)
        ensures
            r == self.has(o),
    {
        match o {
            UpstreamOption::PreserveHost => self.preserve_host,
            UpstreamOption::ForceHttps => self.force_https,
            UpstreamOption::LbRandom => self.lb_random,
            UpstreamOption::LbSticky => self.lb_sticky,
        }
    }
}

/// Some token of `ts` names option `o`.
pub open spec fn names_option(ts: Seq<Vec<u8>>, o: UpstreamOption) -> bool {
    exists|i: int| 0 <= i < ts.len() && option_of(#[trigger] ts[i]@) == Some(o)
}

/// Reads a list of option tokens into a set. Unknown tokens are dropped, so
/// this never fails.
pub fn parse_options(ts: &Vec<Vec<u8>>) -> (r: UpstreamOptions)
    ensures
        forall|o: UpstreamOption| #[trigger] r.has(o) == names_option(ts@, o),
{
    let mut r = UpstreamOptions::empty();
    let mut i: usize = 0;
    while i < ts.len()
        invariant
            i <= ts@.len(),
            forall|o: UpstreamOption| #[trigger] r.has(o) == names_option(ts@.subrange(0, i as int), o),
        decreases ts@.len() - i,
    {
        let p = parse_option(ts[i].as_slice());
        proof {
            let pre = ts@.subrange(0, i as int);
            let next = ts@.subrange(0, i + 1);
            assert forall|o: UpstreamOption| names_option(next, o) == (names_option(pre, o) || p == Some(o)) by {
                if names_option(next, o) {
                    let j = choose|j: int| 0 <= j < next.len() && option_of(#[trigger] next[j]@) == Some(o);
                    if j < i {
                        assert(pre[j] == next[j]);
                    }
                }
                if names_option(pre, o) {
                    let j = choose|j: int| 0 <= j < pre.len() && option_of(#[trigger] pre[j]@) == Some(o);
                    assert(pre[j] == next[j]);
                }
                if p == Some(o) {
                    assert(next[i as int] == ts@[i as int]);
                }
            }
        }
        let ghost r0 = r;
        match p {
            Some(UpstreamOption::PreserveHost) => { r.preserve_host = true; },
            Some(UpstreamOption::ForceHttps) => { r.force_https = true; },
            Some(UpstreamOption::LbRandom) => { r.lb_random = true; },
            Some(UpstreamOption::LbSticky) => { r.lb_sticky = true; },
            None => {},
        }
        assert forall|o: UpstreamOption| #[trigger] r.has(o) == (r0.has(o) || p == Some(o)) by {
            match o {
                UpstreamOption::PreserveHost => {},
                UpstreamOption::ForceHttps => {},
                UpstreamOption::LbRandom => {},
                UpstreamOption::LbSticky => {},
            }
        }
        i = i + 1;
    }
    assert(ts@.subrange(0, ts@.len() as int) =~= ts@);
    r
}

/// How an upstream is reached.
#[derive(Clone, Copy, Debug, PartialEq, Eq, Structural)]
pub enum Scheme {
    Http,
    Https,
}

/// One backend destination.
#[derive(Clone, Debug)]
pub struct Upstream {
    /// `host:port`, as configured.
    pub address: Vec<u8>,
    pub scheme: Scheme,
}

/// The scheme an upstream entry asks for: HTTPS only when `tls` is `Some(true)`.
pub open spec fn scheme_of(tls: Option<bool>) -> Scheme {
    if tls == Some(true) {
        Scheme::Https
    } else {
        Scheme::Http
    }
}

impl Upstream {
    /// Builds an upstream from its address and its optional TLS flag.
    pub fn new(address: Vec<u8>, tls: Option<bool>) -> (r: Upstream)
        ensures
            r.address@ == address@,
            r.scheme == scheme_of(tls),
    {
        let scheme = match tls {
            Some(true) => Scheme::Https,
            _ => Scheme::Http,
        };
        Upstream { address, scheme }
    }
}

/// Load-balancing policy of a group.
#[derive(Clone, Copy, Debug, PartialEq, Eq, Structural)]
pub enum LoadBalance {
    RoundRobin,
    Random,
    Sticky,
}

/// The policy an option set selects: sticky over random over round robin.
pub open spec fn policy_of(o: UpstreamOptions) -> LoadBalance {
    if o.lb_sticky {
        LoadBalance::Sticky
    } else if o.lb_random {
        LoadBalance::Random
    } else {
        LoadBalance::RoundRobin
    }
}

/// Reads the policy out of an option set.
pub fn load_balance_of(o: &UpstreamOptions) -> (r: LoadBalance)
    ensures
        r == policy_of(*o),
{
    if o.lb_sticky {
        LoadBalance::Sticky
    } else if o.lb_random {
        LoadBalance::Random
    } else {
        LoadBalance::RoundRobin
    }
}

/// The index that round robin gives for cursor value `c` over `n` upstreams.
pub open spec fn round_robin_index(c: int, n: int) -> int {
    c % n
}

/// The index that a policy that reduces a number `x` gives over `n` upstreams.
pub open spec fn reduced_index(x: u64, n: int) -> int {
    x as int % n
}

/// Round robin visits every upstream once, in order, over `n` consecutive
/// cursor values from a fresh cursor, and the next value wraps to the first.
/// From any cursor value, `n` steps later the same upstream comes again.
pub proof fn lemma_round_robin_cycle(n: int)
    requires
        n >= 1,
    ensures
        forall|k: int| 0 <= k < n ==> #[trigger] round_robin_index(k, n) == k,
        round_robin_index(n, n) == 0,
        forall|c: int| c >= 0 ==> #[trigger] round_robin_index(c + n, n) == round_robin_index(c, n),
{
    assert forall|k: int| 0 <= k < n implies #[trigger] round_robin_index(k, n) == k by {
        vstd::arithmetic::div_mod::lemma_small_mod(k as nat, n as nat);
    }
    vstd::arithmetic::div_mod::lemma_mod_self_0(n);
    assert forall|c: int| c >= 0 implies #[trigger] round_robin_index(c + n, n) == round_robin_index(c, n) by {
        vstd::arithmetic::div_mod::lemma_mod_add_multiples_vanish(c, n);
    }
}

/// Every index that round robin gives lies in `[0, n)`, whatever the cursor.
pub proof fn lemma_round_robin_bounds(c: int, n: int)
    requires
        c >= 0,
        n >= 1,
    ensures
        0 <= round_robin_index(c, n) < n,
{
    vstd::arithmetic::div_mod::lemma_mod_bound(c, n);
}

/// Relies on rustc_hash::FxHasher: hashes the bytes of an affinity key. The
/// value depends on the machine's word size, so nothing is stated of it.
#[verifier::external_body]
fn fx_hash(key: &[u8]) -> (r: u64) {
    let mut h = rustc_hash::FxHasher::default();
    h.write(key);
    h.finish()
}

/// Hash of a client's affinity key, as the sticky policy uses it.
pub fn affinity_hash(key: &[u8]) -> (r: u64) {
    fx_hash(key)
}

/// An ordered set of upstreams under one path prefix, with the policy that
/// picks among them and the round-robin cursor.
#[derive(Debug)]
pub struct UpstreamGroup {
    /// Lowercased path prefix.
    pub path: Vec<u8>,
    pub upstreams: Vec<Upstream>,
    /// Lowercased replacement for the matched prefix.
    pub replace_path: Option<Vec<u8>>,
    pub opts: UpstreamOptions,
    pub lb: LoadBalance,
    /// Round-robin cursor, advanced on every selection.
    pub cnt: AtomicUsize,
}

impl UpstreamGroup {
    /// At least one upstream, and the policy is the one the options select.
    pub open spec fn wf(&self) -> bool {
        self.upstreams@.len() > 0 && self.lb == policy_of(self.opts)
    }

    /// A group with a fresh cursor.
    pub fn new(path: Vec<u8>, upstreams: Vec<Upstream>, replace_path: Option<Vec<u8>>, opts: UpstreamOptions) -> (r: UpstreamGroup)
        requires
            upstreams@.len() > 0,
        ensures
            r.wf(),
            r.path@ == path@,
            r.upstreams@ == upstreams@,
            r.replace_path == replace_path,
            r.opts == opts,
    {
        let lb = load_balance_of(&opts);
        UpstreamGroup { path, upstreams, replace_path, opts, lb, cnt: AtomicUsize::new(0) }
    }

    /// Number of upstreams.
    pub fn len(&self) -> (r: usize)
        ensures
            r == self.upstreams@.len(),
    {
        self.upstreams.len()
    }

    /// Reduces a number modulo `n`.
    fn reduce(x: u64, n: usize) -> (r: usize)
        requires
            n >= 1,
        ensures
            r == reduced_index(x, n as int),
            r < n,
    {
        let m: u64 = n as u64;
        let i: u64 = x % m;
        assert(i < n);
        i as usize
    }

    /// Index of the upstream to use at cursor value `cursor`. A group of one
    /// upstream gives it without consulting the policy; round robin takes
    /// `cursor` modulo the size; random takes `random` modulo the size;
    /// sticky takes `affinity` (a hash of the client's key) modulo the size.
    pub fn select_index_at(&self, cursor: usize, random: u64, affinity: u64) -> (r: usize)
        requires
            self.wf(),
        ensures
            r < self.upstreams@.len(),
            self.upstreams@.len() == 1 ==> r == 0,
            self.upstreams@.len() > 1 && self.lb == LoadBalance::RoundRobin ==> r == round_robin_index(cursor as int, self.upstreams@.len() as int),
            self.upstreams@.len() > 1 && self.lb == LoadBalance::Random ==> r == reduced_index(random, self.upstreams@.len() as int),
            self.upstreams@.len() > 1 && self.lb == LoadBalance::Sticky ==> r == reduced_index(affinity, self.upstreams@.len() as int),
    {
        let n = self.upstreams.len();
        if n == 1 {
            return 0;
        }
        match self.lb {
            LoadBalance::RoundRobin => {
                proof {
                    lemma_round_robin_bounds(cursor as int, n as int);
                }
                cursor % n
            },
            LoadBalance::Random => Self::reduce(random, n),
            LoadBalance::Sticky => Self::reduce(affinity, n),
        }
    }

    /// Index of the upstream to use: advances the cursor atomically and
    /// selects at the value it had, so the index is in bounds under any
    /// interleaving of callers. What the cursor held is not known here; see
    /// `select_index_at` for the index at each cursor value.
    pub fn select_index(&self, random: u64, affinity: u64) -> (r: usize)
        requires
            self.wf(),
        ensures
            r < self.upstreams@.len(),
            self.upstreams@.len() == 1 ==> r == 0,
            self.upstreams@.len() > 1 && self.lb == LoadBalance::Random ==> r == reduced_index(random, self.upstreams@.len() as int),
            self.upstreams@.len() > 1 && self.lb == LoadBalance::Sticky ==> r == reduced_index(affinity, self.upstreams@.len() as int),
    {
        let cursor = self.cnt.fetch_add(1, Ordering::Relaxed);
        self.select_index_at(cursor, random, affinity)
    }

    /// The upstream to use, with the sticky policy hashing `affinity_key`.
    pub fn select(&self, random: u64, affinity_key: &[u8]) -> (r: &Upstream)
        requires
            self.wf(),
        ensures
            exists|i: int| 0 <= i < self.upstreams@.len() && r == &self.upstreams@[i],
            self.upstreams@.len() == 1 ==> r == &self.upstreams@[0],
            self.upstreams@.len() > 1 && self.lb == LoadBalance::Random ==> r == &self.upstreams@[reduced_index(random, self.upstreams@.len() as int)],
    {
        let h: u64 = if self.lb == LoadBalance::Sticky && self.upstreams.len() > 1 {
            affinity_hash(affinity_key)
        } else {
            0
        };
        let i = self.select_index(random, h);
        &self.upstreams[i]
    }
}

} // verus!
