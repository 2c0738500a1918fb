//! Egress validation: which endpoints are asked through a candidate node, how
//! an answer is judged, and when a quorum of operators agrees.
use crate::adapter::config;
use crate::adapter::config::compile_routing;
use crate::adapter::outbound;
use crate::adapter::outbound::{compile_outbound, AdapterError};
use crate::ir::node::{CanonicalNode, NodeView};
use crate::json::{Json, JsonObject, JsonView};
use crate::text;
use crate::time;
use crate::time::Duration;
use vstd::prelude::*;
use vstd::string::*;

verus! {

/// A single health-check endpoint with an explicit expected response.
#[derive(Clone, Copy, Debug, PartialEq, Eq)]
pub struct EgressTarget {
    pub tag: &'static str,
    pub host: &'static str,
    pub path: &'static str,
    pub port: u16,
    /// Dial over TLS and validate the certificate chain before any HTTP byte is
    /// written.
    pub tls: bool,
    pub expect_status: u16,
    pub expect_body_contains: Option<&'static str>,
    /// Counts toward the quorum verdict.
    pub quorum: bool,
}

impl EgressTarget {
    pub fn requires_body(&self) -> (r: bool)
        ensures
            r == (self.expect_body_contains is Some),
    {
        self.expect_body_contains.is_some()
    }
}

/// The single-operator target of the simple check.
pub const EGRESS_TARGET: &'static str = "www.gstatic.com:80";

/// The quorum backbone: independent operators, each with an explicit expected
/// status and, where the operator designed one, an expected body.
pub open spec fn operator_targets() -> Seq<EgressTarget> {
    seq![
        EgressTarget {
            tag: "cloudflare",
            host: "cp.cloudflare.com",
            path: "/generate_204",
            port: 80,
            tls: false,
            expect_status: 204,
            expect_body_contains: None,
            quorum: true,
        },
        EgressTarget {
            tag: "google",
            host: "www.gstatic.com",
            path: "/generate_204",
            port: 80,
            tls: false,
            expect_status: 204,
            expect_body_contains: None,
            quorum: true,
        },
        EgressTarget {
            tag: "microsoft",
            host: "www.msftconnecttest.com",
            path: "/connecttest.txt",
            port: 80,
            tls: false,
            expect_status: 200,
            expect_body_contains: Some("Microsoft Connect Test"),
            quorum: true,
        },
        EgressTarget {
            tag: "ubuntu",
            host: "connectivity-check.ubuntu.com",
            path: "/",
            port: 80,
            tls: false,
            expect_status: 204,
            expect_body_contains: None,
            quorum: true,
        },
        EgressTarget {
            tag: "debian",
            host: "network-test.debian.org",
            path: "/nm",
            port: 80,
            tls: false,
            expect_status: 200,
            expect_body_contains: Some("NetworkManager is online"),
            quorum: true,
        },
        EgressTarget {
            tag: "gnome",
            host: "nmcheck.gnome.org",
            path: "/check_network_status.txt",
            port: 80,
            tls: false,
            expect_status: 200,
            expect_body_contains: Some("NetworkManager is online"),
            quorum: true,
        },
        EgressTarget {
            tag: "apple",
            host: "captive.apple.com",
            path: "/hotspot-detect.html",
            port: 80,
            tls: false,
            expect_status: 200,
            expect_body_contains: Some("Success"),
            quorum: true,
        },
        EgressTarget {
            tag: "xiaomi",
            host: "connect.rom.miui.com",
            path: "/generate_204",
            port: 80,
            tls: false,
            expect_status: 204,
            expect_body_contains: None,
            quorum: true,
        },
        EgressTarget {
            tag: "firefox",
            host: "detectportal.firefox.com",
            path: "/success.txt",
            port: 443,
            tls: true,
            expect_status: 200,
            expect_body_contains: Some("success"),
            quorum: true,
        },
    ]
}

/// Real websites that ride along as traffic-shape noise. Only their status is
/// asserted, and they never count toward the quorum.
pub open spec fn real_site_targets() -> Seq<EgressTarget> {
    seq![
        EgressTarget {
            tag: "wikipedia",
            host: "www.wikipedia.org",
            path: "/",
            port: 443,
            tls: true,
            expect_status: 200,
            expect_body_contains: None,
            quorum: false,
        },
        EgressTarget {
            tag: "github",
            host: "github.com",
            path: "/",
            port: 443,
            tls: true,
            expect_status: 200,
            expect_body_contains: None,
            quorum: false,
        },
        EgressTarget {
            tag: "rust-lang",
            host: "www.rust-lang.org",
            path: "/",
            port: 443,
            tls: true,
            expect_status: 200,
            expect_body_contains: None,
            quorum: false,
        },
        EgressTarget {
            tag: "mozilla",
            host: "www.mozilla.org",
            path: "/",
            port: 443,
            tls: true,
            expect_status: 200,
            expect_body_contains: None,
            quorum: false,
        },
        EgressTarget {
            tag: "python",
            host: "www.python.org",
            path: "/",
            port: 443,
            tls: true,
            expect_status: 200,
            expect_body_contains: None,
            quorum: false,
        },
        EgressTarget {
            tag: "kernel",
            host: "www.kernel.org",
            path: "/",
            port: 443,
            tls: true,
            expect_status: 200,
            expect_body_contains: None,
            quorum: false,
        },
        EgressTarget {
            tag: "archlinux",
            host: "archlinux.org",
            path: "/",
            port: 443,
            tls: true,
            expect_status: 200,
            expect_body_contains: None,
            quorum: false,
        },
        EgressTarget {
            tag: "nginx",
            host: "www.nginx.org",
            path: "/",
            port: 443,
            tls: true,
            expect_status: 200,
            expect_body_contains: None,
            quorum: false,
        },
    ]
}

/// The quorum backbone.
pub fn egress_targets() -> (r: Vec<EgressTarget>)
    ensures
        r@ == operator_targets(),
{
    let r = vec![
        EgressTarget {
            tag: "cloudflare",
            host: "cp.cloudflare.com",
            path: "/generate_204",
            port: 80,
            tls: false,
            expect_status: 204,
            expect_body_contains: None,
            quorum: true,
        },
        EgressTarget {
            tag: "google",
            host: "www.gstatic.com",
            path: "/generate_204",
            port: 80,
            tls: false,
            expect_status: 204,
            expect_body_contains: None,
            quorum: true,
        },
        EgressTarget {
            tag: "microsoft",
            host: "www.msftconnecttest.com",
            path: "/connecttest.txt",
            port: 80,
            tls: false,
            expect_status: 200,
            expect_body_contains: Some("Microsoft Connect Test"),
            quorum: true,
        },
        EgressTarget {
            tag: "ubuntu",
            host: "connectivity-check.ubuntu.com",
            path: "/",
            port: 80,
            tls: false,
            expect_status: 204,
            expect_body_contains: None,
            quorum: true,
        },
        EgressTarget {
            tag: "debian",
            host: "network-test.debian.org",
            path: "/nm",
            port: 80,
            tls: false,
            expect_status: 200,
            expect_body_contains: Some("NetworkManager is online"),
            quorum: true,
        },
        EgressTarget {
            tag: "gnome",
            host: "nmcheck.gnome.org",
            path: "/check_network_status.txt",
            port: 80,
            tls: false,
            expect_status: 200,
            expect_body_contains: Some("NetworkManager is online"),
            quorum: true,
        },
        EgressTarget {
            tag: "apple",
            host: "captive.apple.com",
            path: "/hotspot-detect.html",
            port: 80,
            tls: false,
            expect_status: 200,
            expect_body_contains: Some("Success"),
            quorum: true,
        },
        EgressTarget {
            tag: "xiaomi",
            host: "connect.rom.miui.com",
            path: "/generate_204",
            port: 80,
            tls: false,
            expect_status: 204,
            expect_body_contains: None,
            quorum: true,
        },
        EgressTarget {
            tag: "firefox",
            host: "detectportal.firefox.com",
            path: "/success.txt",
            port: 443,
            tls: true,
            expect_status: 200,
            expect_body_contains: Some("success"),
            quorum: true,
        },
    ];
    assert(r@ =~= operator_targets());
    r
}

/// The real websites.
pub fn real_sites() -> (r: Vec<EgressTarget>)
    ensures
        r@ == real_site_targets(),
{
    let r = vec![
        EgressTarget {
            tag: "wikipedia",
            host: "www.wikipedia.org",
            path: "/",
            port: 443,
            tls: true,
            expect_status: 200,
            expect_body_contains: None,
            quorum: false,
        },
        EgressTarget {
            tag: "github",
            host: "github.com",
            path: "/",
            port: 443,
            tls: true,
            expect_status: 200,
            expect_body_contains: None,
            quorum: false,
        },
        EgressTarget {
            tag: "rust-lang",
            host: "www.rust-lang.org",
            path: "/",
            port: 443,
            tls: true,
            expect_status: 200,
            expect_body_contains: None,
            quorum: false,
        },
        EgressTarget {
            tag: "mozilla",
            host: "www.mozilla.org",
            path: "/",
            port: 443,
            tls: true,
            expect_status: 200,
            expect_body_contains: None,
            quorum: false,
        },
        EgressTarget {
            tag: "python",
            host: "www.python.org",
            path: "/",
            port: 443,
            tls: true,
            expect_status: 200,
            expect_body_contains: None,
            quorum: false,
        },
        EgressTarget {
            tag: "kernel",
            host: "www.kernel.org",
            path: "/",
            port: 443,
            tls: true,
            expect_status: 200,
            expect_body_contains: None,
            quorum: false,
        },
        EgressTarget {
            tag: "archlinux",
            host: "archlinux.org",
            path: "/",
            port: 443,
            tls: true,
            expect_status: 200,
            expect_body_contains: None,
            quorum: false,
        },
        EgressTarget {
            tag: "nginx",
            host: "www.nginx.org",
            path: "/",
            port: 443,
            tls: true,
            expect_status: 200,
            expect_body_contains: None,
            quorum: false,
        },
    ];
    assert(r@ =~= real_site_targets());
    r
}

/// Fully specifies one egress trial: which operators form the quorum backbone,
/// how many real sites ride along as noise, the quorum threshold, and the limits.
#[derive(Clone, Debug)]
pub struct ScatterConfig {
    pub operators: Vec<EgressTarget>,
    pub real_sites: Vec<EgressTarget>,
    pub real_count: usize,
    pub min_verified: usize,
    pub timeout: Duration,
    pub max_concurrency: usize,
}

impl Default for ScatterConfig {
    fn default() -> (r: ScatterConfig)
        ensures
            r.operators@ == operator_targets(),
            r.real_sites@ == real_site_targets(),
            r.real_count == 2,
            r.min_verified == 2,
            r.timeout == time::secs(10),
            r.max_concurrency == 8,
    {
        ScatterConfig {
            operators: egress_targets(),
            real_sites: real_sites(),
            real_count: 2,
            min_verified: 2,
            timeout: Duration::from_secs(10),
            max_concurrency: 8,
        }
    }
}

// ---------------------------------------------------------------------------
// Sampling
// ---------------------------------------------------------------------------

/// The seed that stands in for zero, which the generator never leaves.
pub const ZERO_SEED: u64 = 0x9e37_79b9_7f4a_7c15;

/// The state behind the three shifts of the generator.
pub open spec fn shifted(state: u64) -> u64 {
    let a = state ^ (state << 12);
    let b = a ^ (a >> 25);
    b ^ (b << 27)
}

/// One step of the xorshift generator with a multiplier that scrambles the
/// output.
pub open spec fn star(state: u64) -> u64 {
    shifted(state).wrapping_mul(0x2545_f491_4f6c_dd1d)
}

/// A nonzero state never collapses to zero, and zero stays zero.
pub proof fn law_generator_keeps_off_zero(state: u64)
    ensures
        star(state) == 0 <==> state == 0,
{
    let a = state ^ (state << 12);
    let b = a ^ (a >> 25);
    let c = b ^ (b << 27);
    assert(state == 0 <==> a == 0) by (bit_vector)
        requires
            a == state ^ (state << 12),
    ;
    assert(a == 0 <==> b == 0) by (bit_vector)
        requires
            b == a ^ (a >> 25),
    ;
    assert(b == 0 <==> c == 0) by (bit_vector)
        requires
            c == b ^ (b << 27),
    ;
    lemma_odd_multiple(c);
}

/// A multiple of the odd scrambling factor is zero only for zero.
proof fn lemma_odd_multiple(c: u64)
    ensures
        c.wrapping_mul(0x2545_f491_4f6c_dd1d) == 0 <==> c == 0,
{
    assert((c * 0x2545_f491_4f6c_dd1du64) % 0x1_0000_0000_0000_0000 == 0 ==> c == 0)
        by (bit_vector);
}

/// The two elements at `i` and `j` exchanged.
pub open spec fn swapped(s: Seq<usize>, i: int, j: int) -> Seq<usize> {
    s.update(i, s[j]).update(j, s[i])
}

/// The positions `0..len` after the first `n` steps of a shuffle, and the state
/// of the generator.
pub open spec fn shuffled(len: nat, n: nat, seed: u64) -> (Seq<usize>, u64)
    decreases n,
{
    if n == 0 {
        (Seq::new(len, |i: int| i as usize), seed)
    } else {
        let (before, state) = shuffled(len, (n - 1) as nat, seed);
        let next = star(state);
        let i = n - 1;
        (swapped(before, i, i + (next as int) % (len - i)), next)
    }
}

/// A sample of positions below `len`: the first of a shuffle.
pub open spec fn sample(len: nat, count: nat, seed: u64) -> Seq<usize> {
    if count == 0 || len == 0 {
        Seq::empty()
    } else {
        let n = if count < len {
            count
        } else {
            len
        };
        shuffled(
            len,
            n,
            if seed == 0 {
                ZERO_SEED
            } else {
                seed
            },
        ).0.take(n as int)
    }
}

/// A sample holds the asked number of positions, or all there are; they lie in
/// range and differ from each other.
pub proof fn law_samples_are_distinct(len: usize, count: nat, seed: u64)
    ensures
        sample(len as nat, count, seed).len() == (if count < len {
            count
        } else {
            len as nat
        }),
        sample(len as nat, count, seed).no_duplicates(),
        forall|i: int|
            0 <= i < sample(len as nat, count, seed).len() ==> #[trigger] sample(
                len as nat,
                count,
                seed,
            )[i] < len,
{
    if count > 0 && len > 0 {
        let n = if count < len {
            count
        } else {
            len as nat
        };
        lemma_shuffled(
            len,
            n,
            if seed == 0 {
                ZERO_SEED
            } else {
                seed
            },
        );
    }
}

proof fn lemma_shuffled(len: usize, n: nat, seed: u64)
    requires
        n <= len,
    ensures
        shuffled(len as nat, n, seed).0.len() == len,
        shuffled(len as nat, n, seed).0.no_duplicates(),
        forall|i: int|
            0 <= i < len ==> #[trigger] shuffled(len as nat, n, seed).0[i] < len,
    decreases n,
{
    if n > 0 {
        lemma_shuffled(len, (n - 1) as nat, seed);
        let (before, state) = shuffled(len as nat, (n - 1) as nat, seed);
        let i = n - 1;
        let j = i + (star(state) as int) % (len - i);
        assert(0 <= (star(state) as int) % (len - i) < len - i) by (nonlinear_arith)
            requires
                len - i > 0,
        ;
        let after = swapped(before, i, j);
        assert forall|x: int, y: int|
            0 <= x < after.len() && 0 <= y < after.len() && x != y implies after[x] != after[y] by {
            let p = if x == i {
                j
            } else if x == j {
                i
            } else {
                x
            };
            let q = if y == i {
                j
            } else if y == j {
                i
            } else {
                y
            };
            assert(after[x] == before[p]);
            assert(after[y] == before[q]);
        }
    }
}

/// One step of the generator.
pub fn xorshift64_star(state: u64) -> (r: u64)
    ensures
        r == star(state),
{
    let a: u64 = state ^ (state << 12);
    let b: u64 = a ^ (a >> 25);
    let c: u64 = b ^ (b << 27);
    c.wrapping_mul(0x2545_f491_4f6c_dd1d)
}

/// Picks `count` distinct positions below `len`.
pub fn shuffle_indices(len: usize, count: usize, seed: u64) -> (r: Vec<usize>)
    ensures
        r@ == sample(len as nat, count as nat, seed),
{
    let mut indices: Vec<usize> = Vec::new();
    if count == 0 || len == 0 {
        assert(indices@ =~= sample(len as nat, count as nat, seed));
        return indices;
    }
    let start: u64 = if seed == 0 {
        ZERO_SEED
    } else {
        seed
    };
    let n: usize = if count < len {
        count
    } else {
        len
    };
    let mut k: usize = 0;
    while k < len
        invariant
            k <= len,
            indices@ == Seq::new(k as nat, |i: int| i as usize),
        decreases len - k,
    {
        indices.push(k);
        assert(indices@ =~= Seq::new((k + 1) as nat, |i: int| i as usize));
        k += 1;
    }
    let mut state: u64 = start;
    let mut i: usize = 0;
    while i < n
        invariant
            i <= n <= len,
            indices@.len() == len,
            (indices@, state) == shuffled(len as nat, i as nat, start),
        decreases n - i,
    {
        state = xorshift64_star(state);
        let left: u64 = (len - i) as u64;
        let j: usize = i + (state % left) as usize;
        let ghost before = indices@;
        let x = indices[i];
        let y = indices[j];
        indices.set(i, y);
        indices.set(j, x);
        assert(indices@ =~= swapped(before, i as int, j as int));
        i += 1;
    }
    indices.truncate(n);
    assert(indices@ =~= shuffled(len as nat, n as nat, start).0.take(n as int));
    indices
}

/// The picked positions below `n` in increasing order.
pub open spec fn in_pool_order(picked: Seq<usize>, n: nat) -> Seq<usize>
    decreases n,
{
    if n == 0 {
        Seq::empty()
    } else {
        let before = in_pool_order(picked, (n - 1) as nat);
        if picked.contains((n - 1) as usize) {
            before.push((n - 1) as usize)
        } else {
            before
        }
    }
}

/// A sample keeps the order of its pool: the positions are those of the sample, each
/// once, in increasing order.
pub proof fn law_samples_keep_the_pool_order(len: usize, count: nat, seed: u64)
    ensures
        ({
            let picked = sample(len as nat, count, seed);
            let ordered = in_pool_order(picked, len as nat);
            &&& ordered.len() == picked.len()
            &&& forall|i: int, j: int|
                0 <= i < j < ordered.len() ==> #[trigger] ordered[i] < #[trigger] ordered[j]
            &&& forall|x: usize| #[trigger] ordered.contains(x) == picked.contains(x)
        }),
{
    let picked = sample(len as nat, count, seed);
    let ordered = in_pool_order(picked, len as nat);
    law_samples_are_distinct(len, count, seed);
    lemma_in_pool_order(picked, len, len as nat);
    assert forall|x: usize| #[trigger] ordered.contains(x) == picked.contains(x) by {
        if picked.contains(x) {
            let i = choose|i: int| 0 <= i < picked.len() && picked[i] == x;
            assert(picked[i] < len);
        }
    }
    assert(ordered.no_duplicates());
    ordered.unique_seq_to_set();
    picked.unique_seq_to_set();
    assert(ordered.to_set() =~= picked.to_set()) by {
        assert forall|x: usize| ordered.to_set().contains(x) == picked.to_set().contains(x) by {
            assert(ordered.contains(x) == picked.contains(x));
        }
    }
}

proof fn lemma_in_pool_order(picked: Seq<usize>, len: usize, n: nat)
    requires
        n <= len,
    ensures
        ({
            let ordered = in_pool_order(picked, n);
            &&& forall|i: int, j: int|
                0 <= i < j < ordered.len() ==> #[trigger] ordered[i] < #[trigger] ordered[j]
            &&& forall|i: int| 0 <= i < ordered.len() ==> #[trigger] ordered[i] < n
            &&& forall|x: usize| #[trigger] ordered.contains(x) == (x < n && picked.contains(x))
        }),
    decreases n,
{
    if n > 0 {
        let before = in_pool_order(picked, (n - 1) as nat);
        let ordered = in_pool_order(picked, n);
        lemma_in_pool_order(picked, len, (n - 1) as nat);
        assert forall|x: usize| #[trigger] ordered.contains(x) == (x < n && picked.contains(x)) by {
            if ordered.contains(x) {
                let i = choose|i: int| 0 <= i < ordered.len() && ordered[i] == x;
                if i < before.len() {
                    assert(before.contains(before[i]));
                }
            }
            if x < n && picked.contains(x) {
                if x < n - 1 {
                    assert(before.contains(x));
                    let i = choose|i: int| 0 <= i < before.len() && before[i] == x;
                    assert(ordered[i] == x);
                } else {
                    assert(ordered[before.len() as int] == x);
                }
            }
        }
    }
}

fn holds_position(picked: &Vec<usize>, position: usize) -> (r: bool)
    ensures
        r == picked@.contains(position),
{
    let mut i: usize = 0;
    while i < picked.len()
        invariant
            i <= picked@.len(),
            forall|k: int| 0 <= k < i ==> picked@[k] != position,
        decreases picked@.len() - i,
    {
        if picked[i] == position {
            return true;
        }
        i += 1;
    }
    false
}

fn pool_ordered(picked: &Vec<usize>, len: usize) -> (r: Vec<usize>)
    ensures
        r@ == in_pool_order(picked@, len as nat),
{
    let mut r: Vec<usize> = Vec::new();
    let mut i: usize = 0;
    while i < len
        invariant
            i <= len,
            r@ == in_pool_order(picked@, i as nat),
        decreases len - i,
    {
        if holds_position(picked, i) {
            r.push(i);
        }
        i += 1;
    }
    r
}

/// The targets of a trial: every operator, then the sampled real sites in the order
/// of their pool.
pub open spec fn trial_targets(
    operators: Seq<EgressTarget>,
    sites: Seq<EgressTarget>,
    count: nat,
    seed: u64,
) -> Seq<EgressTarget> {
    operators + in_pool_order(sample(sites.len(), count, seed), sites.len()).map_values(
        |i: usize| sites[i as int],
    )
}

/// The targets of a trial with a given seed.
pub fn sample_targets_with(cfg: &ScatterConfig, seed: u64) -> (r: Vec<EgressTarget>)
    ensures
        r@ == trial_targets(cfg.operators@, cfg.real_sites@, cfg.real_count as nat, seed),
{
    let shuffled = shuffle_indices(cfg.real_sites.len(), cfg.real_count, seed);
    let picked = pool_ordered(&shuffled, cfg.real_sites.len());
    proof {
        lemma_in_pool_order(shuffled@, cfg.real_sites.len(), cfg.real_sites@.len());
    }
    let ghost sites = cfg.real_sites@;
    let ghost tail = picked@.map_values(|i: usize| sites[i as int]);
    let mut targets: Vec<EgressTarget> = Vec::new();
    let mut i: usize = 0;
    while i < cfg.operators.len()
        invariant
            i <= cfg.operators@.len(),
            targets@ == cfg.operators@.take(i as int),
        decreases cfg.operators@.len() - i,
    {
        targets.push(cfg.operators[i]);
        assert(targets@ =~= cfg.operators@.take(i + 1));
        i += 1;
    }
    assert(targets@ =~= cfg.operators@);
    let mut k: usize = 0;
    while k < picked.len()
        invariant
            k <= picked@.len(),
            sites == cfg.real_sites@,
            tail == picked@.map_values(|i: usize| sites[i as int]),
            forall|x: int| 0 <= x < picked@.len() ==> #[trigger] picked@[x] < sites.len(),
            targets@ == cfg.operators@ + tail.take(k as int),
        decreases picked@.len() - k,
    {
        assert(picked@[k as int] < sites.len());
        targets.push(cfg.real_sites[picked[k]]);
        assert(targets@ =~= cfg.operators@ + tail.take(k + 1));
        k += 1;
    }
    assert(targets@ =~= cfg.operators@ + tail);
    targets
}

/// The targets of a trial. Sampling happens per trial, so a node that is tested
/// again sees another tail.
pub fn sample_targets(cfg: &ScatterConfig) -> (r: Vec<EgressTarget>)
    ensures
        exists|seed: u64|
            r@ == #[trigger] trial_targets(
                cfg.operators@,
                cfg.real_sites@,
                cfg.real_count as nat,
                seed,
            ),
{
    let seed = match time::unix_nanos() {
        Some(nanos) => nanos,
        None => ZERO_SEED,
    };
    sample_targets_with(cfg, seed)
}

/// Every operator is asked in every trial, and no more real sites than
/// configured are.
pub proof fn law_trials_carry_every_operator(
    operators: Seq<EgressTarget>,
    sites: Seq<EgressTarget>,
    count: nat,
    seed: u64,
)
    requires
        sites.len() <= usize::MAX,
    ensures
        trial_targets(operators, sites, count, seed).take(operators.len() as int) == operators,
        trial_targets(operators, sites, count, seed).len() == operators.len() + (if count
            < sites.len() {
            count
        } else {
            sites.len()
        }),
{
    law_samples_are_distinct(sites.len() as usize, count, seed);
    law_samples_keep_the_pool_order(sites.len() as usize, count, seed);
    assert(trial_targets(operators, sites, count, seed).take(operators.len() as int)
        =~= operators);
}

/// `part` is what stands at the positions in `pool`, which increase.
pub open spec fn is_picked_from(
    part: Seq<EgressTarget>,
    pool: Seq<EgressTarget>,
    positions: Seq<usize>,
) -> bool {
    &&& part.len() == positions.len()
    &&& forall|i: int|
        0 <= i < part.len() ==> #[trigger] positions[i] < pool.len() && part[i]
            == pool[positions[i] as int]
    &&& forall|i: int, j: int|
        0 <= i < j < positions.len() ==> #[trigger] positions[i] < #[trigger] positions[j]
}

/// The sampled real sites of a trial are distinct entries of the pool, in its order.
pub proof fn law_trials_keep_the_pool_order(
    operators: Seq<EgressTarget>,
    sites: Seq<EgressTarget>,
    count: nat,
    seed: u64,
)
    requires
        sites.len() <= usize::MAX,
    ensures
        is_picked_from(
            trial_targets(operators, sites, count, seed).skip(operators.len() as int),
            sites,
            in_pool_order(sample(sites.len(), count, seed), sites.len()),
        ),
{
    let positions = in_pool_order(sample(sites.len(), count, seed), sites.len());
    lemma_in_pool_order(sample(sites.len(), count, seed), sites.len() as usize, sites.len());
    assert(trial_targets(operators, sites, count, seed).skip(operators.len() as int)
        =~= positions.map_values(|i: usize| sites[i as int]));
}

// ---------------------------------------------------------------------------
// Judging
// ---------------------------------------------------------------------------

/// How far a check of one target came.
#[derive(Clone, Debug, PartialEq, Eq)]
pub enum TargetOutcome<T = String> {
    /// The proxy could not be reached.
    Unreachable(T),
    /// The proxy did not connect to the target.
    ConnectFailed(T),
    /// The TLS client could not be set up.
    TlsFailed(T),
    /// The request could not be written.
    WriteFailed(T),
    /// No answer could be read.
    ReadFailed(T),
    /// An answer came.
    Answered { status: u16, body: T },
}

impl View for TargetOutcome {
    type V = TargetOutcome<Seq<char>>;

    open spec fn view(&self) -> TargetOutcome<Seq<char>> {
        match *self {
            TargetOutcome::Unreachable(s) => TargetOutcome::Unreachable(s@),
            TargetOutcome::ConnectFailed(s) => TargetOutcome::ConnectFailed(s@),
            TargetOutcome::TlsFailed(s) => TargetOutcome::TlsFailed(s@),
            TargetOutcome::WriteFailed(s) => TargetOutcome::WriteFailed(s@),
            TargetOutcome::ReadFailed(s) => TargetOutcome::ReadFailed(s@),
            TargetOutcome::Answered { status, body } => TargetOutcome::Answered {
                status,
                body: body@,
            },
        }
    }
}

/// Result of one target check.
#[derive(Clone, Debug, PartialEq, Eq)]
pub struct TargetCheck<T = String, G = &'static str> {
    pub tag: G,
    /// True when the status and any required body matched.
    pub verified: bool,
    pub latency: Duration,
    /// HTTP status actually returned, zero when the exchange failed early.
    pub status: u16,
    /// Human-readable reason on failure.
    pub detail: T,
}

/// The model of a check.
pub type CheckView = TargetCheck<Seq<char>, Seq<char>>;

impl View for TargetCheck {
    type V = TargetCheck<Seq<char>, Seq<char>>;

    open spec fn view(&self) -> TargetCheck<Seq<char>, Seq<char>> {
        TargetCheck {
            tag: self.tag@,
            verified: self.verified,
            latency: self.latency,
            status: self.status,
            detail: self.detail@,
        }
    }
}

/// An answer is what the target promises: the status, and the body where one is
/// expected.
pub open spec fn is_expected(target: EgressTarget, status: u16, body: Seq<char>) -> bool {
    status == target.expect_status && (target.expect_body_contains matches Some(needle)
        ==> text::contains(body, needle@))
}

/// What is said of an answer.
pub open spec fn answer_detail(target: EgressTarget, status: u16, body: Seq<char>) -> Seq<char> {
    if is_expected(target, status, body) {
        "ok"@
    } else if status != target.expect_status {
        "expected status "@ + text::decimal(target.expect_status as nat) + ", got "@
            + text::decimal(status as nat)
    } else {
        "expected body containing Some("@ + text::quoted(target.expect_body_contains->0@) + ")"@
    }
}

/// The check of a target that came as far as the outcome says.
pub open spec fn judged(
    target: EgressTarget,
    outcome: TargetOutcome<Seq<char>>,
    latency: Duration,
) -> CheckView {
    let failed = |detail: Seq<char>|
        TargetCheck { tag: target.tag@, verified: false, latency, status: 0u16, detail };
    match outcome {
        TargetOutcome::Unreachable(e) => failed("socks5 testbed unreachable: "@ + e),
        TargetOutcome::ConnectFailed(e) => failed("socks5 CONNECT failed: "@ + e),
        TargetOutcome::TlsFailed(e) => failed("TLS setup failed: "@ + e),
        TargetOutcome::WriteFailed(e) => failed("write failed: "@ + e),
        TargetOutcome::ReadFailed(e) => failed(e),
        TargetOutcome::Answered { status, body } => TargetCheck {
            tag: target.tag@,
            verified: is_expected(target, status, body),
            latency,
            status,
            detail: answer_detail(target, status, body),
        },
    }
}

/// A target counts as verified only when an answer came, its status is the
/// expected one, and the body holds what it must: an answer of another status,
/// such as the page of a captive portal, is never taken for the target.
pub proof fn law_verified_means_status_and_body(
    target: EgressTarget,
    outcome: TargetOutcome<Seq<char>>,
    latency: Duration,
)
    requires
        judged(target, outcome, latency).verified,
    ensures
        outcome is Answered,
        outcome->Answered_status == target.expect_status,
        target.expect_body_contains matches Some(needle) ==> text::contains(
            outcome->Answered_body,
            needle@,
        ),
{
}

fn failed_check(target: &EgressTarget, latency: Duration, head: &str, e: &str) -> (r: TargetCheck)
    ensures
        r@ == (TargetCheck {
            tag: target.tag@,
            verified: false,
            latency,
            status: 0u16,
            detail: head@ + e@,
        }),
{
    let mut detail = head.to_owned();
    detail.append(e);
    TargetCheck { tag: target.tag, verified: false, latency, status: 0, detail }
}

/// Judges how a check of a target went.
pub fn judge_target(target: &EgressTarget, outcome: TargetOutcome, latency: Duration) -> (r:
    TargetCheck)
    ensures
        r@ == judged(*target, outcome@, latency),
{
    match outcome {
        TargetOutcome::Unreachable(e) => failed_check(
            target,
            latency,
            "socks5 testbed unreachable: ",
            e.as_str(),
        ),
        TargetOutcome::ConnectFailed(e) => failed_check(
            target,
            latency,
            "socks5 CONNECT failed: ",
            e.as_str(),
        ),
        TargetOutcome::TlsFailed(e) => failed_check(target, latency, "TLS setup failed: ", e.as_str()),
        TargetOutcome::WriteFailed(e) => failed_check(target, latency, "write failed: ", e.as_str()),
        TargetOutcome::ReadFailed(e) => TargetCheck {
            tag: target.tag,
            verified: false,
            latency,
            status: 0,
            detail: e,
        },
        TargetOutcome::Answered { status, body } => {
            let body_fits = match target.expect_body_contains {
                None => true,
                Some(needle) => text::contains_text(body.as_str(), needle),
            };
            let verified = status == target.expect_status && body_fits;
            let detail = if verified {
                "ok".to_owned()
            } else if status != target.expect_status {
                let mut s = "expected status ".to_owned();
                s.append(text::decimal_text(target.expect_status as u64).as_str());
                s.append(", got ");
                s.append(text::decimal_text(status as u64).as_str());
                s
            } else {
                let mut s = "expected body containing Some(".to_owned();
                match target.expect_body_contains {
                    None => {},
                    Some(needle) => s.append(text::quote(needle).as_str()),
                }
                s.append(")");
                s
            };
            TargetCheck { tag: target.tag, verified, latency, status, detail }
        },
    }
}

/// Aggregate of a scatter across egress targets.
#[derive(Clone, Debug, PartialEq, Eq)]
pub struct ScatterReport {
    pub checks: Vec<TargetCheck>,
    /// Number of targets that answered as expected.
    pub verified: usize,
    /// Number of targets that were asked.
    pub total: usize,
    /// Number of quorum operators that answered as expected.
    pub quorum_verified: usize,
    /// A quorum of independent operators agrees.
    pub passes: bool,
}

/// The number of verified checks among the first `n`.
pub open spec fn verified_count(checks: Seq<TargetCheck>, n: nat) -> nat
    decreases n,
{
    if n == 0 {
        0
    } else {
        verified_count(checks, (n - 1) as nat) + (if checks[n - 1].verified {
            1nat
        } else {
            0
        })
    }
}

/// The number of verified checks of quorum operators among the first `n`.
pub open spec fn quorum_count(targets: Seq<EgressTarget>, checks: Seq<TargetCheck>, n: nat) -> nat
    decreases n,
{
    if n == 0 {
        0
    } else {
        quorum_count(targets, checks, (n - 1) as nat) + (if targets[n - 1].quorum
            && checks[n - 1].verified {
            1nat
        } else {
            0
        })
    }
}

/// Noise decides nothing: two trials in which the quorum targets fared alike have
/// the same quorum, however the real sites answered.
pub proof fn law_noise_decides_nothing(
    targets: Seq<EgressTarget>,
    a: Seq<TargetCheck>,
    b: Seq<TargetCheck>,
    n: nat,
)
    requires
        n <= targets.len(),
        n <= a.len(),
        n <= b.len(),
        forall|i: int|
            0 <= i < n && (#[trigger] targets[i]).quorum ==> a[i].verified == b[i].verified,
    ensures
        quorum_count(targets, a, n) == quorum_count(targets, b, n),
    decreases n,
{
    if n > 0 {
        law_noise_decides_nothing(targets, a, b, (n - 1) as nat);
        assert(targets[n - 1].quorum ==> a[n - 1].verified == b[n - 1].verified);
    }
}

/// Real sites never carry a trial: quorum successes are among all successes,
/// and a trial whose verified targets are all noise has none.
pub proof fn law_quorum_is_part_of_verified(
    targets: Seq<EgressTarget>,
    checks: Seq<TargetCheck>,
    n: nat,
)
    requires
        n <= targets.len(),
        n <= checks.len(),
    ensures
        quorum_count(targets, checks, n) <= verified_count(checks, n) <= n,
        (forall|i: int| 0 <= i < n && (#[trigger] checks[i]).verified ==> !targets[i].quorum)
            ==> quorum_count(targets, checks, n) == 0,
    decreases n,
{
    if n > 0 {
        law_quorum_is_part_of_verified(targets, checks, (n - 1) as nat);
    }
}

/// Folds the checks of a trial's targets, in the order of the targets, into a
/// report.
pub fn fold_checks(targets: &Vec<EgressTarget>, checks: Vec<TargetCheck>, min_verified: usize) -> (r:
    ScatterReport)
    requires
        checks@.len() == targets@.len(),
    ensures
        r.checks@ == checks@,
        r.total == targets@.len(),
        r.verified == verified_count(checks@, checks@.len()),
        r.quorum_verified == quorum_count(targets@, checks@, checks@.len()),
        r.passes == (r.quorum_verified >= min_verified),
{
    let mut verified: usize = 0;
    let mut quorum_verified: usize = 0;
    let mut i: usize = 0;
    while i < checks.len()
        invariant
            i <= checks@.len(),
            checks@.len() == targets@.len(),
            verified == verified_count(checks@, i as nat),
            quorum_verified == quorum_count(targets@, checks@, i as nat),
            verified <= i,
            quorum_verified <= i,
        decreases checks@.len() - i,
    {
        if checks[i].verified {
            verified += 1;
            if targets[i].quorum {
                quorum_verified += 1;
            }
        }
        i += 1;
    }
    let total: usize = targets.len();
    ScatterReport {
        checks,
        verified,
        total,
        quorum_verified,
        passes: quorum_verified >= min_verified,
    }
}

/// The number of workers for a trial: one for each target, within the limit.
pub fn worker_count(targets: usize, max_concurrency: usize) -> (r: usize)
    requires
        max_concurrency >= 1,
    ensures
        r == (if targets < 1 {
            1
        } else if targets > max_concurrency {
            max_concurrency
        } else {
            targets
        }),
{
    if targets < 1 {
        1
    } else if targets > max_concurrency {
        max_concurrency
    } else {
        targets
    }
}

/// The request to a target.
pub fn target_request(target: &EgressTarget) -> (r: String)
    ensures
        r@ == "GET "@ + target.path@ + " HTTP/1.1\r\nHost: "@ + target.host@
            + "\r\nConnection: close\r\n\r\n"@,
{
    let mut r = "GET ".to_owned();
    r.append(target.path);
    r.append(" HTTP/1.1\r\nHost: ");
    r.append(target.host);
    r.append("\r\nConnection: close\r\n\r\n");
    r
}

/// The request of the simple check.
pub fn generate_204_request(host: &str) -> (r: String)
    ensures
        r@ == "GET /generate_204 HTTP/1.0\r\nHost: "@ + host@
            + "\r\nConnection: close\r\n\r\n"@,
{
    let mut r = "GET /generate_204 HTTP/1.0\r\nHost: ".to_owned();
    r.append(host);
    r.append("\r\nConnection: close\r\n\r\n");
    r
}

/// Outcome of the simple check.
#[derive(Clone, Copy, Debug, PartialEq, Eq)]
pub struct EgressReport {
    /// Time of the whole round trip.
    pub round_trip: Duration,
    /// The status was 204 and the body was empty.
    pub verified: bool,
}

/// Judges the answer of the simple check.
pub fn judge_generate_204(status: u16, body: &str, round_trip: Duration) -> (r: EgressReport)
    ensures
        r == (EgressReport { round_trip, verified: status == 204 && body@.len() == 0 }),
{
    EgressReport { round_trip, verified: status == 204 && text::to_chars(body).len() == 0 }
}

// ---------------------------------------------------------------------------
// Testbed configuration
// ---------------------------------------------------------------------------

/// The log and inbound sections of a testbed.
pub open spec fn testbed_base(socks5_port: u16) -> Map<Seq<char>, JsonView> {
    Map::empty().insert(
        "log"@,
        config::object2("level"@, JsonView::Text("warn"@), "timestamp"@, JsonView::Bool(true)),
    ).insert(
        "inbounds"@,
        JsonView::List(
            seq![
                JsonView::Object(
                    Map::empty().insert("type"@, JsonView::Text("mixed"@)).insert(
                        "tag"@,
                        JsonView::Text("mixed-in"@),
                    ).insert("listen"@, JsonView::Text("127.0.0.1"@)).insert(
                        "listen_port"@,
                        JsonView::Number(socks5_port as u64),
                    ),
                ),
            ],
        ),
    )
}

/// A loopback listener and the candidate outbound.
pub open spec fn testbed_config(n: NodeView, socks5_port: u16) -> Result<
    JsonView,
    AdapterError<Seq<char>>,
> {
    match outbound::outbound_json(n) {
        Err(e) => Err(e),
        Ok(o) => Ok(
            JsonView::Object(
                testbed_base(socks5_port).insert(
                    "outbounds"@,
                    JsonView::List(seq![config::direct_outbound(), o]),
                ).insert("route"@, config::routing(config::tag_of(o), 0, false)),
            ),
        ),
    }
}

/// A loopback listener and the direct outbound alone.
pub open spec fn direct_testbed_config(socks5_port: u16) -> JsonView {
    JsonView::Object(
        testbed_base(socks5_port).insert(
            "outbounds"@,
            JsonView::List(seq![config::direct_outbound()]),
        ).insert("route"@, config::routing("direct"@, 0, false)),
    )
}

fn start_testbed(socks5_port: u16) -> (r: JsonObject)
    ensures
        r@ == testbed_base(socks5_port),
{
    let mut log = JsonObject::new();
    log.set_text("level", "warn");
    log.set("timestamp", Json::Bool(true));
    let mut inbound = JsonObject::new();
    inbound.set_text("type", "mixed");
    inbound.set_text("tag", "mixed-in");
    inbound.set_text("listen", "127.0.0.1");
    inbound.set("listen_port", Json::Number(socks5_port as u64));
    let mut object = JsonObject::new();
    object.set("log", Json::Object(log));
    object.set("inbounds", Json::single(Json::Object(inbound)));
    object
}

fn direct_object() -> (r: Json)
    ensures
        r@ == config::direct_outbound(),
{
    let mut direct = JsonObject::new();
    direct.set_text("type", "direct");
    direct.set_text("tag", "direct");
    Json::Object(direct)
}

/// Assembles a lean testbed configuration for a candidate node.
pub fn compile_testbed_config(node: &CanonicalNode, socks5_port: u16) -> (r: Result<
    Json,
    AdapterError,
>)
    ensures
        outbound::json_result(r) == testbed_config(node@, socks5_port),
{
    let compiled = match compile_outbound(node) {
        Ok(o) => o,
        Err(e) => return Err(e),
    };
    let tag = match compiled.get("tag") {
        Some(value) => match value.as_text() {
            Some(tag) => tag.to_owned(),
            None => "proxy".to_owned(),
        },
        None => "proxy".to_owned(),
    };
    let mut object = start_testbed(socks5_port);
    object.set("outbounds", Json::pair(direct_object(), compiled));
    object.set("route", compile_routing(tag.as_str(), 0, false));
    Ok(Json::Object(object))
}

/// Assembles a testbed configuration without a node: a probe of the machine's
/// own network.
pub fn compile_direct_testbed_config(socks5_port: u16) -> (r: Json)
    ensures
        r@ == direct_testbed_config(socks5_port),
{
    let mut object = start_testbed(socks5_port);
    object.set("outbounds", Json::single(direct_object()));
    object.set("route", compile_routing("direct", 0, false));
    Json::Object(object)
}

} // verus!
