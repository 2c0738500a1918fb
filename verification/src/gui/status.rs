//! Flags, status lines and the demonstration catalog.
use crate::controller::ranking::{CandidateScore, ScoreView};
use crate::gui::dispatcher::ProbeResult;
use crate::probe::engine::ProbeOutcome;
use crate::storage::soa_store;
use crate::storage::soa_store::{
    DenseNodeStore, HotNodeRow, ProtocolKind, RowView, UNTESTED_LATENCY,
};
use crate::text;
use vstd::prelude::*;
use vstd::string::*;

verus! {

// ---------------------------------------------------------------------------
// Model
// ---------------------------------------------------------------------------

/// The health that a latency stands for: one hundred less an eighth of the
/// milliseconds, and not below ten.
pub open spec fn latency_health(latency: u16) -> u8 {
    if latency / 8 > 90 {
        10
    } else {
        (100 - latency / 8) as u8
    }
}

/// The health that a probe stands for. A node that lives without a measured
/// latency is healthy.
pub open spec fn health_of(alive: bool, latency: Option<u16>) -> u8 {
    if !alive {
        0
    } else {
        match latency {
            Some(ms) => latency_health(ms),
            None => 100,
        }
    }
}

pub open spec fn or_untested(latency: Option<u16>) -> u16 {
    match latency {
        Some(ms) => ms,
        None => UNTESTED_LATENCY,
    }
}

/// The latency of a score in milliseconds, as far as sixteen bits hold it.
pub open spec fn score_latency(s: ScoreView) -> Option<u16> {
    match s.median_latency {
        Some(d) => Some((d.nanos / 1_000_000 % 0x10000) as u16),
        None => None,
    }
}

/// The latency that a demonstration makes up for a node.
pub open spec fn made_up_latency(id: u32) -> u16 {
    (25 + id as int * 37 % 0x1_0000_0000 % 550) as u16
}

/// The value behind the first occurrence of a flag, from a position on.
pub open spec fn value_from(args: Seq<Seq<char>>, flag: Seq<char>, i: int) -> Option<Seq<char>>
    decreases args.len() - i,
{
    if i < 0 || i + 1 >= args.len() {
        None
    } else if args[i] == flag {
        Some(args[i + 1])
    } else {
        value_from(args, flag, i + 1)
    }
}

pub open spec fn zeros(n: nat) -> Seq<char> {
    Seq::new(n, |i: int| '0')
}

/// A number with at least five digits.
pub open spec fn five_digits(n: nat) -> Seq<char> {
    let digits = text::decimal(n);
    if digits.len() < 5 {
        zeros((5 - digits.len()) as nat) + digits
    } else {
        digits
    }
}

pub open spec fn demo_country(i: int) -> [u8; 2] {
    if i % 6 == 0 {
        [68u8, 69u8]
    } else if i % 6 == 1 {
        [85u8, 83u8]
    } else if i % 6 == 2 {
        [74u8, 80u8]
    } else if i % 6 == 3 {
        [78u8, 76u8]
    } else if i % 6 == 4 {
        [83u8, 71u8]
    } else {
        [85u8, 78u8]
    }
}

pub open spec fn demo_protocol(i: int) -> ProtocolKind {
    if i % 5 == 0 {
        ProtocolKind::Vless
    } else if i % 5 == 1 {
        ProtocolKind::Trojan
    } else if i % 5 == 2 {
        ProtocolKind::Shadowsocks
    } else if i % 5 == 3 {
        ProtocolKind::Hysteria2
    } else {
        ProtocolKind::Tuic
    }
}

/// The node at a position of the demonstration catalog.
pub open spec fn demo_view(i: int) -> RowView {
    RowView {
        id: (i + 1) as u32,
        country_code: demo_country(i),
        latency_ms: if i % 7 == 0 {
            UNTESTED_LATENCY
        } else {
            (30 + i % 600) as u16
        },
        health_score: (30 + i % 71) as u8,
        name: "Demo node "@ + five_digits((i + 1) as nat),
        protocol: demo_protocol(i),
        sources: seq![(i % 3 + 1) as u16],
    }
}

// ---------------------------------------------------------------------------
// Probes
// ---------------------------------------------------------------------------

fn health_for(latency: u16) -> (r: u8)
    ensures
        r == latency_health(latency),
{
    let eighth = latency / 8;
    if eighth > 90 {
        10
    } else {
        (100 - eighth) as u8
    }
}

/// The health that a probe stands for.
pub fn probe_health(alive: bool, latency_ms: Option<u16>) -> (r: u8)
    ensures
        r == health_of(alive, latency_ms),
        r <= 100,
{
    if !alive {
        return 0;
    }
    match latency_ms {
        Some(latency) => health_for(latency),
        None => 100,
    }
}

/// The result for the list from the outcome of a probe.
pub fn probe_result(node_id: u32, outcome: &ProbeOutcome) -> (r: ProbeResult)
    ensures
        r == (ProbeResult {
            node_id,
            latency_ms: or_untested(outcome.latency_ms),
            health_score: health_of(outcome.alive, outcome.latency_ms),
        }),
{
    ProbeResult {
        node_id,
        latency_ms: match outcome.latency_ms {
            Some(ms) => ms,
            None => UNTESTED_LATENCY,
        },
        health_score: probe_health(outcome.alive, outcome.latency_ms),
    }
}

/// The result for the list from the score of a trial.
pub fn score_result(node_id: u32, score: &CandidateScore) -> (r: ProbeResult)
    ensures
        r == (ProbeResult {
            node_id,
            latency_ms: or_untested(score_latency(score@)),
            health_score: health_of(score@.passes, score_latency(score@)),
        }),
{
    let latency = match score.median_latency {
        Some(d) => Some((d.as_millis() % 0x10000) as u16),
        None => None,
    };
    ProbeResult {
        node_id,
        latency_ms: match latency {
            Some(ms) => ms,
            None => UNTESTED_LATENCY,
        },
        health_score: probe_health(score.passes, latency),
    }
}

/// A made-up result for a node of the demonstration catalog.
pub fn simulated_result(node_id: u32) -> (r: ProbeResult)
    ensures
        r == (ProbeResult {
            node_id,
            latency_ms: made_up_latency(node_id),
            health_score: latency_health(made_up_latency(node_id)),
        }),
{
    let latency: u16 = (25 + node_id as u64 * 37 % 0x1_0000_0000 % 550) as u16;
    ProbeResult { node_id, latency_ms: latency, health_score: health_for(latency) }
}

// ---------------------------------------------------------------------------
// Flags
// ---------------------------------------------------------------------------

/// Whether a flag is among the arguments.
pub fn has_flag(args: &Vec<String>, flag: &str) -> (r: bool)
    ensures
        r == text::texts_of(args@).contains(flag@),
{
    let ghost all = text::texts_of(args@);
    let mut i: usize = 0;
    while i < args.len()
        invariant
            i <= args@.len(),
            all == text::texts_of(args@),
            forall|k: int| 0 <= k < i ==> all[k] != flag@,
        decreases args@.len() - i,
    {
        assert(all[i as int] == args@[i as int]@);
        if text::same(args[i].as_str(), flag) {
            return true;
        }
        i += 1;
    }
    false
}

/// The value behind a flag.
pub fn flag_value(args: &Vec<String>, flag: &str) -> (r: Option<String>)
    ensures
        text::text_of(r) == value_from(text::texts_of(args@), flag@, 0),
{
    let ghost all = text::texts_of(args@);
    let n: usize = args.len();
    let mut i: usize = 0;
    while n > 0 && i < n - 1
        invariant
            n == args@.len(),
            i <= n,
            all == text::texts_of(args@),
            value_from(all, flag@, 0) == value_from(all, flag@, i as int),
        decreases n - i,
    {
        assert(all[i as int] == args@[i as int]@);
        assert(all[i + 1] == args@[i + 1]@);
        if text::same(args[i].as_str(), flag) {
            return Some(args[i + 1].clone());
        }
        i += 1;
    }
    None
}

// ---------------------------------------------------------------------------
// Lines
// ---------------------------------------------------------------------------

fn with_count(before: &str, n: usize, after: &str) -> (r: String)
    ensures
        r@ == before@ + text::decimal(n as nat) + after@,
{
    let mut r = before.to_owned();
    r.append(text::decimal_text(n as u64).as_str());
    r.append(after);
    r
}

/// The line that a window starts with.
pub fn initial_status(count: usize) -> (r: String)
    ensures
        r@ == (if count == 0 {
            "Empty catalog \u{2014} import a subscription to get started"@
        } else {
            text::decimal(count as nat) + " nodes from local catalog"@
        }),
{
    if count == 0 {
        return "Empty catalog \u{2014} import a subscription to get started".to_owned();
    }
    let mut r = text::decimal_text(count as u64);
    r.append(" nodes from local catalog");
    r
}

/// The line after a sweep of probes.
pub fn probed_status(count: usize) -> (r: String)
    ensures
        r@ == "Probed "@ + text::decimal(count as nat) + " nodes via socket health"@,
{
    with_count("Probed ", count, " nodes via socket health")
}

/// The line after an import.
pub fn imported_status(count: usize) -> (r: String)
    ensures
        r@ == "Imported "@ + text::decimal(count as nat) + " new node(s)"@,
{
    with_count("Imported ", count, " new node(s)")
}

/// The line after a rescore.
pub fn rescored_status(passing: usize, written: usize) -> (r: String)
    ensures
        r@ == "Rescore: "@ + text::decimal(passing as nat) + "/"@ + text::decimal(written as nat)
            + " candidates passed quorum"@,
{
    let mut r = with_count("Rescore: ", passing, "/");
    r.append(text::decimal_text(written as u64).as_str());
    r.append(" candidates passed quorum");
    r
}

// ---------------------------------------------------------------------------
// Demonstration
// ---------------------------------------------------------------------------

fn padded_number(n: u64) -> (r: String)
    ensures
        r@ == five_digits(n as nat),
{
    let digits = text::decimal_text(n);
    let len: usize = text::to_chars(digits.as_str()).len();
    if len >= 5 {
        return digits;
    }
    let mut chars: Vec<char> = Vec::new();
    let mut i: usize = len;
    while i < 5
        invariant
            len <= i <= 5,
            chars@ == zeros((i - len) as nat),
        decreases 5 - i,
    {
        chars.push('0');
        i += 1;
        assert(chars@ =~= zeros((i - len) as nat));
    }
    let mut r = text::from_chars(&chars);
    r.append(digits.as_str());
    r
}

fn country_at(i: usize) -> (r: [u8; 2])
    ensures
        r == demo_country(i as int),
{
    let k: usize = i % 6;
    if k == 0 {
        [68u8, 69u8]
    } else if k == 1 {
        [85u8, 83u8]
    } else if k == 2 {
        [74u8, 80u8]
    } else if k == 3 {
        [78u8, 76u8]
    } else if k == 4 {
        [83u8, 71u8]
    } else {
        [85u8, 78u8]
    }
}

fn protocol_at(i: usize) -> (r: ProtocolKind)
    ensures
        r == demo_protocol(i as int),
{
    let k: usize = i % 5;
    if k == 0 {
        ProtocolKind::Vless
    } else if k == 1 {
        ProtocolKind::Trojan
    } else if k == 2 {
        ProtocolKind::Shadowsocks
    } else if k == 3 {
        ProtocolKind::Hysteria2
    } else {
        ProtocolKind::Tuic
    }
}

fn demo_row(i: usize) -> (r: HotNodeRow)
    requires
        i < u32::MAX,
    ensures
        soa_store::hot_row(r) == demo_view(i as int),
        r.source_sub_ids@.len() == 1,
{
    let mut name = "Demo node ".to_owned();
    name.append(padded_number(i as u64 + 1).as_str());
    let mut source_sub_ids: Vec<u16> = Vec::new();
    source_sub_ids.push((i % 3 + 1) as u16);
    assert(source_sub_ids@ =~= seq![(i % 3 + 1) as u16]);
    HotNodeRow {
        id: (i + 1) as u32,
        country_code: country_at(i),
        latency_ms: if i % 7 == 0 {
            UNTESTED_LATENCY
        } else {
            (30 + i % 600) as u16
        },
        health_score: (30 + i % 71) as u8,
        name,
        protocol: protocol_at(i),
        source_sub_ids,
    }
}

proof fn lemma_single_sources(rows: Seq<HotNodeRow>, n: nat)
    requires
        n <= rows.len(),
        forall|i: int| 0 <= i < rows.len() ==> (#[trigger] rows[i]).source_sub_ids@.len() == 1,
    ensures
        soa_store::source_count(rows, n) == n,
    decreases n,
{
    if n > 0 {
        lemma_single_sources(rows, (n - 1) as nat);
    }
}

/// A catalog for demonstrations.
pub fn demo_store(count: usize) -> (r: DenseNodeStore)
    requires
        count < u32::MAX,
    ensures
        r.wf(),
        r@ == Seq::new(count as nat, |i: int| demo_view(i)),
{
    let mut rows: Vec<HotNodeRow> = Vec::new();
    let mut i: usize = 0;
    while i < count
        invariant
            i <= count,
            count < u32::MAX,
            rows@.len() == i,
            forall|k: int|
                0 <= k < i ==> soa_store::hot_row(#[trigger] rows@[k]) == demo_view(k)
                    && rows@[k].source_sub_ids@.len() == 1,
        decreases count - i,
    {
        rows.push(demo_row(i));
        i += 1;
    }
    proof {
        lemma_single_sources(rows@, rows@.len());
        assert(rows@.map_values(|row: HotNodeRow| soa_store::hot_row(row)) =~= Seq::new(
            count as nat,
            |i: int| demo_view(i),
        ));
    }
    DenseNodeStore::from_hot_rows(rows)
}

} // verus!
