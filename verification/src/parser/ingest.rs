//! Ingestion: a subscription's bytes as a report of nodes and failures.
use crate::ir::hash_index::HashIndex;
use crate::ir::node;
use crate::ir::node::{CanonicalNode, NodeView, SubId};
use crate::parser::clash;
use crate::parser::error;
use crate::parser::error::{
    ErrorView, FailureView, IngestionReport, ParseError, ParseFailure, ReportView,
};
use crate::parser::uri;
use crate::parser::yaml;
use crate::parser::yaml::YamlView;
use crate::text;
use crate::time;
use vstd::prelude::*;
use vstd::string::*;

verus! {

/// The largest number of entries that one ingestion reads.
pub const MAX_ENTRIES: usize = 100000;

/// The largest number of failures that one report lists.
pub const MAX_FAILURES: usize = 10000;

/// The longest snippet, in characters.
pub const MAX_SNIPPET_BYTES: usize = 160;

// ---------------------------------------------------------------------------
// Model
// ---------------------------------------------------------------------------

/// The entries among lines, each with its line number: trimmed lines that are
/// neither empty nor comments.
pub open spec fn entries_of(lines: Seq<Seq<char>>) -> Seq<(nat, Seq<char>)>
    decreases lines.len(),
{
    if lines.len() == 0 {
        Seq::empty()
    } else {
        let before = entries_of(lines.drop_last());
        let line = text::trim(lines.last());
        if line.len() > 0 && line[0] != '#' {
            before.push((lines.len(), line))
        } else {
            before
        }
    }
}

/// The entries of a text.
pub open spec fn entries(s: Seq<char>) -> Seq<(nat, Seq<char>)> {
    entries_of(text::lines(s))
}

/// The model of a list of entries.
pub open spec fn entries_view(list: Seq<(usize, String)>) -> Seq<(nat, Seq<char>)> {
    list.map_values(|e: (usize, String)| (e.0 as nat, e.1@))
}

/// What may be shown of an entry: its scheme and nothing else.
pub open spec fn snippet(raw: Seq<u8>) -> Seq<char> {
    let shown = match crate::parser::format::scheme(text::trim(text::utf8_lossy(raw))) {
        Some(s) => s + "://[redacted]"@,
        None => "entry"@ + "://[redacted]"@,
    };
    if shown.len() > MAX_SNIPPET_BYTES {
        shown.take(MAX_SNIPPET_BYTES as int)
    } else {
        shown
    }
}

/// A report with one more failure, unless it lists as many as it may.
pub open spec fn with_failure(
    r: ReportView,
    entry_index: nat,
    line_number: nat,
    raw: Seq<u8>,
    reason: ErrorView,
) -> ReportView {
    if r.failures.len() < MAX_FAILURES {
        ReportView {
            failures: r.failures.push(
                FailureView { entry_index, line_number, raw_snippet: snippet(raw), reason },
            ),
            ..r
        }
    } else {
        r
    }
}

/// A node with the hash is among the nodes.
pub open spec fn has_hash(nodes: Seq<NodeView>, hash: Seq<u8>) -> bool {
    exists|i: int| 0 <= i < nodes.len() && (#[trigger] nodes[i]).hash == hash
}

/// A report after one more entry: a new node, a duplicate, or a failure.
pub open spec fn with_outcome(
    r: ReportView,
    entry_index: nat,
    line_number: nat,
    raw: Seq<u8>,
    outcome: Result<NodeView, ErrorView>,
) -> ReportView {
    let counted = ReportView { scanned: r.scanned + 1, ..r };
    match outcome {
        Ok(n) => if has_hash(r.nodes, n.hash) {
            ReportView { duplicates: r.duplicates + 1, ..counted }
        } else {
            ReportView { nodes: r.nodes.push(n), ..counted }
        },
        Err(reason) => with_failure(counted, entry_index, line_number, raw, reason),
    }
}

/// A report after the first `n` entries. `faults` are what the JSON reader says of
/// documents that it cannot read, one for each entry.
pub open spec fn scanned(
    start: ReportView,
    list: Seq<(nat, Seq<char>)>,
    n: nat,
    sub_id: SubId,
    timestamp: u64,
    faults: Seq<Seq<char>>,
) -> ReportView
    decreases n,
{
    if n == 0 {
        start
    } else {
        let i = (n - 1) as nat;
        with_outcome(
            scanned(start, list, i, sub_id, timestamp, faults),
            i,
            list[i as int].0,
            vstd::utf8::encode_utf8(list[i as int].1),
            uri::entry_node(list[i as int].1, sub_id, timestamp, faults[i as int]),
        )
    }
}

pub open spec fn at_most(n: nat, limit: nat) -> nat {
    if n < limit {
        n
    } else {
        limit
    }
}

/// A report after all entries of a list, up to the limit.
pub open spec fn scan(
    start: ReportView,
    list: Seq<(nat, Seq<char>)>,
    sub_id: SubId,
    timestamp: u64,
    faults: Seq<Seq<char>>,
) -> ReportView {
    scanned(start, list, at_most(list.len(), MAX_ENTRIES as nat), sub_id, timestamp, faults)
}

/// A report after the first `n` outcomes of a document.
pub open spec fn listed(
    start: ReportView,
    raw: Seq<u8>,
    outcomes: Seq<Result<NodeView, ErrorView>>,
    n: nat,
) -> ReportView
    decreases n,
{
    if n == 0 {
        start
    } else {
        let i = (n - 1) as nat;
        with_outcome(listed(start, raw, outcomes, i), i, n, raw, outcomes[i as int])
    }
}

/// The report on a Clash document.
pub open spec fn clash_report(raw: Seq<u8>, s: Seq<char>, sub_id: SubId, timestamp: u64) -> ReportView {
    match clash::clash_nodes(s, sub_id, timestamp) {
        Err(reason) => with_failure(error::empty_report(), 0, 1, raw, reason),
        Ok(outcomes) => listed(
            error::empty_report(),
            raw,
            outcomes,
            at_most(outcomes.len(), MAX_ENTRIES as nat),
        ),
    }
}

/// Some entry has a known scheme.
pub open spec fn any_known(list: Seq<(nat, Seq<char>)>) -> bool {
    exists|i: int|
        0 <= i < list.len() && crate::parser::format::has_known_scheme((#[trigger] list[i]).1)
}

/// The characters that are not white space.
pub open spec fn without_space(s: Seq<char>) -> Seq<char> {
    s.filter(|c: char| !text::is_space(c))
}

pub open spec fn singbox_failure(raw: Seq<u8>) -> ReportView {
    with_failure(
        error::empty_report(),
        0,
        1,
        raw,
        ParseError::UnsupportedFormat(
            "sing-box JSON configuration is not supported; use proxy URI entries"@,
        ),
    )
}

pub open spec fn bundle_failure(raw: Seq<u8>) -> ReportView {
    with_failure(
        error::empty_report(),
        0,
        1,
        raw,
        ParseError::UnsupportedFormat("input is not a supported URI bundle"@),
    )
}

/// The report on a decoded bundle; `list` are the entries of the text as it came.
pub open spec fn bundle_report(
    raw: Seq<u8>,
    list: Seq<(nat, Seq<char>)>,
    decoded: Seq<u8>,
    sub_id: SubId,
    timestamp: u64,
    faults: Seq<Seq<char>>,
) -> ReportView {
    if !vstd::utf8::valid_utf8(decoded) {
        scan(bundle_failure(raw), list, sub_id, timestamp, faults)
    } else {
        let s = vstd::utf8::decode_utf8(decoded);
        if crate::parser::format::has_known_line(s) {
            scan(error::empty_report(), entries(s), sub_id, timestamp, faults)
        } else {
            match crate::parser::format::container(s) {
                Some(crate::parser::format::ContainerKind::ClashYaml) => clash_report(
                    raw,
                    s,
                    sub_id,
                    timestamp,
                ),
                Some(crate::parser::format::ContainerKind::SingBoxJson) => singbox_failure(raw),
                None => scan(bundle_failure(raw), list, sub_id, timestamp, faults),
            }
        }
    }
}

/// The report on a text in which no entry has a known scheme.
pub open spec fn opaque_report(
    raw: Seq<u8>,
    s: Seq<char>,
    sub_id: SubId,
    timestamp: u64,
    faults: Seq<Seq<char>>,
) -> ReportView {
    match crate::parser::format::container(s) {
        Some(crate::parser::format::ContainerKind::ClashYaml) => clash_report(
            raw,
            s,
            sub_id,
            timestamp,
        ),
        Some(crate::parser::format::ContainerKind::SingBoxJson) => singbox_failure(raw),
        None => match crate::parser::format::bundle(vstd::utf8::encode_utf8(without_space(s))) {
            Ok(decoded) => bundle_report(raw, entries(s), decoded, sub_id, timestamp, faults),
            Err(e) => scan(
                with_failure(error::empty_report(), 0, 1, raw, ParseError::Base64Decode(e)),
                entries(s),
                sub_id,
                timestamp,
                faults,
            ),
        },
    }
}

/// The report on a subscription. `faults` are what the JSON reader says of documents
/// that it cannot read, one for each entry; they depend on the machine.
pub open spec fn report(
    raw: Seq<u8>,
    sub_id: SubId,
    timestamp: u64,
    faults: Seq<Seq<char>>,
) -> ReportView {
    if !vstd::utf8::valid_utf8(raw) {
        with_failure(
            error::empty_report(),
            0,
            1,
            raw,
            ParseError::InvalidUri(text::utf8_error_text(raw)),
        )
    } else {
        let s = vstd::utf8::decode_utf8(raw);
        if entries(s).len() > 0 && !any_known(entries(s)) {
            opaque_report(raw, s, sub_id, timestamp, faults)
        } else {
            scan(error::empty_report(), entries(s), sub_id, timestamp, faults)
        }
    }
}

/// `r` is the report on a subscription, with some texts for the documents that the
/// JSON reader cannot read.
pub open spec fn is_report(raw: Seq<u8>, sub_id: SubId, timestamp: u64, r: ReportView) -> bool {
    exists|faults: Seq<Seq<char>>| r == #[trigger] report(raw, sub_id, timestamp, faults)
}

/// The nodes of the report on a subscription. What the JSON reader says of documents
/// that it cannot read has no part in them.
pub open spec fn reported_nodes(raw: Seq<u8>, sub_id: SubId, timestamp: u64) -> Seq<NodeView> {
    report(raw, sub_id, timestamp, Seq::empty()).nodes
}

// ---------------------------------------------------------------------------
// Laws
// ---------------------------------------------------------------------------

/// The failures are the same, but for the text in a JSON error.
pub open spec fn same_failure(a: FailureView, b: FailureView) -> bool {
    &&& a.entry_index == b.entry_index
    &&& a.line_number == b.line_number
    &&& a.raw_snippet == b.raw_snippet
    &&& a.reason == b.reason || (a.reason is Json && b.reason is Json)
}

/// The reports are the same, but for the texts in JSON errors.
pub open spec fn same_report(a: ReportView, b: ReportView) -> bool {
    &&& a.scanned == b.scanned
    &&& a.nodes == b.nodes
    &&& a.duplicates == b.duplicates
    &&& a.failures.len() == b.failures.len()
    &&& forall|i: int|
        0 <= i < a.failures.len() ==> same_failure(#[trigger] a.failures[i], b.failures[i])
}

/// What the JSON reader says of documents that it cannot read decides nothing: with
/// other texts a report is the same, but for these texts.
pub proof fn law_fault_texts_change_no_report(
    raw: Seq<u8>,
    sub_id: SubId,
    timestamp: u64,
    a: Seq<Seq<char>>,
    b: Seq<Seq<char>>,
)
    ensures
        same_report(report(raw, sub_id, timestamp, a), report(raw, sub_id, timestamp, b)),
{
    if vstd::utf8::valid_utf8(raw) {
        let empty = error::empty_report();
        let s = vstd::utf8::decode_utf8(raw);
        let list = entries(s);
        lemma_same_scan(empty, list, sub_id, timestamp, a, b);
        lemma_same_scan(bundle_failure(raw), list, sub_id, timestamp, a, b);
        match crate::parser::format::bundle(vstd::utf8::encode_utf8(without_space(s))) {
            Ok(decoded) => {
                let t = vstd::utf8::decode_utf8(decoded);
                lemma_same_scan(empty, entries(t), sub_id, timestamp, a, b);
            },
            Err(e) => {
                lemma_same_scan(
                    with_failure(empty, 0, 1, raw, ParseError::Base64Decode(e)),
                    list,
                    sub_id,
                    timestamp,
                    a,
                    b,
                );
            },
        }
    }
}

proof fn lemma_same_scan(
    start: ReportView,
    list: Seq<(nat, Seq<char>)>,
    sub_id: SubId,
    timestamp: u64,
    a: Seq<Seq<char>>,
    b: Seq<Seq<char>>,
)
    ensures
        same_report(
            scan(start, list, sub_id, timestamp, a),
            scan(start, list, sub_id, timestamp, b),
        ),
{
    lemma_same_scanned(
        start,
        list,
        at_most(list.len(), MAX_ENTRIES as nat),
        sub_id,
        timestamp,
        a,
        b,
    );
}

proof fn lemma_same_scanned(
    start: ReportView,
    list: Seq<(nat, Seq<char>)>,
    n: nat,
    sub_id: SubId,
    timestamp: u64,
    a: Seq<Seq<char>>,
    b: Seq<Seq<char>>,
)
    ensures
        same_report(
            scanned(start, list, n, sub_id, timestamp, a),
            scanned(start, list, n, sub_id, timestamp, b),
        ),
    decreases n,
{
    if n > 0 {
        let i = (n - 1) as nat;
        lemma_same_scanned(start, list, i, sub_id, timestamp, a, b);
        uri::law_fault_texts_decide_nothing(
            list[i as int].1,
            sub_id,
            timestamp,
            a[i as int],
            b[i as int],
        );
    }
}

/// A report on some entries takes the texts of these entries only.
proof fn lemma_scanned_prefix(
    start: ReportView,
    list: Seq<(nat, Seq<char>)>,
    n: nat,
    sub_id: SubId,
    timestamp: u64,
    a: Seq<Seq<char>>,
    b: Seq<Seq<char>>,
)
    requires
        forall|i: int| 0 <= i < n ==> #[trigger] a[i] == b[i],
    ensures
        scanned(start, list, n, sub_id, timestamp, a) == scanned(
            start,
            list,
            n,
            sub_id,
            timestamp,
            b,
        ),
    decreases n,
{
    if n > 0 {
        lemma_scanned_prefix(start, list, (n - 1) as nat, sub_id, timestamp, a, b);
        assert(a[n - 1] == b[n - 1]);
    }
}

/// The nodes are canonical, no two have the same hash, and the counts fit.
pub open spec fn is_sound(r: ReportView) -> bool {
    &&& forall|i: int| 0 <= i < r.nodes.len() ==> node::is_canonical(#[trigger] r.nodes[i])
    &&& forall|i: int, j: int|
        0 <= i < j < r.nodes.len() ==> (#[trigger] r.nodes[i]).hash != (#[trigger] r.nodes[j]).hash
    &&& r.failures.len() <= MAX_FAILURES
    &&& r.nodes.len() + r.duplicates <= r.scanned
    &&& r.failures.len() < MAX_FAILURES ==> r.scanned <= r.nodes.len() + r.duplicates
        + r.failures.len()
}

/// Every report lists canonical nodes only, no two of them with the same
/// functional identity hash; it accounts for every entry that was scanned, and
/// it stays within the limits.
pub proof fn law_reports_are_sound(
    raw: Seq<u8>,
    sub_id: SubId,
    timestamp: u64,
    faults: Seq<Seq<char>>,
)
    ensures
        is_sound(report(raw, sub_id, timestamp, faults)),
        report(raw, sub_id, timestamp, faults).scanned <= MAX_ENTRIES,
{
    let empty = error::empty_report();
    if vstd::utf8::valid_utf8(raw) {
        let s = vstd::utf8::decode_utf8(raw);
        let list = entries(s);
        lemma_scan(empty, list, at_most(list.len(), MAX_ENTRIES as nat), sub_id, timestamp, faults);
        lemma_scan(
            bundle_failure(raw),
            list,
            at_most(list.len(), MAX_ENTRIES as nat),
            sub_id,
            timestamp,
            faults,
        );
        lemma_clash_report(raw, s, sub_id, timestamp);
        match crate::parser::format::bundle(vstd::utf8::encode_utf8(without_space(s))) {
            Ok(decoded) => {
                let t = vstd::utf8::decode_utf8(decoded);
                lemma_scan(
                    empty,
                    entries(t),
                    at_most(entries(t).len(), MAX_ENTRIES as nat),
                    sub_id,
                    timestamp,
                    faults,
                );
                lemma_clash_report(raw, t, sub_id, timestamp);
            },
            Err(e) => {
                lemma_scan(
                    with_failure(empty, 0, 1, raw, ParseError::Base64Decode(e)),
                    list,
                    at_most(list.len(), MAX_ENTRIES as nat),
                    sub_id,
                    timestamp,
                    faults,
                );
            },
        }
    }
}

/// Ingesting an entry again adds no node: what is listed already counts as a
/// duplicate.
pub proof fn law_repeated_entries_are_duplicates(
    r: ReportView,
    entry_index: nat,
    line_number: nat,
    raw: Seq<u8>,
    n: NodeView,
)
    requires
        has_hash(r.nodes, n.hash),
    ensures
        with_outcome(r, entry_index, line_number, raw, Ok(n)).nodes == r.nodes,
        with_outcome(r, entry_index, line_number, raw, Ok(n)).duplicates == r.duplicates + 1,
{
}

/// A malformed entry does not abort the others: whatever stands around it, an
/// entry that describes a node leaves a node with its hash in the report.
pub proof fn law_malformed_entries_do_not_abort(
    start: ReportView,
    list: Seq<(nat, Seq<char>)>,
    n: nat,
    sub_id: SubId,
    timestamp: u64,
    faults: Seq<Seq<char>>,
    i: int,
)
    requires
        0 <= i < n <= list.len(),
        uri::entry_node(list[i].1, sub_id, timestamp, faults[i]) is Ok,
    ensures
        has_hash(
            scanned(start, list, n, sub_id, timestamp, faults).nodes,
            uri::entry_node(list[i].1, sub_id, timestamp, faults[i])->Ok_0.hash,
        ),
    decreases n,
{
    let k = (n - 1) as nat;
    let before = scanned(start, list, k, sub_id, timestamp, faults).nodes;
    let after = scanned(start, list, n, sub_id, timestamp, faults).nodes;
    let hash = uri::entry_node(list[i].1, sub_id, timestamp, faults[i])->Ok_0.hash;
    if i < k {
        law_malformed_entries_do_not_abort(start, list, k, sub_id, timestamp, faults, i);
        let at = choose|at: int| 0 <= at < before.len() && (#[trigger] before[at]).hash == hash;
        assert(after[at] == before[at]);
    } else if !has_hash(before, hash) {
        assert(after[before.len() as int].hash == hash);
    }
}

/// What a report shows of a failed entry tells nothing but its scheme: entries of
/// one scheme have one snippet, whatever credentials they hold.
pub proof fn law_snippets_show_only_the_scheme(a: Seq<u8>, b: Seq<u8>)
    requires
        crate::parser::format::scheme(text::trim(text::utf8_lossy(a)))
            == crate::parser::format::scheme(text::trim(text::utf8_lossy(b))),
    ensures
        snippet(a) == snippet(b),
{
}

proof fn lemma_outcome(
    r: ReportView,
    entry_index: nat,
    line_number: nat,
    raw: Seq<u8>,
    outcome: Result<NodeView, ErrorView>,
)
    requires
        is_sound(r),
        outcome matches Ok(n) ==> node::is_canonical(n),
    ensures
        is_sound(with_outcome(r, entry_index, line_number, raw, outcome)),
        with_outcome(r, entry_index, line_number, raw, outcome).scanned == r.scanned + 1,
{
    let after = with_outcome(r, entry_index, line_number, raw, outcome);
    if let Ok(n) = outcome {
        if !has_hash(r.nodes, n.hash) {
            assert forall|i: int, j: int| 0 <= i < j < after.nodes.len() implies (
            #[trigger] after.nodes[i]).hash != (#[trigger] after.nodes[j]).hash by {
                if j == r.nodes.len() {
                    assert(r.nodes[i].hash != n.hash);
                }
            }
        }
    }
}

proof fn lemma_scan(
    start: ReportView,
    list: Seq<(nat, Seq<char>)>,
    n: nat,
    sub_id: SubId,
    timestamp: u64,
    faults: Seq<Seq<char>>,
)
    requires
        is_sound(start),
        start.scanned == 0,
        n <= list.len(),
    ensures
        is_sound(scanned(start, list, n, sub_id, timestamp, faults)),
        scanned(start, list, n, sub_id, timestamp, faults).scanned == n,
    decreases n,
{
    if n > 0 {
        let i = (n - 1) as nat;
        lemma_scan(start, list, i, sub_id, timestamp, faults);
        lemma_entry_is_canonical(list[i as int].1, sub_id, timestamp, faults[i as int]);
        lemma_outcome(
            scanned(start, list, i, sub_id, timestamp, faults),
            i,
            list[i as int].0,
            vstd::utf8::encode_utf8(list[i as int].1),
            uri::entry_node(list[i as int].1, sub_id, timestamp, faults[i as int]),
        );
    }
}

proof fn lemma_listed(
    raw: Seq<u8>,
    outcomes: Seq<Result<NodeView, ErrorView>>,
    n: nat,
)
    requires
        n <= outcomes.len(),
        forall|i: int|
            0 <= i < outcomes.len() ==> ((#[trigger] outcomes[i]) matches Ok(x)
                ==> node::is_canonical(x)),
    ensures
        is_sound(listed(error::empty_report(), raw, outcomes, n)),
        listed(error::empty_report(), raw, outcomes, n).scanned == n,
    decreases n,
{
    if n > 0 {
        let i = (n - 1) as nat;
        lemma_listed(raw, outcomes, i);
        lemma_outcome(
            listed(error::empty_report(), raw, outcomes, i),
            i,
            n,
            raw,
            outcomes[i as int],
        );
    }
}

proof fn lemma_clash_report(raw: Seq<u8>, s: Seq<char>, sub_id: SubId, timestamp: u64)
    ensures
        is_sound(clash_report(raw, s, sub_id, timestamp)),
        clash_report(raw, s, sub_id, timestamp).scanned <= MAX_ENTRIES,
{
    if let Ok(outcomes) = clash::clash_nodes(s, sub_id, timestamp) {
        assert forall|i: int| 0 <= i < outcomes.len() implies ((#[trigger] outcomes[i]) matches Ok(
            x,
        ) ==> node::is_canonical(x)) by {
            lemma_items_are_canonical(s, sub_id, timestamp, i);
        }
        lemma_listed(raw, outcomes, at_most(outcomes.len(), MAX_ENTRIES as nat));
    }
}

proof fn lemma_made(
    meta: node::NodeMetadata<Seq<char>>,
    endpoint: node::EndpointView,
    protocol: crate::ir::protocol::ProtocolSpec<Seq<char>, Seq<crate::ip::IpView>>,
    transport: crate::ir::transport::TransportSpec<Seq<char>>,
    security: crate::ir::transport::SecuritySpec<Seq<char>, Seq<Seq<char>>>,
)
    ensures
        uri::made_node(meta, endpoint, protocol, transport, security) matches Ok(n)
            ==> node::is_canonical(n),
{
    if node::canonical_node(meta, endpoint, protocol, transport, security, None) is Ok {
        node::law_made_nodes_are_canonical(meta, endpoint, protocol, transport, security, None);
    }
}

proof fn lemma_entry_is_canonical(
    raw: Seq<char>,
    sub_id: SubId,
    timestamp: u64,
    fault: Seq<char>,
)
    ensures
        uri::entry_node(raw, sub_id, timestamp, fault) matches Ok(n) ==> node::is_canonical(n),
{
    reveal(uri::entry_node);
    lemma_made_everywhere();
}

proof fn lemma_ss_item(item: YamlView, sub_id: SubId, timestamp: u64)
    ensures
        clash::ss_item(item, sub_id, timestamp) matches Ok(n) ==> node::is_canonical(n),
{
    lemma_made_everywhere();
}

proof fn lemma_vmess_item(item: YamlView, sub_id: SubId, timestamp: u64)
    ensures
        clash::vmess_item(item, sub_id, timestamp) matches Ok(n) ==> node::is_canonical(n),
{
    lemma_made_everywhere();
}

proof fn lemma_trojan_item(item: YamlView, sub_id: SubId, timestamp: u64)
    ensures
        clash::trojan_item(item, sub_id, timestamp) matches Ok(n) ==> node::is_canonical(n),
{
    lemma_made_everywhere();
}

proof fn lemma_vless_item(item: YamlView, sub_id: SubId, timestamp: u64)
    ensures
        clash::vless_item(item, sub_id, timestamp) matches Ok(n) ==> node::is_canonical(n),
{
    lemma_made_everywhere();
}

proof fn lemma_hysteria2_item(item: YamlView, sub_id: SubId, timestamp: u64)
    ensures
        clash::hysteria2_item(item, sub_id, timestamp) matches Ok(n) ==> node::is_canonical(n),
{
    lemma_made_everywhere();
}

proof fn lemma_tuic_item(item: YamlView, sub_id: SubId, timestamp: u64)
    ensures
        clash::tuic_item(item, sub_id, timestamp) matches Ok(n) ==> node::is_canonical(n),
{
    lemma_made_everywhere();
}

proof fn lemma_item_is_canonical(item: YamlView, sub_id: SubId, timestamp: u64)
    ensures
        clash::item_node(item, sub_id, timestamp) matches Ok(n) ==> node::is_canonical(n),
{
    reveal(clash::item_node);
    lemma_ss_item(item, sub_id, timestamp);
    lemma_vmess_item(item, sub_id, timestamp);
    lemma_trojan_item(item, sub_id, timestamp);
    lemma_vless_item(item, sub_id, timestamp);
    lemma_hysteria2_item(item, sub_id, timestamp);
    lemma_tuic_item(item, sub_id, timestamp);
}

proof fn lemma_items_are_canonical(s: Seq<char>, sub_id: SubId, timestamp: u64, i: int)
    requires
        clash::clash_nodes(s, sub_id, timestamp) is Ok,
        0 <= i < clash::clash_nodes(s, sub_id, timestamp)->Ok_0.len(),
    ensures
        clash::clash_nodes(s, sub_id, timestamp)->Ok_0[i] matches Ok(n) ==> node::is_canonical(n),
{
    reveal(clash::clash_nodes);
    let document = yaml::yaml_document(s)->Ok_0;
    let list = yaml::member(document, "proxies"@)->0;
    lemma_item_is_canonical(yaml::untagged(list)->Sequence_0[i], sub_id, timestamp);
}

proof fn lemma_made_everywhere()
    ensures
        forall|
            meta: node::NodeMetadata<Seq<char>>,
            endpoint: node::EndpointView,
            protocol: crate::ir::protocol::ProtocolSpec<Seq<char>, Seq<crate::ip::IpView>>,
            transport: crate::ir::transport::TransportSpec<Seq<char>>,
            security: crate::ir::transport::SecuritySpec<Seq<char>, Seq<Seq<char>>>,
        |
            ((#[trigger] uri::made_node(meta, endpoint, protocol, transport, security)) matches Ok(n)
                ==> node::is_canonical(n)),
{
    assert forall|
        meta: node::NodeMetadata<Seq<char>>,
        endpoint: node::EndpointView,
        protocol: crate::ir::protocol::ProtocolSpec<Seq<char>, Seq<crate::ip::IpView>>,
        transport: crate::ir::transport::TransportSpec<Seq<char>>,
        security: crate::ir::transport::SecuritySpec<Seq<char>, Seq<Seq<char>>>,
    |
        ((#[trigger] uri::made_node(meta, endpoint, protocol, transport, security)) matches Ok(n)
            ==> node::is_canonical(n)) by {
        lemma_made(meta, endpoint, protocol, transport, security);
    }
}

// ---------------------------------------------------------------------------
// Executable forms
// ---------------------------------------------------------------------------

/// What may be shown of an entry.
pub fn safe_snippet(raw: &[u8]) -> (r: String)
    ensures
        r@ == snippet(raw@),
{
    let lossy = text::from_utf8_lossy(raw);
    let chars = text::to_chars(lossy.as_str());
    let trimmed = text::trim_chars(&chars);
    let mut shown = match crate::parser::format::scheme_chars(trimmed) {
        Some(s) => text::from_chars(s),
        None => "entry".to_owned(),
    };
    shown.append("://[redacted]");
    let all = text::to_chars(shown.as_str());
    if all.len() > MAX_SNIPPET_BYTES {
        let head = vstd::slice::slice_subrange(&all, 0, MAX_SNIPPET_BYTES);
        assert(head@ =~= all@.take(MAX_SNIPPET_BYTES as int));
        text::from_chars(head)
    } else {
        shown
    }
}

/// The entries of a text, each with its line number.
pub fn collect_entries(s: &str) -> (r: Vec<(usize, String)>)
    ensures
        entries_view(r@) == entries(s@),
{
    let chars = text::to_chars(s);
    let lines = text::split_lines(&chars);
    let ghost view = |l: &[char]| l@;
    let ghost model = text::lines(s@);
    let ghost pair = |e: (usize, String)| (e.0 as nat, e.1@);
    assert(lines@.map_values(view) == model);
    let mut out: Vec<(usize, String)> = Vec::new();
    let mut i: usize = 0;
    assert(out@.map_values(pair) =~= Seq::empty());
    while i < lines.len()
        invariant
            i <= lines@.len(),
            view == (|l: &[char]| l@),
            pair == (|e: (usize, String)| (e.0 as nat, e.1@)),
            lines@.map_values(view) == model,
            model == text::lines(s@),
            out@.map_values(pair) == entries_of(model.take(i as int)),
        decreases lines@.len() - i,
    {
        let ghost before = out@.map_values(pair);
        assert(model.take(i + 1).drop_last() =~= model.take(i as int));
        assert(model.take(i + 1).last() == lines@[i as int]@);
        let line = text::trim_chars(lines[i]);
        if line.len() > 0 && line[0] != '#' {
            let entry = (i + 1, text::from_chars(line));
            out.push(entry);
            assert(out@.map_values(pair) =~= before.push((entry.0 as nat, entry.1@)));
        }
        i += 1;
    }
    assert(model.take(model.len() as int) =~= model);
    out
}

fn record_failure(
    report: &mut IngestionReport,
    entry_index: usize,
    line_number: usize,
    raw: &[u8],
    reason: ParseError,
)
    ensures
        final(report)@ == with_failure(
            old(report)@,
            entry_index as nat,
            line_number as nat,
            raw@,
            reason@,
        ),
        final(report).successful_nodes == old(report).successful_nodes,
        final(report).total_entries_scanned == old(report).total_entries_scanned,
        final(report).duplicates_omitted == old(report).duplicates_omitted,
{
    if report.failed_entries.len() < MAX_FAILURES {
        let ghost before = report@;
        let failure = ParseFailure {
            entry_index,
            line_number,
            raw_snippet: safe_snippet(raw),
            reason,
        };
        report.failed_entries.push(failure);
        assert(report@.failures =~= before.failures.push(failure@));
    }
}

/// Adds the outcome of one entry to a report.
fn record_outcome(
    report: &mut IngestionReport,
    index: &mut HashIndex,
    entry_index: usize,
    line_number: usize,
    raw: &[u8],
    outcome: Result<CanonicalNode, ParseError>,
)
    requires
        old(index).covers(
            old(report).successful_nodes@,
            old(report).successful_nodes@.len() as int,
        ),
        old(report).total_entries_scanned < MAX_ENTRIES,
        old(report).duplicates_omitted <= old(report).total_entries_scanned,
    ensures
        final(report)@ == with_outcome(
            old(report)@,
            entry_index as nat,
            line_number as nat,
            raw@,
            error::entry_result(outcome),
        ),
        final(index).covers(
            final(report).successful_nodes@,
            final(report).successful_nodes@.len() as int,
        ),
        final(report).total_entries_scanned == old(report).total_entries_scanned + 1,
        final(report).duplicates_omitted <= final(report).total_entries_scanned,
{
    let ghost before = report@;
    let ghost nodes = report.successful_nodes@;
    report.total_entries_scanned += 1;
    match outcome {
        Ok(node) => {
            let count: usize = report.successful_nodes.len();
            let known = index.holds(&report.successful_nodes, count, &node.hash);
            proof {
                assert(known == has_hash(before.nodes, node@.hash)) by {
                    if known {
                        let i = choose|i: int|
                            0 <= i < nodes.len() && (#[trigger] nodes[i]).hash@ == node.hash@;
                        assert(before.nodes[i].hash == node@.hash);
                    }
                    if has_hash(before.nodes, node@.hash) {
                        let i = choose|i: int|
                            0 <= i < before.nodes.len() && (#[trigger] before.nodes[i]).hash
                                == node@.hash;
                        assert(nodes[i].hash@ == node.hash@);
                    }
                }
            }
            if known {
                report.duplicates_omitted += 1;
            } else {
                report.successful_nodes.push(node);
                proof {
                    index.lemma_extends(nodes, report.successful_nodes@, count as int);
                }
                index.note(&report.successful_nodes, count);
                assert(report@.nodes =~= before.nodes.push(node@));
            }
        },
        Err(reason) => record_failure(report, entry_index, line_number, raw, reason),
    }
}

/// Reads the entries of a list into a report.
fn scan_entries(
    report: &mut IngestionReport,
    list: &Vec<(usize, String)>,
    sub_id: SubId,
    import_timestamp: u64,
)
    requires
        old(report).successful_nodes@.len() == 0,
        old(report).total_entries_scanned == 0,
        old(report).duplicates_omitted == 0,
    ensures
        exists|faults: Seq<Seq<char>>|
            final(report)@ == #[trigger] scan(
                old(report)@,
                entries_view(list@),
                sub_id,
                import_timestamp,
                faults,
            ),
{
    let ghost mut faults = Seq::<Seq<char>>::empty();
    let ghost start = report@;
    let ghost model = entries_view(list@);
    let mut index = HashIndex::new::<CanonicalNode>();
    assert(report.successful_nodes@ =~= Seq::empty());
    let mut i: usize = 0;
    while i < list.len() && i < MAX_ENTRIES
        invariant
            i <= list@.len(),
            i <= MAX_ENTRIES,
            model == entries_view(list@),
            index.covers(report.successful_nodes@, report.successful_nodes@.len() as int),
            report.total_entries_scanned == i,
            report.duplicates_omitted <= i,
            faults.len() == i,
            report@ == scanned(start, model, i as nat, sub_id, import_timestamp, faults),
        decreases list@.len() - i,
    {
        let entry = list[i].1.as_str();
        assert(model[i as int] == (list@[i as int].0 as nat, list@[i as int].1@));
        let outcome = uri::parse_entry(entry, sub_id, import_timestamp);
        proof {
            let before = faults;
            let fault = choose|fault: Seq<char>|
                error::entry_result(outcome) == #[trigger] uri::entry_node(
                    entry@,
                    sub_id,
                    import_timestamp,
                    fault,
                );
            faults = before.push(fault);
            lemma_scanned_prefix(
                start,
                model,
                i as nat,
                sub_id,
                import_timestamp,
                before,
                faults,
            );
        }
        record_outcome(report, &mut index, i, list[i].0, entry.as_bytes(), outcome);
        i += 1;
    }
    assert(report@ == scan(start, model, sub_id, import_timestamp, faults));
}

/// Reads the outcomes of a Clash document into a report.
pub fn ingest_clash_document(
    report: &mut IngestionReport,
    raw: &[u8],
    s: &str,
    sub_id: SubId,
    import_timestamp: u64,
)
    requires
        old(report)@ == error::empty_report(),
    ensures
        final(report)@ == clash_report(raw@, s@, sub_id, import_timestamp),
{
    let ghost start = report@;
    let outcomes = match clash::ingest_clash_yaml(s, sub_id, import_timestamp) {
        Ok(v) => v,
        Err(reason) => {
            record_failure(report, 0, 1, raw, reason);
            return ;
        },
    };
    let ghost model = clash::outcomes_view(outcomes@);
    let mut rest = outcomes;
    let mut index = HashIndex::new::<CanonicalNode>();
    assert(report.successful_nodes@.len() == report@.nodes.len());
    assert(report.successful_nodes@ =~= Seq::empty());
    let mut i: usize = 0;
    let total: usize = if rest.len() < MAX_ENTRIES {
        rest.len()
    } else {
        MAX_ENTRIES
    };
    rest.truncate(total);
    let mut pending: Vec<Result<CanonicalNode, ParseError>> = Vec::new();
    // Outcomes are taken from the end, so their order is turned round first.
    while rest.len() > 0
        invariant
            rest@.len() + pending@.len() == total,
            total <= model.len(),
            clash::outcomes_view(rest@) == model.take(rest@.len() as int),
            forall|k: int|
                0 <= k < pending@.len() ==> error::entry_result(#[trigger] pending@[k])
                    == model[total - 1 - k],
        decreases rest@.len(),
    {
        let ghost kept = clash::outcomes_view(rest@);
        let ghost n = rest@.len();
        match rest.pop() {
            Some(outcome) => {
                proof {
                    assert(kept[n - 1] == model[n - 1]);
                    assert(error::entry_result(outcome) == model[n - 1]);
                    assert(clash::outcomes_view(rest@) =~= model.take(rest@.len() as int));
                }
                pending.push(outcome);
            },
            None => {},
        }
    }
    while pending.len() > 0
        invariant
            i + pending@.len() == total,
            total <= MAX_ENTRIES,
            total <= model.len(),
            forall|k: int|
                0 <= k < pending@.len() ==> error::entry_result(#[trigger] pending@[k])
                    == model[total - 1 - k],
            index.covers(report.successful_nodes@, report.successful_nodes@.len() as int),
            report.total_entries_scanned == i,
            report.duplicates_omitted <= i,
            report@ == listed(start, raw@, model, i as nat),
        decreases pending@.len(),
    {
        let ghost last = pending@[pending@.len() - 1];
        assert(error::entry_result(last) == model[i as int]);
        match pending.pop() {
            Some(outcome) => record_outcome(report, &mut index, i, i + 1, raw, outcome),
            None => {},
        }
        i += 1;
    }
}

/// Whether some entry has a known scheme.
fn has_known_entry(list: &Vec<(usize, String)>) -> (r: bool)
    ensures
        r == any_known(entries_view(list@)),
{
    let ghost model = entries_view(list@);
    let mut i: usize = 0;
    while i < list.len()
        invariant
            i <= list@.len(),
            model == entries_view(list@),
            forall|k: int|
                0 <= k < i ==> !crate::parser::format::has_known_scheme((#[trigger] model[k]).1),
        decreases list@.len() - i,
    {
        assert(model[i as int] == (list@[i as int].0 as nat, list@[i as int].1@));
        if crate::parser::format::is_supported_scheme(list[i].1.as_str()) {
            return true;
        }
        i += 1;
    }
    false
}

/// A text without its white space.
fn join_chars(s: &str) -> (r: String)
    ensures
        r@ == without_space(s@),
{
    let chars = text::to_chars(s);
    let ghost keep = |c: char| !text::is_space(c);
    let mut out: Vec<char> = Vec::new();
    let mut i: usize = 0;
    proof {
        reveal(Seq::filter);
        assert(out@ =~= chars@.take(0).filter(keep));
    }
    while i < chars.len()
        invariant
            i <= chars@.len(),
            keep == (|c: char| !text::is_space(c)),
            out@ == chars@.take(i as int).filter(keep),
        decreases chars@.len() - i,
    {
        proof {
            reveal(Seq::filter);
            assert(chars@.take(i + 1).drop_last() =~= chars@.take(i as int));
        }
        if !text::is_space_char(chars[i]) {
            out.push(chars[i]);
        }
        i += 1;
    }
    assert(chars@.take(chars@.len() as int) =~= chars@);
    text::from_chars(&out)
}

/// Reads a subscription that was imported at the given time.
pub fn ingest_with_timestamp(raw: &[u8], sub_id: SubId, import_timestamp: u64) -> (r:
    IngestionReport)
    ensures
        is_report(raw@, sub_id, import_timestamp, r@),
        r@.nodes == reported_nodes(raw@, sub_id, import_timestamp),
{
    let r = read_subscription(raw, sub_id, import_timestamp);
    proof {
        let faults = choose|faults: Seq<Seq<char>>|
            r@ == #[trigger] report(raw@, sub_id, import_timestamp, faults);
        law_fault_texts_change_no_report(
            raw@,
            sub_id,
            import_timestamp,
            faults,
            Seq::empty(),
        );
    }
    r
}

fn read_subscription(raw: &[u8], sub_id: SubId, import_timestamp: u64) -> (r: IngestionReport)
    ensures
        is_report(raw@, sub_id, import_timestamp, r@),
{
    let ghost quiet = report(raw@, sub_id, import_timestamp, Seq::empty());
    let mut report = IngestionReport::default();
    assert(report.successful_nodes@.len() == report@.nodes.len());
    let s = match text::from_utf8(raw) {
        Ok(s) => s,
        Err(e) => {
            record_failure(&mut report, 0, 1, raw, ParseError::InvalidUri(e));
            return report;
        },
    };
    let list = collect_entries(s.as_str());
    assert(list@.len() == entries(s@).len()) by {
        assert(entries_view(list@).len() == list@.len());
    }
    if list.len() > 0 && !has_known_entry(&list) {
        match crate::parser::format::detect_container(s.as_str()) {
            Some(crate::parser::format::ContainerKind::ClashYaml) => {
                ingest_clash_document(&mut report, raw, s.as_str(), sub_id, import_timestamp);
                return report;
            },
            Some(crate::parser::format::ContainerKind::SingBoxJson) => {
                record_failure(
                    &mut report,
                    0,
                    1,
                    raw,
                    ParseError::UnsupportedFormat(
                        "sing-box JSON configuration is not supported; use proxy URI entries".to_owned(),
                    ),
                );
                return report;
            },
            None => {},
        }
        let joined = join_chars(s.as_str());
        match crate::parser::format::decode_bundle(joined.as_str().as_bytes()) {
            Ok(decoded) => match text::from_utf8(decoded.as_slice()) {
                Ok(inner) => {
                    if has_known_line(inner.as_str()) {
                        let list = collect_entries(inner.as_str());
                        let ghost start = report@;
                        scan_entries(&mut report, &list, sub_id, import_timestamp);
                        proof {
                            let faults = choose|faults: Seq<Seq<char>>|
                                report@ == #[trigger] scan(
                                    start,
                                    entries_view(list@),
                                    sub_id,
                                    import_timestamp,
                                    faults,
                                );
                            assert(report@ == self::report(
                                raw@,
                                sub_id,
                                import_timestamp,
                                faults,
                            ));
                        }
                        return report;
                    }
                    match crate::parser::format::detect_container(inner.as_str()) {
                        Some(crate::parser::format::ContainerKind::ClashYaml) => {
                            ingest_clash_document(
                                &mut report,
                                raw,
                                inner.as_str(),
                                sub_id,
                                import_timestamp,
                            );
                            return report;
                        },
                        Some(crate::parser::format::ContainerKind::SingBoxJson) => {
                            record_failure(
                                &mut report,
                                0,
                                1,
                                raw,
                                ParseError::UnsupportedFormat(
                                    "sing-box JSON configuration is not supported; use proxy URI entries".to_owned(),
                                ),
                            );
                            return report;
                        },
                        None => record_failure(
                            &mut report,
                            0,
                            1,
                            raw,
                            ParseError::UnsupportedFormat(
                                "input is not a supported URI bundle".to_owned(),
                            ),
                        ),
                    }
                },
                Err(_) => record_failure(
                    &mut report,
                    0,
                    1,
                    raw,
                    ParseError::UnsupportedFormat("input is not a supported URI bundle".to_owned()),
                ),
            },
            Err(e) => record_failure(&mut report, 0, 1, raw, ParseError::Base64Decode(e)),
        }
    }
    let ghost start = report@;
    scan_entries(&mut report, &list, sub_id, import_timestamp);
    proof {
        let faults = choose|faults: Seq<Seq<char>>|
            report@ == #[trigger] scan(
                start,
                entries_view(list@),
                sub_id,
                import_timestamp,
                faults,
            );
        assert(report@ == self::report(raw@, sub_id, import_timestamp, faults));
    }
    report
}

/// Reads a subscription that is imported now.
pub fn ingest_subscription(raw: &[u8], sub_id: SubId) -> (r: IngestionReport)
    ensures
        exists|import_timestamp: u64|
            #[trigger] is_report(raw@, sub_id, import_timestamp, r@) && r@.nodes == reported_nodes(
                raw@,
                sub_id,
                import_timestamp,
            ),
{
    ingest_with_timestamp(raw, sub_id, time::unix_seconds())
}

/// Whether some line of a text has a known scheme.
fn has_known_line(s: &str) -> (r: bool)
    ensures
        r == crate::parser::format::has_known_line(s@),
{
    proof {
        vstd::utf8::encode_utf8_decode_utf8(s@);
        vstd::utf8::encode_utf8_valid_utf8(s@);
    }
    crate::parser::format::looks_like_supported_entry(s.as_bytes())
}

} // verus!
