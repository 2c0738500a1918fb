//! What reports on subscriptions promise.
use crate::ir::node::{NodeView, SubId};
use crate::laws;
use crate::laws::names;
use crate::parser::error;
use crate::parser::error::{ErrorView, FailureView, ParseError, ReportView};
use crate::parser::ingest;
use crate::parser::uri;
use crate::text;
use vstd::prelude::*;

verus! {

/// An entry stands in the line with the number.
pub open spec fn is_entry(lines: Seq<Seq<char>>, k: int) -> bool {
    let t = text::trim(lines[k]);
    0 <= k < lines.len() && t.len() > 0 && t[0] != '#'
}

/// The entries of a text are its lines in order, trimmed and with their numbers from one
/// on, without those that are blank and those that begin with `#`.
pub proof fn law_entries_are_the_lines_that_say_something(lines: Seq<Seq<char>>)
    ensures
        ({
            let list = ingest::entries_of(lines);
            &&& forall|i: int|
                0 <= i < list.len() ==> {
                    let k = (#[trigger] list[i]).0 - 1;
                    is_entry(lines, k) && list[i].1 == text::trim(lines[k])
                }
            &&& forall|i: int, j: int|
                0 <= i < j < list.len() ==> (#[trigger] list[i]).0 < (#[trigger] list[j]).0
            &&& forall|k: int|
                is_entry(lines, k) ==> list.contains(
                    ((k + 1) as nat, text::trim(#[trigger] lines[k])),
                )
        }),
    decreases lines.len(),
{
    if lines.len() > 0 {
        let rest = lines.drop_last();
        law_entries_are_the_lines_that_say_something(rest);
        let before = ingest::entries_of(rest);
        let list = ingest::entries_of(lines);
        assert forall|i: int| 0 <= i < list.len() implies {
            let k = (#[trigger] list[i]).0 - 1;
            is_entry(lines, k) && list[i].1 == text::trim(lines[k])
        } by {
            if i < before.len() {
                assert(list[i] == before[i]);
                let k = before[i].0 - 1;
                assert(is_entry(rest, k));
                assert(rest[k] == lines[k]);
            }
        }
        assert forall|i: int, j: int| 0 <= i < j < list.len() implies (#[trigger] list[i]).0 < (
        #[trigger] list[j]).0 by {
            assert(list[i] == before[i]);
            assert(is_entry(rest, before[i].0 - 1));
            if j < before.len() {
                assert(list[j] == before[j]);
            }
        }
        assert forall|k: int| is_entry(lines, k) implies list.contains(
            ((k + 1) as nat, text::trim(#[trigger] lines[k])),
        ) by {
            let e = ((k + 1) as nat, text::trim(lines[k]));
            if k < rest.len() {
                assert(rest[k] == lines[k]);
                assert(is_entry(rest, k));
                assert(before.contains(e));
                let at = choose|at: int| 0 <= at < before.len() && before[at] == e;
                assert(list[at] == e);
            } else {
                assert(list[list.len() - 1] == e);
            }
        }
    }
}

/// The outcome of the entry.
pub open spec fn outcome(
    list: Seq<(nat, Seq<char>)>,
    i: int,
    sub_id: SubId,
    timestamp: u64,
    faults: Seq<Seq<char>>,
) -> Result<NodeView, ErrorView> {
    uri::entry_node(list[i].1, sub_id, timestamp, faults[i])
}

/// The entry gives the node, and none before it gives a node with its hash.
pub open spec fn is_first(
    n: NodeView,
    list: Seq<(nat, Seq<char>)>,
    i: int,
    sub_id: SubId,
    timestamp: u64,
    faults: Seq<Seq<char>>,
) -> bool {
    &&& outcome(list, i, sub_id, timestamp, faults) == Ok::<_, ErrorView>(n)
    &&& forall|j: int|
        0 <= j < i && (#[trigger] outcome(list, j, sub_id, timestamp, faults)) is Ok ==> outcome(
            list,
            j,
            sub_id,
            timestamp,
            faults,
        )->Ok_0.hash != n.hash
}

/// One of the first `n` entries is the first to give the node.
pub open spec fn is_given(
    node: NodeView,
    list: Seq<(nat, Seq<char>)>,
    n: nat,
    sub_id: SubId,
    timestamp: u64,
    faults: Seq<Seq<char>>,
) -> bool {
    exists|i: int| 0 <= i < n && #[trigger] is_first(node, list, i, sub_id, timestamp, faults)
}

/// A report lists exactly the nodes that the entries give, each once by its hash and as
/// the first entry gives it.
#[verifier::rlimit(40)]
pub proof fn law_reports_list_the_nodes_of_entries(
    list: Seq<(nat, Seq<char>)>,
    n: nat,
    sub_id: SubId,
    timestamp: u64,
    faults: Seq<Seq<char>>,
)
    requires
        n <= list.len(),
    ensures
        ({
            let r = ingest::scanned(error::empty_report(), list, n, sub_id, timestamp, faults);
            &&& r.scanned == n
            &&& forall|p: int|
                0 <= p < r.nodes.len() ==> is_given(
                    #[trigger] r.nodes[p],
                    list,
                    n,
                    sub_id,
                    timestamp,
                    faults,
                )
            &&& forall|i: int|
                0 <= i < n && (#[trigger] outcome(list, i, sub_id, timestamp, faults)) is Ok
                    ==> ingest::has_hash(
                    r.nodes,
                    outcome(list, i, sub_id, timestamp, faults)->Ok_0.hash,
                )
        }),
    decreases n,
{
    let r = ingest::scanned(error::empty_report(), list, n, sub_id, timestamp, faults);
    if n > 0 {
        let m = (n - 1) as nat;
        law_reports_list_the_nodes_of_entries(list, m, sub_id, timestamp, faults);
        let s = ingest::scanned(error::empty_report(), list, m, sub_id, timestamp, faults);
        let o = outcome(list, m as int, sub_id, timestamp, faults);
        assert(r.scanned == n);
        assert forall|p: int| 0 <= p < r.nodes.len() implies is_given(
            #[trigger] r.nodes[p],
            list,
            n,
            sub_id,
            timestamp,
            faults,
        ) by {
            if p < s.nodes.len() {
                assert(r.nodes[p] == s.nodes[p]);
                assert(is_given(s.nodes[p], list, m, sub_id, timestamp, faults));
                let i = choose|i: int|
                    0 <= i < m && #[trigger] is_first(
                        s.nodes[p],
                        list,
                        i,
                        sub_id,
                        timestamp,
                        faults,
                    );
                assert(is_first(r.nodes[p], list, i, sub_id, timestamp, faults));
            } else {
                assert(is_first(r.nodes[p], list, m as int, sub_id, timestamp, faults)) by {
                    assert(r.nodes[p] == o->Ok_0);
                    assert(!ingest::has_hash(s.nodes, o->Ok_0.hash));
                }
            }
        }
        assert forall|i: int|
            0 <= i < n && (#[trigger] outcome(list, i, sub_id, timestamp, faults)) is Ok implies
            ingest::has_hash(
            r.nodes,
            outcome(list, i, sub_id, timestamp, faults)->Ok_0.hash,
        ) by {
            let hash = outcome(list, i, sub_id, timestamp, faults)->Ok_0.hash;
            if ingest::has_hash(s.nodes, hash) {
                let at = choose|at: int|
                    0 <= at < s.nodes.len() && (#[trigger] s.nodes[at]).hash == hash;
                assert(r.nodes[at] == s.nodes[at]);
            } else {
                assert(i == m);
                assert(r.nodes[r.nodes.len() - 1].hash == hash);
            }
        }
    }
}

/// A failure tells of the entry at its index: its line and what is wrong with it.
pub open spec fn tells_of(
    f: FailureView,
    list: Seq<(nat, Seq<char>)>,
    i: int,
    sub_id: SubId,
    timestamp: u64,
    faults: Seq<Seq<char>>,
) -> bool {
    &&& f.entry_index == i
    &&& f.line_number == list[i].0
    &&& outcome(list, i, sub_id, timestamp, faults) == Err::<NodeView, _>(f.reason)
}

/// A report lists the entries that give no node, in order, with their lines and what is
/// wrong with them, up to ten thousand of them.
pub proof fn law_reports_list_the_failures_of_entries(
    list: Seq<(nat, Seq<char>)>,
    n: nat,
    sub_id: SubId,
    timestamp: u64,
    faults: Seq<Seq<char>>,
)
    requires
        n <= list.len(),
    ensures
        ({
            let r = ingest::scanned(error::empty_report(), list, n, sub_id, timestamp, faults);
            &&& r.failures.len() <= 10_000
            &&& forall|p: int|
                0 <= p < r.failures.len() ==> (#[trigger] r.failures[p]).entry_index < n
                    && tells_of(
                    r.failures[p],
                    list,
                    r.failures[p].entry_index as int,
                    sub_id,
                    timestamp,
                    faults,
                )
            &&& forall|p: int, q: int|
                0 <= p < q < r.failures.len() ==> (#[trigger] r.failures[p]).entry_index < (
                #[trigger] r.failures[q]).entry_index
            &&& r.failures.len() < 10_000 ==> forall|i: int|
                0 <= i < n && (#[trigger] outcome(list, i, sub_id, timestamp, faults)) is Err
                    ==> exists|p: int|
                    0 <= p < r.failures.len() && (#[trigger] r.failures[p]).entry_index == i
        }),
    decreases n,
{
    let r = ingest::scanned(error::empty_report(), list, n, sub_id, timestamp, faults);
    if n > 0 {
        let m = (n - 1) as nat;
        law_reports_list_the_failures_of_entries(list, m, sub_id, timestamp, faults);
        let s = ingest::scanned(error::empty_report(), list, m, sub_id, timestamp, faults);
        assert forall|p: int| 0 <= p < r.failures.len() implies (
        #[trigger] r.failures[p]).entry_index < n && tells_of(
            r.failures[p],
            list,
            r.failures[p].entry_index as int,
            sub_id,
            timestamp,
            faults,
        ) by {
            if p < s.failures.len() {
                assert(r.failures[p] == s.failures[p]);
            }
        }
        if r.failures.len() < 10_000 {
            assert forall|i: int|
                0 <= i < n && (#[trigger] outcome(list, i, sub_id, timestamp, faults)) is Err implies
                exists|p: int|
                0 <= p < r.failures.len() && (#[trigger] r.failures[p]).entry_index == i by {
                if i < m {
                    let p = choose|p: int|
                        0 <= p < s.failures.len() && (#[trigger] s.failures[p]).entry_index == i;
                    assert(r.failures[p] == s.failures[p]);
                } else {
                    assert(r.failures[r.failures.len() - 1].entry_index == i);
                }
            }
        }
    }
}

/// No more than a hundred thousand entries are scanned, and all of fewer.
pub proof fn law_scans_stop_at_the_limit(
    list: Seq<(nat, Seq<char>)>,
    sub_id: SubId,
    timestamp: u64,
    faults: Seq<Seq<char>>,
)
    ensures
        list.len() <= 100_000 ==> ingest::scan(
            error::empty_report(),
            list,
            sub_id,
            timestamp,
            faults,
        ).scanned == list.len(),
        list.len() > 100_000 ==> ingest::scan(
            error::empty_report(),
            list,
            sub_id,
            timestamp,
            faults,
        ).scanned == 100_000,
{
    law_reports_list_the_nodes_of_entries(
        list,
        ingest::at_most(list.len(), 100_000),
        sub_id,
        timestamp,
        faults,
    );
}

/// A scheme is what stands before the first `://`: letters, digits, and the signs `+`,
/// `.` and `-`, at least one of them.
pub proof fn law_schemes_stand_before_the_colon(head: Seq<char>, tail: Seq<char>)
    requires
        forall|i: int|
            0 <= i < head.len() ==> 'a' <= #[trigger] head[i] <= 'z' || 'A' <= head[i] <= 'Z'
                || '0' <= head[i] <= '9' || head[i] == '+' || head[i] == '.' || head[i] == '-',
    ensures
        head.len() > 0 ==> crate::parser::format::scheme(head + "://"@ + tail) == Some(head),
        head.len() == 0 ==> crate::parser::format::scheme(head + "://"@ + tail) is None,
        crate::parser::format::scheme(head) is None,
{
    let s = head + "://"@ + tail;
    reveal_strlit("://");
    laws::text::law_splitting_once_takes_the_first_occurrence(s, "://"@);
    assert(s.subrange(head.len() as int, head.len() as int + "://"@.len()) =~= "://"@);
    match text::split_once(s, "://"@) {
        Some((h, t)) => {
            if h.len() < head.len() {
                assert(s[h.len() as int] == "://"@[0]);
                assert(s[h.len() as int] == head[h.len() as int]);
            }
            if head.len() < h.len() {
                assert(s.subrange(head.len() as int, head.len() as int + "://"@.len()) != "://"@);
            }
            assert(h.len() == head.len());
            assert(h =~= s.take(h.len() as int));
            assert(head =~= s.take(head.len() as int));
        },
        None => {
            assert(s.subrange(head.len() as int, head.len() as int + "://"@.len()) != "://"@);
        },
    }
    laws::text::law_splitting_once_takes_the_first_occurrence(head, "://"@);
    if let Some((h, t)) = text::split_once(head, "://"@) {
        assert(head[h.len() as int] == "://"@[0]);
    }
}

/// The report on bytes that are no text is one failure; that on a text with an entry of a
/// known scheme, or without entries, is the scan of its entries.
pub proof fn law_texts_are_scanned(
    raw: Seq<u8>,
    sub_id: SubId,
    timestamp: u64,
    faults: Seq<Seq<char>>,
)
    ensures
        ({
            let r = ingest::report(raw, sub_id, timestamp, faults);
            let list = ingest::entries_of(text::lines(vstd::utf8::decode_utf8(raw)));
            &&& !vstd::utf8::valid_utf8(raw) ==> {
                &&& r.scanned == 0 && r.nodes.len() == 0 && r.duplicates == 0
                &&& r.failures.len() == 1 && r.failures[0].entry_index == 0
                    && r.failures[0].line_number == 1 && r.failures[0].reason is InvalidUri
            }
            &&& vstd::utf8::valid_utf8(raw) && (list.len() == 0 || exists|i: int|
                0 <= i < list.len() && crate::parser::format::has_known_scheme(
                    (#[trigger] list[i]).1,
                )) ==> r == ingest::scan(error::empty_report(), list, sub_id, timestamp, faults)
            &&& vstd::utf8::valid_utf8(raw) && list.len() > 0 && (forall|i: int|
                0 <= i < list.len() ==> !crate::parser::format::has_known_scheme(
                    (#[trigger] list[i]).1,
                )) && crate::parser::format::is_clash_yaml(vstd::utf8::decode_utf8(raw))
                ==> r == ingest::clash_report(
                raw,
                vstd::utf8::decode_utf8(raw),
                sub_id,
                timestamp,
            )
        }),
{
}

/// A known scheme is known in whatever case.
pub proof fn law_known_schemes(s: Seq<char>)
    ensures
        ({
            let t = text::lower(crate::parser::format::scheme(s)->0);
            crate::parser::format::has_known_scheme(s) <==> crate::parser::format::scheme(s) is Some
                && (t == "vless"@ || t == "vmess"@ || t == "trojan"@ || t == "ss"@ || t
                == "hysteria2"@ || t == "hy2"@ || t == "tuic"@)
        }),
{
}

/// What a report shows of an entry is its scheme and that the rest is not shown, or that
/// there is an entry; it is no longer than 160 characters.
pub proof fn law_snippets_hide_what_follows_the_scheme(raw: Seq<u8>)
    ensures
        ({
            let name = crate::parser::format::scheme(text::trim(text::utf8_lossy(raw)));
            let s = ingest::snippet(raw);
            &&& s.len() <= 160
            &&& name is None ==> s == "entry://[redacted]"@
            &&& name is Some && name->0.len() <= 147 ==> s == name->0 + "://[redacted]"@
            &&& name is Some && name->0.len() > 147 ==> s == (name->0 + "://[redacted]"@).take(160)
        }),
{
    reveal_strlit("entry://[redacted]");
    reveal_strlit("entry");
    reveal_strlit("://[redacted]");
    assert("entry"@ + "://[redacted]"@ =~= "entry://[redacted]"@);
}

/// A text holds a Clash document exactly if one of its lines opens one of the sections,
/// whatever white space stands around it. That goes before anything else that it might
/// be.
pub proof fn law_sections_make_a_clash_document(s: Seq<char>)
    ensures
        crate::parser::format::container(s) == Some(
            crate::parser::format::ContainerKind::ClashYaml,
        ) <==> exists|i: int|
            0 <= i < text::lines(s).len() && {
                let t = text::trim(#[trigger] text::lines(s)[i]);
                t == "proxies:"@ || t == "proxy-groups:"@ || t == "rules:"@
            },
        crate::parser::format::has_known_line(s) <==> exists|i: int|
            0 <= i < text::lines(s).len() && crate::parser::format::has_known_scheme(
                text::trim(#[trigger] text::lines(s)[i]),
            ),
{
    if crate::parser::format::is_clash_yaml(s) {
        let i = choose|i: int|
            0 <= i < text::lines(s).len() && crate::parser::format::is_clash_line(
                #[trigger] text::lines(s)[i],
            );
        assert(crate::parser::format::is_clash_line(text::lines(s)[i]));
    }
}

/// A text without an entry of a known scheme that decodes to one with such a line is
/// reported as what it decodes to; one that decodes to a Clash document is reported as
/// that.
pub proof fn law_bundles_are_reported_as_what_they_hold(
    s: Seq<char>,
    inner: Seq<char>,
    sub_id: SubId,
    timestamp: u64,
    faults: Seq<Seq<char>>,
)
    requires
        ingest::entries_of(text::lines(s)).len() > 0,
        forall|i: int|
            0 <= i < ingest::entries_of(text::lines(s)).len()
                ==> !crate::parser::format::has_known_scheme(
                (#[trigger] ingest::entries_of(text::lines(s))[i]).1,
            ),
        crate::parser::format::container(s) is None,
        crate::parser::format::bundle(
            vstd::utf8::encode_utf8(s.filter(|c: char| !text::is_space(c))),
        ) == Ok::<_, Seq<char>>(vstd::utf8::encode_utf8(inner)),
    ensures
        ({
            let raw = vstd::utf8::encode_utf8(s);
            let r = ingest::report(raw, sub_id, timestamp, faults);
            &&& crate::parser::format::has_known_line(inner) ==> r == ingest::scan(
                error::empty_report(),
                ingest::entries_of(text::lines(inner)),
                sub_id,
                timestamp,
                faults,
            )
            &&& !crate::parser::format::has_known_line(inner)
                && crate::parser::format::is_clash_yaml(inner) ==> r == ingest::clash_report(
                raw,
                inner,
                sub_id,
                timestamp,
            )
            &&& !crate::parser::format::has_known_line(inner) && crate::parser::format::container(
                inner,
            ) is None ==> r.failures.len() > 0 && r.failures[0].entry_index == 0
                && r.failures[0].line_number == 1 && r.failures[0].reason == ParseError::<
                Seq<char>,
                Seq<char>,
            >::UnsupportedFormat("input is not a supported URI bundle"@)
        }),
{
    let raw = vstd::utf8::encode_utf8(s);
    vstd::utf8::encode_utf8_valid_utf8(s);
    vstd::utf8::encode_utf8_decode_utf8(s);
    vstd::utf8::encode_utf8_valid_utf8(inner);
    vstd::utf8::encode_utf8_decode_utf8(inner);
    let list = ingest::entries_of(text::lines(s));
    lemma_first_failure(
        ingest::bundle_failure(raw),
        list,
        ingest::at_most(list.len(), 100_000),
        sub_id,
        timestamp,
        faults,
    );
}

/// What a report starts with stays at its front.
proof fn lemma_first_failure(
    start: ReportView,
    list: Seq<(nat, Seq<char>)>,
    n: nat,
    sub_id: SubId,
    timestamp: u64,
    faults: Seq<Seq<char>>,
)
    requires
        start.failures.len() > 0,
    ensures
        ({
            let r = ingest::scanned(start, list, n, sub_id, timestamp, faults);
            r.failures.len() > 0 && r.failures[0] == start.failures[0]
        }),
    decreases n,
{
    if n > 0 {
        lemma_first_failure(start, list, (n - 1) as nat, sub_id, timestamp, faults);
    }
}

/// A text that cannot be decoded is reported with why not, and so is one that is a
/// configuration of the core.
pub proof fn law_what_cannot_be_read_is_said(
    s: Seq<char>,
    sub_id: SubId,
    timestamp: u64,
    faults: Seq<Seq<char>>,
)
    requires
        ingest::entries_of(text::lines(s)).len() > 0,
        forall|i: int|
            0 <= i < ingest::entries_of(text::lines(s)).len()
                ==> !crate::parser::format::has_known_scheme(
                (#[trigger] ingest::entries_of(text::lines(s))[i]).1,
            ),
    ensures
        ({
            let r = ingest::report(vstd::utf8::encode_utf8(s), sub_id, timestamp, faults);
            let decoded = crate::parser::format::bundle(
                vstd::utf8::encode_utf8(s.filter(|c: char| !text::is_space(c))),
            );
            &&& crate::parser::format::container(s) is None && decoded is Err ==> r.failures.len()
                > 0 && r.failures[0].entry_index == 0 && r.failures[0].line_number == 1
                && r.failures[0].reason == ParseError::<Seq<char>, Seq<char>>::Base64Decode(
                decoded->Err_0,
            )
            &&& crate::parser::format::container(s) == Some(
                crate::parser::format::ContainerKind::SingBoxJson,
            ) ==> r.scanned == 0 && r.nodes.len() == 0 && r.failures.len() == 1
                && r.failures[0].reason == ParseError::<Seq<char>, Seq<char>>::UnsupportedFormat(
                "sing-box JSON configuration is not supported; use proxy URI entries"@,
            )
        }),
{
    let raw = vstd::utf8::encode_utf8(s);
    vstd::utf8::encode_utf8_valid_utf8(s);
    vstd::utf8::encode_utf8_decode_utf8(s);
    let list = ingest::entries_of(text::lines(s));
    let decoded = crate::parser::format::bundle(vstd::utf8::encode_utf8(ingest::without_space(s)));
    if decoded is Err {
        lemma_first_failure(
            ingest::with_failure(
                error::empty_report(),
                0,
                1,
                raw,
                ParseError::Base64Decode(decoded->Err_0),
            ),
            list,
            ingest::at_most(list.len(), 100_000),
            sub_id,
            timestamp,
            faults,
        );
    }
}

/// The outcome gives the node, and none before it gives a node with its hash.
pub open spec fn is_first_outcome(
    n: NodeView,
    outcomes: Seq<Result<NodeView, ErrorView>>,
    i: int,
) -> bool {
    &&& outcomes[i] == Ok::<_, ErrorView>(n)
    &&& forall|j: int|
        0 <= j < i && (#[trigger] outcomes[j]) is Ok ==> outcomes[j]->Ok_0.hash != n.hash
}

/// One of the first outcomes is the first to give the node.
pub open spec fn is_outcome(n: NodeView, outcomes: Seq<Result<NodeView, ErrorView>>, k: nat) -> bool {
    exists|i: int| 0 <= i < k && #[trigger] is_first_outcome(n, outcomes, i)
}

/// A document's report lists the nodes of its items, each once by its hash, and the items
/// that give none, in order and with what is wrong with them.
#[verifier::rlimit(40)]
pub proof fn law_documents_are_reported_item_by_item(
    raw: Seq<u8>,
    outcomes: Seq<Result<NodeView, ErrorView>>,
    n: nat,
)
    requires
        n <= outcomes.len(),
    ensures
        ({
            let r = ingest::listed(error::empty_report(), raw, outcomes, n);
            &&& r.scanned == n
            &&& forall|p: int|
                0 <= p < r.nodes.len() ==> is_outcome(#[trigger] r.nodes[p], outcomes, n)
            &&& forall|i: int|
                0 <= i < n && (#[trigger] outcomes[i]) is Ok ==> ingest::has_hash(
                    r.nodes,
                    outcomes[i]->Ok_0.hash,
                )
            &&& r.failures.len() <= 10_000
            &&& forall|p: int|
                0 <= p < r.failures.len() ==> {
                    let f = #[trigger] r.failures[p];
                    f.entry_index < n && f.line_number == f.entry_index + 1
                        && outcomes[f.entry_index as int] == Err::<NodeView, _>(f.reason)
                }
            &&& r.failures.len() < 10_000 ==> r.nodes.len() + r.duplicates + r.failures.len() == n
        }),
    decreases n,
{
    let r = ingest::listed(error::empty_report(), raw, outcomes, n);
    if n > 0 {
        let m = (n - 1) as nat;
        law_documents_are_reported_item_by_item(raw, outcomes, m);
        let s = ingest::listed(error::empty_report(), raw, outcomes, m);
        let o = outcomes[m as int];
        assert forall|p: int| 0 <= p < r.nodes.len() implies is_outcome(
            #[trigger] r.nodes[p],
            outcomes,
            n,
        ) by {
            if p < s.nodes.len() {
                assert(r.nodes[p] == s.nodes[p]);
                assert(is_outcome(s.nodes[p], outcomes, m));
                let i = choose|i: int| 0 <= i < m && #[trigger] is_first_outcome(
                    s.nodes[p],
                    outcomes,
                    i,
                );
                assert(is_first_outcome(r.nodes[p], outcomes, i));
            } else {
                assert(r.nodes[p] == o->Ok_0);
                assert(is_first_outcome(r.nodes[p], outcomes, m as int));
            }
        }
        assert forall|i: int| 0 <= i < n && (#[trigger] outcomes[i]) is Ok implies ingest::has_hash(
            r.nodes,
            outcomes[i]->Ok_0.hash,
        ) by {
            let hash = outcomes[i]->Ok_0.hash;
            if ingest::has_hash(s.nodes, hash) {
                let at = choose|at: int|
                    0 <= at < s.nodes.len() && (#[trigger] s.nodes[at]).hash == hash;
                assert(r.nodes[at] == s.nodes[at]);
            } else {
                assert(i == m);
                assert(r.nodes[r.nodes.len() - 1].hash == hash);
            }
        }
        assert forall|p: int| 0 <= p < r.failures.len() implies {
            let f = #[trigger] r.failures[p];
            f.entry_index < n && f.line_number == f.entry_index + 1
                && outcomes[f.entry_index as int] == Err::<NodeView, _>(f.reason)
        } by {
            if p < s.failures.len() {
                assert(r.failures[p] == s.failures[p]);
            }
        }
    }
}

} // verus!
