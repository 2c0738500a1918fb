//! What reading a link's JSON payload promises.
use crate::laws::names;
use crate::parser::wire;
use crate::parser::wire::{JsonNode, VmessWire, WireValue};
use vstd::prelude::*;

verus! {

/// The value is neither an object nor a list.
pub open spec fn is_scalar(n: JsonNode<Seq<char>>) -> bool {
    !(n is Object) && !(n is Array)
}

/// The nodes of members with scalar values, one after the other.
pub open spec fn flat(m: Seq<(Seq<char>, JsonNode<Seq<char>>)>) -> Seq<JsonNode<Seq<char>>>
    decreases m.len(),
{
    if m.len() == 0 {
        Seq::empty()
    } else {
        flat(m.drop_last()) + seq![JsonNode::Text(m.last().0), m.last().1]
    }
}

/// The nodes of an object with the members.
pub open spec fn object_of(m: Seq<(Seq<char>, JsonNode<Seq<char>>)>) -> Seq<JsonNode<Seq<char>>> {
    seq![JsonNode::Object { len: m.len() as usize, count: (2 * m.len()) as usize }] + flat(m)
}

/// The value of the member with a name, where there is one.
pub open spec fn carried(m: Seq<(Seq<char>, JsonNode<Seq<char>>)>, name: Seq<char>) -> Option<
    JsonNode<Seq<char>>,
> {
    if exists|i: int| 0 <= i < m.len() && (#[trigger] m[i]).0 == name {
        let i = choose|i: int| 0 <= i < m.len() && (#[trigger] m[i]).0 == name;
        Some(m[i].1)
    } else {
        None
    }
}

/// The text of the member with a name, where it is one.
pub open spec fn text_in(m: Seq<(Seq<char>, JsonNode<Seq<char>>)>, name: Seq<char>) -> Option<
    Seq<char>,
> {
    match carried(m, name) {
        Some(JsonNode::Text(s)) => Some(s),
        _ => None,
    }
}

/// The record has the value that the members carry: texts and unsigned numbers as they
/// are, nothing for null, and something else for the rest.
pub open spec fn is_value_in(
    v: Option<WireValue<Seq<char>>>,
    m: Seq<(Seq<char>, JsonNode<Seq<char>>)>,
    name: Seq<char>,
) -> bool {
    match carried(m, name) {
        None => v is None,
        Some(JsonNode::Null) => v is None,
        Some(JsonNode::Text(s)) => v == Some(WireValue::Text(s)),
        Some(JsonNode::Unsigned(n)) => v == Some(WireValue::<Seq<char>>::Number(n)),
        Some(JsonNode::Signed(n)) => if n >= 0 {
            v == Some(WireValue::<Seq<char>>::Number(n as u64))
        } else {
            v == Some(WireValue::<Seq<char>>::Other)
        },
        Some(_) => v == Some(WireValue::<Seq<char>>::Other),
    }
}

/// No two members have one name.
pub open spec fn are_distinct(m: Seq<(Seq<char>, JsonNode<Seq<char>>)>) -> bool {
    forall|i: int, j: int| 0 <= i < j < m.len() ==> (#[trigger] m[i]).0 != (#[trigger] m[j]).0
}

/// The names whose values must be texts.
pub open spec fn needs_text(name: Seq<char>) -> bool {
    ||| name == "add"@
    ||| name == "id"@
    ||| name == "scy"@
    ||| name == "net"@
    ||| name == "host"@
    ||| name == "path"@
    ||| name == "tls"@
    ||| name == "sni"@
    ||| name == "alpn"@
    ||| name == "fp"@
    ||| name == "ps"@
}

/// The members of an object, as values, in order.
spec fn values_of(m: Seq<(Seq<char>, JsonNode<Seq<char>>)>) -> Seq<
    (Seq<char>, WireValue<Seq<char>>),
> {
    m.map_values(|p: (Seq<char>, JsonNode<Seq<char>>)| (p.0, wire::wire_value(p.1)))
}

proof fn lemma_flat(m: Seq<(Seq<char>, JsonNode<Seq<char>>)>)
    ensures
        flat(m).len() == 2 * m.len(),
        forall|i: int|
            0 <= i < m.len() ==> flat(m)[2 * i] == JsonNode::Text((#[trigger] m[i]).0) && flat(
                m,
            )[2 * i + 1] == m[i].1,
    decreases m.len(),
{
    if m.len() > 0 {
        lemma_flat(m.drop_last());
        assert forall|i: int| 0 <= i < m.len() implies flat(m)[2 * i] == JsonNode::Text(
            (#[trigger] m[i]).0,
        ) && flat(m)[2 * i + 1] == m[i].1 by {
            if i < m.len() - 1 {
                assert(m.drop_last()[i] == m[i]);
            }
        }
    }
}

proof fn lemma_members(m: Seq<(Seq<char>, JsonNode<Seq<char>>)>, k: int)
    requires
        0 <= k <= m.len() <= usize::MAX,
        forall|i: int| 0 <= i < m.len() ==> is_scalar((#[trigger] m[i]).1),
    ensures
        wire::object_members(object_of(m), 1 + 2 * k, (m.len() - k) as nat) == (
            values_of(m).skip(k),
            None::<Seq<char>>,
        ),
    decreases m.len() - k,
{
    let tape = object_of(m);
    lemma_flat(m);
    if k < m.len() {
        lemma_members(m, k + 1);
        assert(flat(m)[2 * k] == JsonNode::Text(m[k].0) && flat(m)[2 * k + 1] == m[k].1);
        assert(tape[1 + 2 * k] == JsonNode::Text(m[k].0));
        assert(tape[2 + 2 * k] == m[k].1);
        assert(is_scalar(m[k].1));
        assert(wire::node_span(m[k].1) == 1);
        assert(seq![(m[k].0, wire::wire_value(m[k].1))] + values_of(m).skip(k + 1) =~= values_of(
            m,
        ).skip(k));
    } else {
        assert(values_of(m).skip(k) =~= Seq::empty());
    }
}

proof fn lemma_no_fault(
    m: Seq<(Seq<char>, WireValue<Seq<char>>)>,
    i: int,
    names: Seq<Seq<char>>,
    untyped: Seq<Seq<char>>,
)
    requires
        0 <= i <= m.len(),
        forall|k: int|
            0 <= k < m.len() ==> #[trigger] wire::member_fault(m, k, names, untyped) is None,
    ensures
        wire::first_fault(m, i, names, untyped) is None,
    decreases m.len() - i,
{
    if i < m.len() {
        assert(wire::member_fault(m, i, names, untyped) is None);
        lemma_no_fault(m, i + 1, names, untyped);
    }
}

proof fn lemma_fault(
    m: Seq<(Seq<char>, WireValue<Seq<char>>)>,
    i: int,
    names: Seq<Seq<char>>,
    untyped: Seq<Seq<char>>,
    k: int,
)
    requires
        0 <= i <= k < m.len(),
        wire::member_fault(m, k, names, untyped) is Some,
    ensures
        wire::first_fault(m, i, names, untyped) is Some,
    decreases m.len() - i,
{
    if i < k {
        lemma_fault(m, i + 1, names, untyped, k);
    }
}

proof fn lemma_field(m: Seq<(Seq<char>, WireValue<Seq<char>>)>, name: Seq<char>, i: int)
    ensures
        0 <= i < m.len() && m[i].0 == name && (forall|j: int|
            0 <= j < i ==> (#[trigger] m[j]).0 != name) ==> wire::field(m, name) == m[i].1,
        (forall|j: int| 0 <= j < m.len() ==> (#[trigger] m[j]).0 != name) ==> wire::field(
            m,
            name,
        ) is Null,
    decreases m.len(),
{
    if m.len() > 0 {
        let rest = m.drop_first();
        lemma_field(rest, name, i - 1);
        if 0 < i < m.len() && forall|j: int| 0 <= j < i ==> (#[trigger] m[j]).0 != name {
            assert(m[0].0 != name);
            assert(rest[i - 1] == m[i]);
            assert forall|j: int| 0 <= j < i - 1 implies (#[trigger] rest[j]).0 != name by {
                assert(rest[j] == m[j + 1]);
            }
        }
        if forall|j: int| 0 <= j < m.len() ==> (#[trigger] m[j]).0 != name {
            assert(m[0].0 != name);
            assert forall|j: int| 0 <= j < rest.len() implies (#[trigger] rest[j]).0 != name by {
                assert(rest[j] == m[j + 1]);
            }
        }
    }
}

proof fn lemma_carried(m: Seq<(Seq<char>, JsonNode<Seq<char>>)>, name: Seq<char>)
    requires
        are_distinct(m),
    ensures
        wire::field_text(values_of(m), name) == text_in(m, name),
        is_value_in(wire::field_value(values_of(m), name), m, name),
{
    let v = values_of(m);
    if exists|i: int| 0 <= i < m.len() && (#[trigger] m[i]).0 == name {
        let i = choose|i: int| 0 <= i < m.len() && (#[trigger] m[i]).0 == name;
        assert(v[i].0 == name);
        assert forall|j: int| 0 <= j < i implies (#[trigger] v[j]).0 != name by {
            assert(m[j].0 != m[i].0);
        }
        lemma_field(v, name, i);
    } else {
        assert forall|j: int| 0 <= j < v.len() implies (#[trigger] v[j]).0 != name by {
            assert(m[j].0 != name);
        }
        lemma_field(v, name, 0);
    }
}

/// A payload whose members have different names, and texts or nothing where texts are
/// needed, is read member by member, each under its own name and in whatever order.
#[verifier::rlimit(40)]
pub proof fn law_payloads_are_read_by_name(m: Seq<(Seq<char>, JsonNode<Seq<char>>)>)
    requires
        m.len() <= usize::MAX,
        are_distinct(m),
        forall|i: int| 0 <= i < m.len() ==> is_scalar((#[trigger] m[i]).1),
        forall|i: int|
            0 <= i < m.len() && needs_text((#[trigger] m[i]).0) ==> m[i].1 is Text || m[i].1 is Null,
    ensures
        ({
            let r = wire::vmess_wire(object_of(m));
            let w = r->Ok_0;
            &&& r is Ok
            &&& w.add == text_in(m, "add"@)
            &&& is_value_in(w.port, m, "port"@)
            &&& w.id == text_in(m, "id"@)
            &&& is_value_in(w.aid, m, "aid"@)
            &&& w.scy == text_in(m, "scy"@)
            &&& w.net == text_in(m, "net"@)
            &&& w.host == text_in(m, "host"@)
            &&& w.path == text_in(m, "path"@)
            &&& w.tls == text_in(m, "tls"@)
            &&& w.sni == text_in(m, "sni"@)
            &&& w.alpn == text_in(m, "alpn"@)
            &&& w.fp == text_in(m, "fp"@)
            &&& w.ps == text_in(m, "ps"@)
        }),
{
    let v = values_of(m);
    let all = wire::vmess_names();
    let untyped = wire::vmess_untyped();
    lemma_members(m, 0);
    assert(v.skip(0) =~= v);
    names::lemma_payload_names();
    assert forall|k: int| 0 <= k < v.len() implies #[trigger] wire::member_fault(
        v,
        k,
        all,
        untyped,
    ) is None by {
        let name = v[k].0;
        assert(m[k].0 == name);
        if wire::named_before(v, k, name) {
            let j = choose|j: int| 0 <= j < k && (#[trigger] v[j]).0 == name;
            assert(m[j].0 != m[k].0);
        }
        if all.contains(name) && !untyped.contains(name) {
            assert(untyped[0] == "port"@ && untyped[1] == "aid"@);
            assert(needs_text(name));
        }
    }
    lemma_no_fault(v, 0, all, untyped);
    lemma_carried(m, "add"@);
    lemma_carried(m, "port"@);
    lemma_carried(m, "id"@);
    lemma_carried(m, "aid"@);
    lemma_carried(m, "scy"@);
    lemma_carried(m, "net"@);
    lemma_carried(m, "host"@);
    lemma_carried(m, "path"@);
    lemma_carried(m, "tls"@);
    lemma_carried(m, "sni"@);
    lemma_carried(m, "alpn"@);
    lemma_carried(m, "fp"@);
    lemma_carried(m, "ps"@);
}

/// A payload with something else than a text where one is needed is refused, and so is
/// one in which a name that counts stands twice.
#[verifier::rlimit(40)]
pub proof fn law_bad_payloads_are_refused(m: Seq<(Seq<char>, JsonNode<Seq<char>>)>, i: int, j: int)
    requires
        m.len() <= usize::MAX,
        forall|i: int| 0 <= i < m.len() ==> is_scalar((#[trigger] m[i]).1),
        0 <= i < m.len(),
        needs_text(m[i].0) || m[i].0 == "port"@ || m[i].0 == "aid"@,
        (0 <= j < i && m[j].0 == m[i].0) || (needs_text(m[i].0) && !(m[i].1 is Text) && !(m[i].1 is Null)),
    ensures
        wire::vmess_wire(object_of(m)) is Err,
{
    let v = values_of(m);
    let all = wire::vmess_names();
    let untyped = wire::vmess_untyped();
    lemma_members(m, 0);
    assert(v.skip(0) =~= v);
    names::lemma_payload_names();
    assert(v[i].0 == m[i].0);
    assert(all[0] == "add"@ && all[1] == "port"@ && all[2] == "id"@ && all[3] == "aid"@ && all[4]
        == "scy"@ && all[5] == "net"@ && all[6] == "host"@ && all[7] == "path"@ && all[8] == "tls"@
        && all[9] == "sni"@ && all[10] == "alpn"@ && all[11] == "fp"@ && all[12] == "ps"@);
    assert(all.contains(m[i].0));
    if 0 <= j < i && m[j].0 == m[i].0 {
        assert(v[j].0 == m[j].0);
        assert(wire::named_before(v, i, v[i].0));
    } else {
        assert(!untyped.contains(m[i].0));
        assert(!(v[i].1 is Text) && !(v[i].1 is Null));
    }
    assert(wire::member_fault(v, i, all, untyped) is Some);
    lemma_fault(v, 0, all, untyped, i);
}

/// A document with different names is a configuration of the core exactly if it has
/// outbounds or inbounds that are not null; without any document it is none.
pub proof fn law_configurations_have_outbounds_or_inbounds(
    m: Seq<(Seq<char>, JsonNode<Seq<char>>)>,
)
    requires
        m.len() <= usize::MAX,
        are_distinct(m),
        forall|i: int| 0 <= i < m.len() ==> is_scalar((#[trigger] m[i]).1),
    ensures
        wire::has_proxy_section(Some(object_of(m))) <==> (carried(m, "outbounds"@) is Some
            && !(carried(m, "outbounds"@)->0 is Null)) || (carried(m, "inbounds"@) is Some && !(
        carried(m, "inbounds"@)->0 is Null)),
        !wire::has_proxy_section(None),
{
    let v = values_of(m);
    let all = wire::section_names();
    lemma_members(m, 0);
    assert(v.skip(0) =~= v);
    assert forall|k: int| 0 <= k < v.len() implies #[trigger] wire::member_fault(
        v,
        k,
        all,
        all,
    ) is None by {
        let name = v[k].0;
        if wire::named_before(v, k, name) {
            let j = choose|j: int| 0 <= j < k && (#[trigger] v[j]).0 == name;
            assert(m[j].0 != m[k].0);
        }
    }
    lemma_no_fault(v, 0, all, all);
    lemma_carried(m, "outbounds"@);
    lemma_carried(m, "inbounds"@);
}

} // verus!
