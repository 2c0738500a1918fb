//! JSON documents as the flat list of nodes that the parser hands out, and the
//! records that are read from them.
use crate::text;
use simd_json::{Node, StaticNode};
use vstd::prelude::*;
use vstd::string::*;

verus! {

/// One node of a parsed document, in document order. An object or an array is
/// followed by its `count` nodes; `len` is the number of its members.
#[derive(Clone, Debug, PartialEq, Eq)]
pub enum JsonNode<T = String> {
    Text(T),
    Object { len: usize, count: usize },
    Array { len: usize, count: usize },
    Null,
    Bool(bool),
    Signed(i64),
    Unsigned(u64),
    Decimal,
}

impl View for JsonNode {
    type V = JsonNode<Seq<char>>;

    open spec fn view(&self) -> JsonNode<Seq<char>> {
        match *self {
            JsonNode::Text(s) => JsonNode::Text(s@),
            JsonNode::Object { len, count } => JsonNode::Object { len, count },
            JsonNode::Array { len, count } => JsonNode::Array { len, count },
            JsonNode::Null => JsonNode::Null,
            JsonNode::Bool(b) => JsonNode::Bool(b),
            JsonNode::Signed(n) => JsonNode::Signed(n),
            JsonNode::Unsigned(n) => JsonNode::Unsigned(n),
            JsonNode::Decimal => JsonNode::Decimal,
        }
    }
}

/// The value of a member, as far as the records need it: null, a text, an
/// unsigned number, or something else.
#[derive(Clone, Debug, PartialEq, Eq)]
pub enum WireValue<T = String> {
    Null,
    Text(T),
    Number(u64),
    Other,
}

impl View for WireValue {
    type V = WireValue<Seq<char>>;

    open spec fn view(&self) -> WireValue<Seq<char>> {
        match *self {
            WireValue::Null => WireValue::Null,
            WireValue::Text(s) => WireValue::Text(s@),
            WireValue::Number(n) => WireValue::Number(n),
            WireValue::Other => WireValue::Other,
        }
    }
}

/// The payload of a VMess link.
#[derive(Clone, Debug, PartialEq, Eq)]
pub struct VmessWire<T = String> {
    pub add: Option<T>,
    pub port: Option<WireValue<T>>,
    pub id: Option<T>,
    pub aid: Option<WireValue<T>>,
    pub scy: Option<T>,
    pub net: Option<T>,
    pub host: Option<T>,
    pub path: Option<T>,
    pub tls: Option<T>,
    pub sni: Option<T>,
    pub alpn: Option<T>,
    pub fp: Option<T>,
    pub ps: Option<T>,
}

pub open spec fn value_view(v: Option<WireValue>) -> Option<WireValue<Seq<char>>> {
    match v {
        Some(w) => Some(w@),
        None => None,
    }
}

impl View for VmessWire {
    type V = VmessWire<Seq<char>>;

    open spec fn view(&self) -> VmessWire<Seq<char>> {
        VmessWire {
            add: text::text_of(self.add),
            port: value_view(self.port),
            id: text::text_of(self.id),
            aid: value_view(self.aid),
            scy: text::text_of(self.scy),
            net: text::text_of(self.net),
            host: text::text_of(self.host),
            path: text::text_of(self.path),
            tls: text::text_of(self.tls),
            sni: text::text_of(self.sni),
            alpn: text::text_of(self.alpn),
            fp: text::text_of(self.fp),
            ps: text::text_of(self.ps),
        }
    }
}

// ---------------------------------------------------------------------------
// Model
// ---------------------------------------------------------------------------

/// The nodes that `simd_json::to_tape` makes of bytes, if they are a document.
pub uninterp spec fn json_tape(bytes: Seq<u8>) -> Option<Seq<JsonNode<Seq<char>>>>;

pub open spec fn nodes_view(s: Seq<JsonNode>) -> Seq<JsonNode<Seq<char>>> {
    s.map_values(|n: JsonNode| n@)
}

pub open spec fn tape_result(r: Result<Vec<JsonNode>, String>) -> Result<
    Seq<JsonNode<Seq<char>>>,
    Seq<char>,
> {
    match r {
        Ok(nodes) => Ok(nodes_view(nodes@)),
        Err(e) => Err(e@),
    }
}

/// The value that starts with a node.
pub open spec fn wire_value(n: JsonNode<Seq<char>>) -> WireValue<Seq<char>> {
    match n {
        JsonNode::Null => WireValue::Null,
        JsonNode::Text(s) => WireValue::Text(s),
        JsonNode::Unsigned(v) => WireValue::Number(v),
        JsonNode::Signed(v) => if v >= 0 {
            WireValue::Number(v as u64)
        } else {
            WireValue::Other
        },
        _ => WireValue::Other,
    }
}

/// The number of nodes that a value takes.
pub open spec fn node_span(n: JsonNode<Seq<char>>) -> nat {
    match n {
        JsonNode::Object { len, count } => 1 + count as nat,
        JsonNode::Array { len, count } => 1 + count as nat,
        _ => 1,
    }
}

pub open spec fn serde_error(message: Seq<char>) -> Seq<char> {
    "Serde(\""@ + message + "\") at character 0"@
}

/// The members of an object from position `pos` on, and what is wrong after the
/// last of them.
pub open spec fn object_members(tape: Seq<JsonNode<Seq<char>>>, pos: int, left: nat) -> (
    Seq<(Seq<char>, WireValue<Seq<char>>)>,
    Option<Seq<char>>,
)
    decreases left,
{
    if left == 0 {
        (Seq::empty(), None)
    } else if pos < 0 || pos >= tape.len() {
        (Seq::empty(), Some("Syntax at character 0"@))
    } else {
        match tape[pos] {
            JsonNode::Text(name) => if pos + 1 >= tape.len() {
                (Seq::empty(), Some("Eof at character 0"@))
            } else {
                let value = tape[pos + 1];
                let rest = object_members(tape, pos + 1 + node_span(value), (left - 1) as nat);
                (seq![(name, wire_value(value))] + rest.0, rest.1)
            },
            _ => (Seq::empty(), Some("ExpectedString at character 0"@)),
        }
    }
}

/// The items of an array as the members with the given names, in order, and what
/// is wrong after the last of them.
pub open spec fn array_members(
    tape: Seq<JsonNode<Seq<char>>>,
    pos: int,
    len: nat,
    k: nat,
    names: Seq<Seq<char>>,
    record: Seq<char>,
) -> (Seq<(Seq<char>, WireValue<Seq<char>>)>, Option<Seq<char>>)
    decreases names.len() - k,
{
    if k >= names.len() {
        (
            Seq::empty(),
            if len > k {
                Some(
                    serde_error(
                        "invalid length "@ + text::decimal(len)
                            + ", expected fewer elements in array"@,
                    ),
                )
            } else {
                None
            },
        )
    } else if k >= len {
        (
            Seq::empty(),
            Some(
                serde_error(
                    "invalid length "@ + text::decimal(k) + ", expected struct "@ + record
                        + " with "@ + text::decimal(names.len()) + " elements"@,
                ),
            ),
        )
    } else if pos < 0 || pos >= tape.len() {
        (Seq::empty(), Some("Eof at character 0"@))
    } else {
        let rest = array_members(tape, pos + node_span(tape[pos]), len, k + 1, names, record);
        (seq![(names[k as int], wire_value(tape[pos]))] + rest.0, rest.1)
    }
}

/// The members of a document that should hold a record.
pub open spec fn record_members(
    tape: Seq<JsonNode<Seq<char>>>,
    names: Seq<Seq<char>>,
    record: Seq<char>,
) -> (Seq<(Seq<char>, WireValue<Seq<char>>)>, Option<Seq<char>>) {
    if tape.len() == 0 {
        (Seq::empty(), Some("ExpectedMap at character 0"@))
    } else {
        match tape[0] {
            JsonNode::Object { len, count } => object_members(tape, 1, len as nat),
            JsonNode::Array { len, count } => array_members(tape, 1, len as nat, 0, names, record),
            _ => (Seq::empty(), Some("ExpectedMap at character 0"@)),
        }
    }
}

/// A member with the name stands before position `i`.
pub open spec fn named_before(
    m: Seq<(Seq<char>, WireValue<Seq<char>>)>,
    i: int,
    name: Seq<char>,
) -> bool {
    exists|j: int| 0 <= j < i && (#[trigger] m[j]).0 == name
}

/// What is wrong with the member at `i`: a known name that came before, or a
/// value that should be a text and is none. `untyped` are the names whose value
/// may be anything.
pub open spec fn member_fault(
    m: Seq<(Seq<char>, WireValue<Seq<char>>)>,
    i: int,
    names: Seq<Seq<char>>,
    untyped: Seq<Seq<char>>,
) -> Option<Seq<char>> {
    let name = m[i].0;
    let value = m[i].1;
    if !names.contains(name) {
        None
    } else if named_before(m, i, name) {
        Some(serde_error("duplicate field `"@ + name + "`"@))
    } else if !untyped.contains(name) && !(value is Null) && !(value is Text) {
        Some("ExpectedString at character 0"@)
    } else {
        None
    }
}

pub open spec fn first_fault(
    m: Seq<(Seq<char>, WireValue<Seq<char>>)>,
    i: int,
    names: Seq<Seq<char>>,
    untyped: Seq<Seq<char>>,
) -> Option<Seq<char>>
    decreases m.len() - i,
{
    if i < 0 || i >= m.len() {
        None
    } else {
        match member_fault(m, i, names, untyped) {
            Some(e) => Some(e),
            None => first_fault(m, i + 1, names, untyped),
        }
    }
}

/// The members of a record, or the first thing that is wrong with it.
pub open spec fn record_of(
    tape: Seq<JsonNode<Seq<char>>>,
    names: Seq<Seq<char>>,
    untyped: Seq<Seq<char>>,
    record: Seq<char>,
) -> Result<Seq<(Seq<char>, WireValue<Seq<char>>)>, Seq<char>> {
    let (m, rest) = record_members(tape, names, record);
    match first_fault(m, 0, names, untyped) {
        Some(e) => Err(e),
        None => match rest {
            Some(e) => Err(e),
            None => Ok(m),
        },
    }
}

/// The value of the first member with a name, or null.
pub open spec fn field(m: Seq<(Seq<char>, WireValue<Seq<char>>)>, name: Seq<char>) -> WireValue<
    Seq<char>,
>
    decreases m.len(),
{
    if m.len() == 0 {
        WireValue::Null
    } else if m[0].0 == name {
        m[0].1
    } else {
        field(m.drop_first(), name)
    }
}

pub open spec fn field_text(m: Seq<(Seq<char>, WireValue<Seq<char>>)>, name: Seq<char>) -> Option<
    Seq<char>,
> {
    match field(m, name) {
        WireValue::Text(s) => Some(s),
        _ => None,
    }
}

pub open spec fn field_value(m: Seq<(Seq<char>, WireValue<Seq<char>>)>, name: Seq<char>) -> Option<
    WireValue<Seq<char>>,
> {
    match field(m, name) {
        WireValue::Null => None,
        v => Some(v),
    }
}

pub open spec fn vmess_names() -> Seq<Seq<char>> {
    seq![
        "add"@,
        "port"@,
        "id"@,
        "aid"@,
        "scy"@,
        "net"@,
        "host"@,
        "path"@,
        "tls"@,
        "sni"@,
        "alpn"@,
        "fp"@,
        "ps"@,
    ]
}

pub open spec fn vmess_untyped() -> Seq<Seq<char>> {
    seq!["port"@, "aid"@]
}

/// The VMess payload in a document.
pub open spec fn vmess_wire(tape: Seq<JsonNode<Seq<char>>>) -> Result<
    VmessWire<Seq<char>>,
    Seq<char>,
> {
    match record_of(tape, vmess_names(), vmess_untyped(), "VmessWire"@) {
        Err(e) => Err(e),
        Ok(m) => Ok(
            VmessWire {
                add: field_text(m, "add"@),
                port: field_value(m, "port"@),
                id: field_text(m, "id"@),
                aid: field_value(m, "aid"@),
                scy: field_text(m, "scy"@),
                net: field_text(m, "net"@),
                host: field_text(m, "host"@),
                path: field_text(m, "path"@),
                tls: field_text(m, "tls"@),
                sni: field_text(m, "sni"@),
                alpn: field_text(m, "alpn"@),
                fp: field_text(m, "fp"@),
                ps: field_text(m, "ps"@),
            },
        ),
    }
}

pub open spec fn section_names() -> Seq<Seq<char>> {
    seq!["outbounds"@, "inbounds"@]
}

/// The document is a record with outbounds or inbounds that are not null.
pub open spec fn has_proxy_section(tape: Option<Seq<JsonNode<Seq<char>>>>) -> bool {
    match tape {
        None => false,
        Some(t) => match record_of(t, section_names(), section_names(), "ContainerProbe"@) {
            Err(_) => false,
            Ok(m) => !(field(m, "outbounds"@) is Null) || !(field(m, "inbounds"@) is Null),
        },
    }
}

// ---------------------------------------------------------------------------
// Outside calls
// ---------------------------------------------------------------------------

/// `simd_json::to_tape`: the nodes of a document in order, under a name, or an error.
/// A number with a fraction is told apart and not kept. The text of the error is
/// not stated: it depends on the instructions that the processor has.
#[verifier::external_body]
pub(crate) fn read_json(bytes: &[u8]) -> (r: Result<Vec<JsonNode>, String>)
    ensures
        (match r {
            Ok(nodes) => json_tape(bytes@) == Some(nodes_view(nodes@)),
            Err(_) => json_tape(bytes@) is None,
        }),
{
    let mut copy = bytes.to_vec();
    let tape = simd_json::to_tape(&mut copy).map_err(|error| error.to_string())?;
    Ok(tape.0.into_iter().map(|node| match node {
        Node::String(s) => JsonNode::Text(s.to_owned()),
        Node::Object { len, count } => JsonNode::Object { len, count },
        Node::Array { len, count } => JsonNode::Array { len, count },
        Node::Static(StaticNode::Null) => JsonNode::Null,
        Node::Static(StaticNode::Bool(b)) => JsonNode::Bool(b),
        Node::Static(StaticNode::I64(n)) => JsonNode::Signed(n),
        Node::Static(StaticNode::U64(n)) => JsonNode::Unsigned(n),
        Node::Static(StaticNode::F64(_)) => JsonNode::Decimal,
    }).collect())
}

// ---------------------------------------------------------------------------
// Executable forms
// ---------------------------------------------------------------------------

/// The members of a record with their names.
type Members = Vec<(String, WireValue)>;

pub open spec fn members_view(s: Seq<(String, WireValue)>) -> Seq<
    (Seq<char>, WireValue<Seq<char>>),
> {
    s.map_values(|m: (String, WireValue)| (m.0@, m.1@))
}

pub open spec fn names_view(s: Seq<&'static str>) -> Seq<Seq<char>> {
    s.map_values(|n: &'static str| n@)
}

fn value_of(n: &JsonNode) -> (r: WireValue)
    ensures
        r@ == wire_value(n@),
{
    match n {
        JsonNode::Null => WireValue::Null,
        JsonNode::Text(s) => WireValue::Text(s.clone()),
        JsonNode::Unsigned(v) => WireValue::Number(*v),
        JsonNode::Signed(v) => if *v >= 0 {
            WireValue::Number(*v as u64)
        } else {
            WireValue::Other
        },
        _ => WireValue::Other,
    }
}

/// The position behind the value at `pos`, capped at the number of nodes.
fn after_value(nodes: &Vec<JsonNode>, pos: usize) -> (r: usize)
    requires
        pos < nodes@.len(),
    ensures
        r <= nodes@.len(),
        r == pos + node_span(nodes@[pos as int]@) || (r == nodes@.len() && pos + node_span(
            nodes@[pos as int]@,
        ) >= nodes@.len()),
{
    let total: usize = nodes.len();
    let count: usize = match &nodes[pos] {
        JsonNode::Object { count, .. } => *count,
        JsonNode::Array { count, .. } => *count,
        _ => 0,
    };
    if count >= total - pos {
        total
    } else {
        pos + 1 + count
    }
}

fn serde_text(message: &str) -> (r: String)
    ensures
        r@ == serde_error(message@),
{
    let mut r = "Serde(\"".to_owned();
    r.append(message);
    r.append("\") at character 0");
    r
}

fn read_object(nodes: &Vec<JsonNode>, len: usize) -> (r: (Members, Option<String>))
    ensures
        object_members(nodes_view(nodes@), 1, len as nat) == (
            members_view(r.0@),
            text::text_of(r.1),
        ),
{
    let ghost tape = nodes_view(nodes@);
    let mut members: Members = Vec::new();
    let mut pos: usize = 1;
    let mut left: usize = len;
    assert(members_view(members@) =~= Seq::empty());
    proof {
        let sub = object_members(tape, 1, len as nat);
        assert(members_view(members@) + sub.0 =~= sub.0);
    }
    while left > 0
        invariant
            1 <= pos,
            tape == nodes_view(nodes@),
            ({
                let sub = object_members(tape, pos as int, left as nat);
                object_members(tape, 1, len as nat) == (members_view(members@) + sub.0, sub.1)
            }),
        decreases left,
    {
        let ghost sub = object_members(tape, pos as int, left as nat);
        let ghost done = members_view(members@);
        let total: usize = nodes.len();
        if pos >= total {
            assert(done + sub.0 =~= done);
            return (members, Some("Syntax at character 0".to_owned()));
        }
        assert(tape[pos as int] == nodes@[pos as int]@);
        match &nodes[pos] {
            JsonNode::Text(name) => {
                if pos + 1 >= total {
                    assert(done + sub.0 =~= done);
                    return (members, Some("Eof at character 0".to_owned()));
                }
                assert(tape[pos + 1] == nodes@[pos + 1]@);
                let value = value_of(&nodes[pos + 1]);
                members.push((name.clone(), value));
                let next = after_value(nodes, pos + 1);
                proof {
                    let ideal = pos + 1 + node_span(tape[pos + 1]);
                    let rest = object_members(tape, ideal, (left - 1) as nat);
                    assert(rest == object_members(tape, next as int, (left - 1) as nat));
                    assert(members_view(members@) =~= done.push((name@, value@)));
                    assert(members_view(members@) + rest.0 =~= done + (seq![(name@, value@)]
                        + rest.0));
                }
                pos = next;
                left -= 1;
            },
            _ => {
                assert(done + sub.0 =~= done);
                return (members, Some("ExpectedString at character 0".to_owned()));
            },
        }
    }
    proof {
        let sub = object_members(tape, pos as int, left as nat);
        assert(members_view(members@) + sub.0 =~= members_view(members@));
    }
    (members, None)
}

fn read_array(
    nodes: &Vec<JsonNode>,
    len: usize,
    names: &Vec<&'static str>,
    record: &'static str,
) -> (r: (Members, Option<String>))
    ensures
        array_members(
            nodes_view(nodes@),
            1,
            len as nat,
            0,
            names_view(names@),
            record@,
        ) == (members_view(r.0@), text::text_of(r.1)),
{
    let ghost tape = nodes_view(nodes@);
    let ghost all = names_view(names@);
    let ghost want = array_members(tape, 1, len as nat, 0, all, record@);
    let mut members: Members = Vec::new();
    let mut pos: usize = 1;
    let mut k: usize = 0;
    assert(members_view(members@) =~= Seq::empty());
    assert(members_view(members@) + want.0 =~= want.0);
    while k < names.len()
        invariant
            1 <= pos,
            k <= names@.len(),
            tape == nodes_view(nodes@),
            all == names_view(names@),
            want == array_members(tape, 1, len as nat, 0, all, record@),
            ({
                let sub = array_members(tape, pos as int, len as nat, k as nat, all, record@);
                want == (members_view(members@) + sub.0, sub.1)
            }),
        decreases names@.len() - k,
    {
        let ghost sub = array_members(tape, pos as int, len as nat, k as nat, all, record@);
        let ghost done = members_view(members@);
        if k >= len {
            let mut message = "invalid length ".to_owned();
            message.append(text::decimal_text(k as u64).as_str());
            message.append(", expected struct ");
            message.append(record);
            message.append(" with ");
            message.append(text::decimal_text(names.len() as u64).as_str());
            message.append(" elements");
            assert(done + sub.0 =~= done);
            return (members, Some(serde_text(message.as_str())));
        }
        if pos >= nodes.len() {
            assert(done + sub.0 =~= done);
            return (members, Some("Eof at character 0".to_owned()));
        }
        assert(tape[pos as int] == nodes@[pos as int]@);
        let value = value_of(&nodes[pos]);
        members.push((names[k].to_owned(), value));
        let next = after_value(nodes, pos);
        proof {
            let ideal = pos + node_span(tape[pos as int]);
            let rest = array_members(tape, ideal, len as nat, (k + 1) as nat, all, record@);
            assert(rest == array_members(
                tape,
                next as int,
                len as nat,
                (k + 1) as nat,
                all,
                record@,
            ));
            assert(members_view(members@) =~= done.push((all[k as int], value@)));
            assert(members_view(members@) + rest.0 =~= done + (seq![(all[k as int], value@)]
                + rest.0));
        }
        pos = next;
        k += 1;
    }
    let ghost sub = array_members(tape, pos as int, len as nat, k as nat, all, record@);
    assert(members_view(members@) + sub.0 =~= members_view(members@));
    if len > k {
        let mut message = "invalid length ".to_owned();
        message.append(text::decimal_text(len as u64).as_str());
        message.append(", expected fewer elements in array");
        return (members, Some(serde_text(message.as_str())));
    }
    (members, None)
}

fn has_name(names: &Vec<&'static str>, name: &str) -> (r: bool)
    ensures
        r == names_view(names@).contains(name@),
{
    let ghost all = names_view(names@);
    let mut i: usize = 0;
    while i < names.len()
        invariant
            i <= names@.len(),
            all == names_view(names@),
            forall|k: int| 0 <= k < i ==> all[k] != name@,
        decreases names@.len() - i,
    {
        assert(all[i as int] == names@[i as int]@);
        if text::same(names[i], name) {
            return true;
        }
        i += 1;
    }
    false
}

fn seen_before(members: &Members, n: usize, name: &str) -> (r: bool)
    requires
        n <= members@.len(),
    ensures
        r == named_before(members_view(members@), n as int, name@),
{
    let ghost m = members_view(members@);
    let mut i: usize = 0;
    while i < n
        invariant
            i <= n <= members@.len(),
            m == members_view(members@),
            forall|j: int| 0 <= j < i ==> (#[trigger] m[j]).0 != name@,
        decreases n - i,
    {
        assert(m[i as int].0 == members@[i as int].0@);
        if text::same(members[i].0.as_str(), name) {
            return true;
        }
        i += 1;
    }
    false
}

fn find_fault(members: &Members, names: &Vec<&'static str>, untyped: &Vec<&'static str>) -> (r:
    Option<String>)
    ensures
        text::text_of(r) == first_fault(
            members_view(members@),
            0,
            names_view(names@),
            names_view(untyped@),
        ),
{
    let ghost m = members_view(members@);
    let ghost all = names_view(names@);
    let ghost free = names_view(untyped@);
    let mut i: usize = 0;
    while i < members.len()
        invariant
            i <= members@.len(),
            m == members_view(members@),
            all == names_view(names@),
            free == names_view(untyped@),
            first_fault(m, 0, all, free) == first_fault(m, i as int, all, free),
        decreases members@.len() - i,
    {
        let name = members[i].0.as_str();
        assert(m[i as int] == (members@[i as int].0@, members@[i as int].1@));
        if has_name(names, name) {
            if seen_before(members, i, name) {
                let mut message = "duplicate field `".to_owned();
                message.append(name);
                message.append("`");
                return Some(serde_text(message.as_str()));
            }
            let fits = match &members[i].1 {
                WireValue::Null => true,
                WireValue::Text(_) => true,
                _ => false,
            };
            if !fits && !has_name(untyped, name) {
                return Some("ExpectedString at character 0".to_owned());
            }
        }
        i += 1;
    }
    None
}

/// Reads a record from a document.
fn read_record(
    nodes: &Vec<JsonNode>,
    names: &Vec<&'static str>,
    untyped: &Vec<&'static str>,
    record: &'static str,
) -> (r: Result<Members, String>)
    ensures
        (match r {
            Ok(m) => record_of(
                nodes_view(nodes@),
                names_view(names@),
                names_view(untyped@),
                record@,
            ) == Ok::<_, Seq<char>>(members_view(m@)),
            Err(e) => record_of(
                nodes_view(nodes@),
                names_view(names@),
                names_view(untyped@),
                record@,
            ) == Err::<Seq<(Seq<char>, WireValue<Seq<char>>)>, _>(e@),
        }),
{
    let ghost tape = nodes_view(nodes@);
    let (members, rest) = if nodes.len() == 0 {
        let none: Members = Vec::new();
        assert(members_view(none@) =~= Seq::empty());
        (none, Some("ExpectedMap at character 0".to_owned()))
    } else {
        assert(tape[0] == nodes@[0]@);
        match &nodes[0] {
            JsonNode::Object { len, .. } => read_object(nodes, *len),
            JsonNode::Array { len, .. } => read_array(nodes, *len, names, record),
            _ => {
                let none: Members = Vec::new();
                assert(members_view(none@) =~= Seq::empty());
                (none, Some("ExpectedMap at character 0".to_owned()))
            },
        }
    };
    match find_fault(&members, names, untyped) {
        Some(e) => Err(e),
        None => match rest {
            Some(e) => Err(e),
            None => Ok(members),
        },
    }
}

fn find_field(members: &Members, name: &str) -> (r: WireValue)
    ensures
        r@ == field(members_view(members@), name@),
{
    let ghost m = members_view(members@);
    let mut i: usize = 0;
    assert(m.skip(0) =~= m);
    while i < members.len()
        invariant
            i <= members@.len(),
            m == members_view(members@),
            field(m, name@) == field(m.skip(i as int), name@),
        decreases members@.len() - i,
    {
        assert(m.skip(i as int)[0] == (members@[i as int].0@, members@[i as int].1@));
        assert(m.skip(i as int).drop_first() =~= m.skip(i + 1));
        if text::same(members[i].0.as_str(), name) {
            return match &members[i].1 {
                WireValue::Null => WireValue::Null,
                WireValue::Text(s) => WireValue::Text(s.clone()),
                WireValue::Number(n) => WireValue::Number(*n),
                WireValue::Other => WireValue::Other,
            };
        }
        i += 1;
    }
    assert(m.skip(i as int) =~= Seq::empty());
    WireValue::Null
}

fn find_text(members: &Members, name: &str) -> (r: Option<String>)
    ensures
        text::text_of(r) == field_text(members_view(members@), name@),
{
    match find_field(members, name) {
        WireValue::Text(s) => Some(s),
        _ => None,
    }
}

fn find_value(members: &Members, name: &str) -> (r: Option<WireValue>)
    ensures
        value_view(r) == field_value(members_view(members@), name@),
{
    match find_field(members, name) {
        WireValue::Null => None,
        v => Some(v),
    }
}

/// Reads the VMess payload of a document.
pub fn read_vmess(nodes: &Vec<JsonNode>) -> (r: Result<VmessWire, String>)
    ensures
        (match r {
            Ok(w) => vmess_wire(nodes_view(nodes@)) == Ok::<_, Seq<char>>(w@),
            Err(e) => vmess_wire(nodes_view(nodes@)) == Err::<VmessWire<Seq<char>>, _>(e@),
        }),
{
    let names = vec![
        "add",
        "port",
        "id",
        "aid",
        "scy",
        "net",
        "host",
        "path",
        "tls",
        "sni",
        "alpn",
        "fp",
        "ps",
    ];
    let untyped = vec!["port", "aid"];
    assert(names_view(names@) =~= vmess_names());
    assert(names_view(untyped@) =~= vmess_untyped());
    match read_record(nodes, &names, &untyped, "VmessWire") {
        Err(e) => Err(e),
        Ok(m) => Ok(
            VmessWire {
                add: find_text(&m, "add"),
                port: find_value(&m, "port"),
                id: find_text(&m, "id"),
                aid: find_value(&m, "aid"),
                scy: find_text(&m, "scy"),
                net: find_text(&m, "net"),
                host: find_text(&m, "host"),
                path: find_text(&m, "path"),
                tls: find_text(&m, "tls"),
                sni: find_text(&m, "sni"),
                alpn: find_text(&m, "alpn"),
                fp: find_text(&m, "fp"),
                ps: find_text(&m, "ps"),
            },
        ),
    }
}

/// Whether a document is a record with outbounds or inbounds.
pub fn holds_proxy_section(nodes: &Vec<JsonNode>) -> (r: bool)
    ensures
        r == has_proxy_section(Some(nodes_view(nodes@))),
{
    let names = vec!["outbounds", "inbounds"];
    assert(names_view(names@) =~= section_names());
    match read_record(nodes, &names, &names, "ContainerProbe") {
        Err(_) => false,
        Ok(m) => {
            let outbounds = match find_field(&m, "outbounds") {
                WireValue::Null => false,
                _ => true,
            };
            let inbounds = match find_field(&m, "inbounds") {
                WireValue::Null => false,
                _ => true,
            };
            outbounds || inbounds
        },
    }
}

} // verus!
