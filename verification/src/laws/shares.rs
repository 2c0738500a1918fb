//! What the links of each kind promise.
use crate::ip;
use crate::ip::SocketView;
use crate::ir::node;
use crate::ir::node::{EndpointTarget, EndpointView, NodeView, SubId};
use crate::ir::protocol::{ProtocolSpec, VmessCipher};
use crate::ir::transport::{SecuritySpec, TransportSpec};
use crate::ir::uuid;
use crate::ir::uuid::Uuid;
use crate::laws;
use crate::laws::links;
use crate::laws::names;
use crate::parser::error::{ErrorView, ParseError};
use crate::parser::metadata;
use crate::parser::uri;
use crate::parser::uri::UrlView;
use crate::parser::wire::{VmessWire, WireValue};
use crate::text;
use vstd::prelude::*;

verus! {

// ---------------------------------------------------------------------------
// Parts that links share
// ---------------------------------------------------------------------------

/// The value of a hexadecimal digit.
pub open spec fn nibble(b: u8) -> int {
    if 48 <= b <= 57 {
        b - 48
    } else if 65 <= b <= 70 {
        b - 55
    } else if 97 <= b <= 102 {
        b - 87
    } else {
        -1
    }
}

/// A percent sign and two hexadecimal digits stand for one byte; every other byte, a
/// percent sign without two such digits too, stands for itself.
pub proof fn law_percent_signs_stand_for_bytes(first: u8, second: u8, third: u8, rest: Seq<u8>)
    ensures
        uri::percent_decoded(Seq::empty()).len() == 0,
        first != 37 ==> uri::percent_decoded(seq![first] + rest) == seq![first]
            + uri::percent_decoded(rest),
        first == 37 && nibble(second) >= 0 && nibble(third) >= 0 ==> uri::percent_decoded(
            seq![first, second, third] + rest,
        ) == seq![(16 * nibble(second) + nibble(third)) as u8] + uri::percent_decoded(rest),
        first == 37 && (nibble(second) < 0 || nibble(third) < 0) ==> uri::percent_decoded(
            seq![first, second, third] + rest,
        ) == seq![first] + uri::percent_decoded(seq![second, third] + rest),
{
    assert((seq![first] + rest).skip(1) =~= rest);
    let s = seq![first, second, third] + rest;
    assert(s.skip(3) =~= rest);
    assert(s.skip(1) =~= seq![second, third] + rest);
}

/// The endpoint goes to the port, and to the host: as an address where it is one, and
/// otherwise as a bare name.
pub open spec fn goes_to(e: EndpointView, host: Seq<char>, port: u16) -> bool {
    match ip::ip_value(host) {
        Some(address) => e == EndpointTarget::<Seq<char>, SocketView>::Ip(
            SocketView { ip: address, port },
        ),
        None => e == EndpointTarget::<Seq<char>, SocketView>::Domain {
            host: node::clean_host(host),
            port,
        },
    }
}

/// A link leads to its host and port; without a port it leads to the usual one, where
/// its kind has one. A link without a host, one without a port where none is usual, and
/// one to the port zero lead nowhere.
pub proof fn law_links_lead_to_their_host(url: UrlView, usual: u16)
    ensures
        ({
            let r = uri::url_endpoint(url, usual);
            let port = match url.port {
                Some(p) => p,
                None => usual,
            };
            &&& r is Ok ==> url.host is Some && port != 0 && goes_to(r->Ok_0, url.host->0, port)
            &&& url.host is None ==> r is Err && r->Err_0 == ParseError::<
                Seq<char>,
                Seq<char>,
            >::MissingField("host"@)
            &&& url.host is Some && url.port is None && usual == 0 ==> r is Err && r->Err_0
                == ParseError::<Seq<char>, Seq<char>>::MissingField("port"@)
            &&& url.host is Some && url.port == Some(0u16) ==> r is Err && r->Err_0 is InvalidEndpoint
            &&& url.host is Some && port != 0 && ip::ip_value(url.host->0) is Some ==> r is Ok
            &&& url.host is Some && port != 0 && node::normalized_host(url.host->0) is Ok ==> r is Ok
        }),
{
}

/// A link's label is its fragment, decoded; one without a fragment, or with one that
/// decodes to nothing, gets a common label.
pub proof fn law_links_are_labelled(url: UrlView, common: Seq<char>)
    ensures
        url.fragment is None ==> uri::url_label(url, common) == common,
        url.fragment is Some ==> {
            let t = text::utf8_lossy(
                uri::percent_decoded(vstd::utf8::encode_utf8(url.fragment->0)),
            );
            &&& t.len() > 0 ==> uri::url_label(url, common) == t
            &&& t.len() == 0 ==> uri::url_label(url, common) == common
        },
{
}

/// The node comes from the subscription, was imported at the time and has the label and
/// the label's country.
pub open spec fn is_filed(n: NodeView, sub_id: SubId, timestamp: u64, label: Seq<char>) -> bool {
    &&& n.meta.sub_id == sub_id
    &&& n.meta.import_timestamp == timestamp
    &&& n.meta.label == label
    &&& n.meta.country_code == metadata::country_code(label)
    &&& n.mux is None
}

/// The port of a link, or the usual one of secured traffic.
pub open spec fn port_or_usual(url: UrlView) -> u16 {
    match url.port {
        Some(p) => p,
        None => 443,
    }
}

// ---------------------------------------------------------------------------
// Kinds
// ---------------------------------------------------------------------------

/// A link is read by its scheme; a scheme that is not known is refused by name.
pub proof fn law_schemes_decide(url: UrlView, sub_id: SubId, timestamp: u64, fault: Seq<char>)
    ensures
        ({
            let r = uri::url_node(url, sub_id, timestamp, fault);
            &&& r is Ok ==> {
                let p = r->Ok_0.protocol;
                &&& p is Vless <==> url.scheme == "vless"@
                &&& p is Vmess <==> url.scheme == "vmess"@
                &&& p is Trojan <==> url.scheme == "trojan"@
                &&& p is Shadowsocks <==> url.scheme == "ss"@
                &&& p is Hysteria2 <==> url.scheme == "hysteria2"@ || url.scheme == "hy2"@
                &&& p is Tuic <==> url.scheme == "tuic"@
            }
            &&& url.scheme != "vless"@ && url.scheme != "vmess"@ && url.scheme != "trojan"@
                && url.scheme != "ss"@ && url.scheme != "hysteria2"@ && url.scheme != "hy2"@
                && url.scheme != "tuic"@ ==> r is Err && r->Err_0 == ParseError::<
                Seq<char>,
                Seq<char>,
            >::UnsupportedFormat(url.scheme)
        }),
{
    names::lemma_scheme_names();
}

/// A VLESS link names its user before the host, where only an identifier may stand; it
/// leads to its host, with the transport, the security and the flow of its query.
#[verifier::rlimit(40)]
pub proof fn law_vless_links(url: UrlView, sub_id: SubId, timestamp: u64, fault: Seq<char>)
    requires
        url.scheme == "vless"@,
    ensures
        ({
            let r = uri::url_node(url, sub_id, timestamp, fault);
            let n = r->Ok_0;
            &&& uuid::uuid_parsed(url.username) is None ==> r is Err && r->Err_0 == ParseError::<
                Seq<char>,
                Seq<char>,
            >::InvalidUuid(url.username)
            &&& r is Ok ==> {
                &&& n.protocol is Vless
                &&& Some(n.protocol->Vless_0.uuid.0) == uuid::uuid_parsed(url.username)
                &&& uri::flow_of(links::given(url.query, "flow"@)) is Ok
                &&& n.protocol->Vless_0.flow == uri::flow_of(links::given(url.query, "flow"@))->Ok_0
                &&& goes_to(n.endpoint, url.host->0, port_or_usual(url))
                &&& uri::query_transport(url.query) is Ok && n.transport == uri::query_transport(
                    url.query,
                )->Ok_0
                &&& uri::query_security(url.query) is Ok && n.security == uri::query_security(
                    url.query,
                )->Ok_0
                &&& is_filed(n, sub_id, timestamp, uri::url_label(url, "VLESS Node"@))
            }
            &&& uuid::uuid_parsed(url.username) is Some && uri::url_endpoint(url, 443) is Ok
                && uri::query_transport(url.query) is Ok && uri::query_security(url.query) is Ok
                && uri::flow_of(links::given(url.query, "flow"@)) is Ok ==> r is Ok
        }),
{
    names::lemma_scheme_names();
    links::lemma_given(url.query, "flow"@);
    lemma_endpoints_stay(url, 443);
}

/// An endpoint that was read from a link is in normal form.
proof fn lemma_endpoints_stay(url: UrlView, usual: u16)
    ensures
        uri::url_endpoint(url, usual) is Ok ==> node::normalized_endpoint(
            uri::url_endpoint(url, usual)->Ok_0,
        ) == Ok::<_, node::NodeError>(uri::url_endpoint(url, usual)->Ok_0),
{
    let port = match url.port {
        Some(p) => p,
        None => usual,
    };
    if url.host is Some {
        lemma_endpoint_stays(url.host->0, port);
    }
}

pub proof fn lemma_endpoint_stays(host: Seq<char>, port: u16)
    ensures
        uri::host_endpoint(host, port) is Ok ==> node::normalized_endpoint(
            uri::host_endpoint(host, port)->Ok_0,
        ) == Ok::<_, node::NodeError>(uri::host_endpoint(host, port)->Ok_0),
{
    if uri::host_endpoint(host, port) is Ok && ip::ip_value(host) is None {
        node::law_endpoint_normalization_is_idempotent(
            EndpointTarget::Domain { host, port },
        );
    }
}

/// A link's password stands before the host; it is decoded, and must be there.
pub proof fn law_passwords_are_decoded(url: UrlView)
    ensures
        ({
            let bytes = uri::percent_decoded(vstd::utf8::encode_utf8(url.username));
            let r = uri::url_password(url);
            &&& r is Ok <==> vstd::utf8::valid_utf8(bytes) && vstd::utf8::decode_utf8(bytes).len()
                > 0
            &&& r is Ok ==> r->Ok_0 == vstd::utf8::decode_utf8(bytes)
            &&& r is Err && vstd::utf8::valid_utf8(bytes) ==> r->Err_0 == ParseError::<
                Seq<char>,
                Seq<char>,
            >::MissingField("password"@)
            &&& !vstd::utf8::valid_utf8(bytes) ==> r is Err && r->Err_0 == ParseError::<
                Seq<char>,
                Seq<char>,
            >::InvalidValue { field: "password"@, value: "invalid UTF-8"@ }
        }),
{
}

/// A Trojan link carries its password before the host; it leads to its host, with the
/// transport and the security of its query.
pub proof fn law_trojan_links(url: UrlView, sub_id: SubId, timestamp: u64, fault: Seq<char>)
    requires
        url.scheme == "trojan"@,
    ensures
        ({
            let r = uri::url_node(url, sub_id, timestamp, fault);
            let n = r->Ok_0;
            &&& r is Ok ==> {
                &&& n.protocol is Trojan
                &&& uri::url_password(url) is Ok && n.protocol->Trojan_0.password
                    == uri::url_password(url)->Ok_0
                &&& goes_to(n.endpoint, url.host->0, port_or_usual(url))
                &&& uri::query_transport(url.query) is Ok && n.transport == uri::query_transport(
                    url.query,
                )->Ok_0
                &&& uri::query_security(url.query) is Ok && n.security == uri::query_security(
                    url.query,
                )->Ok_0
                &&& is_filed(n, sub_id, timestamp, uri::url_label(url, "Trojan Node"@))
            }
            &&& uri::url_password(url) is Ok && uri::url_endpoint(url, 443) is Ok
                && uri::query_transport(url.query) is Ok && uri::query_security(url.query) is Ok
                ==> r is Ok
        }),
{
    names::lemma_scheme_names();
    lemma_endpoints_stay(url, 443);
}

/// A Shadowsocks link holds before the host, in Base64, a method, a colon and a
/// password; the password may hold colons, the method not. Its plug-in is that of the
/// query, up to the first semicolon, with what follows as options. It needs a port.
#[verifier::rlimit(40)]
pub proof fn law_shadowsocks_links(
    url: UrlView,
    sub_id: SubId,
    timestamp: u64,
    fault: Seq<char>,
    plain: Seq<char>,
    at: int,
    plugin: Seq<char>,
    options: Seq<char>,
)
    requires
        url.scheme == "ss"@,
        crate::parser::format::bundle(vstd::utf8::encode_utf8(url.username)) is Ok,
        crate::parser::format::bundle(vstd::utf8::encode_utf8(url.username))->Ok_0 == vstd::utf8::encode_utf8(
            plain,
        ),
        0 <= at < plain.len(),
        plain[at] == ':',
        forall|i: int| 0 <= i < at ==> plain[i] != ':',
        forall|i: int| 0 <= i < plugin.len() ==> plugin[i] != ';',
    ensures
        ({
            let r = uri::url_node(url, sub_id, timestamp, fault);
            let n = r->Ok_0;
            let c = n.protocol->Shadowsocks_0;
            let method = uri::method_of(plain.take(at));
            &&& method is Err ==> r is Err && r->Err_0 == method->Err_0
            &&& r is Ok ==> {
                &&& n.protocol is Shadowsocks
                &&& c.method == method->Ok_0
                &&& c.password == plain.skip(at + 1)
                &&& links::lacks(url.query, "plugin"@) ==> c.plugin is None && c.plugin_opts is None
                &&& links::gives(url.query, "plugin"@, plugin) ==> c.plugin == Some(plugin)
                    && c.plugin_opts is None
                &&& links::gives(url.query, "plugin"@, plugin + seq![';'] + options) ==> c.plugin
                    == Some(plugin) && c.plugin_opts == Some(options)
                &&& url.port is Some && goes_to(n.endpoint, url.host->0, url.port->0)
                &&& n.transport is Tcp && n.security is Plain
                &&& is_filed(n, sub_id, timestamp, uri::url_label(url, "Shadowsocks Node"@))
            }
            &&& method is Ok && uri::url_endpoint(url, 0) is Ok ==> r is Ok
        }),
{
    names::lemma_scheme_names();
    links::law_the_last_pair_counts(url.query, "plugin"@);
    lemma_endpoints_stay(url, 0);
    vstd::utf8::encode_utf8_valid_utf8(plain);
    vstd::utf8::encode_utf8_decode_utf8(plain);
    reveal_strlit(":");
    reveal_strlit(";");
    assert(":"@ =~= seq![':']);
    assert(";"@ =~= seq![';']);
    lemma_split_at(plain, ':', at);
    let s = plugin + seq![';'] + options;
    lemma_split_at(s, ';', plugin.len() as int);
    assert(s.take(plugin.len() as int) =~= plugin);
    assert(s.skip(plugin.len() as int + 1) =~= options);
    lemma_no_split(plugin, ';');
}

proof fn lemma_split_at(s: Seq<char>, c: char, at: int)
    requires
        0 <= at < s.len(),
        s[at] == c,
        forall|i: int| 0 <= i < at ==> s[i] != c,
    ensures
        text::split_once(s, seq![c]) == Some((s.take(at), s.skip(at + 1))),
{
    laws::text::law_splitting_once_takes_the_first_occurrence(s, seq![c]);
    assert(s.subrange(at, at + 1) =~= seq![c]);
    match text::split_once(s, seq![c]) {
        Some((head, tail)) => {
            assert(s[head.len() as int] == c);
            if at < head.len() {
                assert(s.subrange(at, at + seq![c].len()) != seq![c]);
            }
            assert(head.len() == at);
            assert(head =~= s.take(at));
            assert(tail =~= s.skip(at + 1));
        },
        None => {
            assert(s.subrange(at, at + seq![c].len()) != seq![c]);
        },
    }
}

proof fn lemma_no_split(s: Seq<char>, c: char)
    requires
        forall|i: int| 0 <= i < s.len() ==> s[i] != c,
    ensures
        text::split_once(s, seq![c]) is None,
{
    laws::text::law_splitting_once_takes_the_first_occurrence(s, seq![c]);
    if let Some((head, tail)) = text::split_once(s, seq![c]) {
        assert(s[head.len() as int] == c);
    }
}

/// A Hysteria2 link carries its password before the host, and its rates, obfuscation
/// and port range in the query.
#[verifier::rlimit(40)]
pub proof fn law_hysteria2_links(url: UrlView, sub_id: SubId, timestamp: u64, fault: Seq<char>)
    requires
        url.scheme == "hysteria2"@ || url.scheme == "hy2"@,
    ensures
        ({
            let r = uri::url_node(url, sub_id, timestamp, fault);
            let n = r->Ok_0;
            let c = n.protocol->Hysteria2_0;
            &&& r is Ok ==> {
                &&& n.protocol is Hysteria2
                &&& uri::url_password(url) is Ok && c.password == uri::url_password(url)->Ok_0
                &&& c.up_mbps == rate(links::given(url.query, "up"@))
                &&& c.down_mbps == rate(links::given(url.query, "down"@))
                &&& c.port_hopping == links::given(url.query, "mport"@)
                &&& c.obfs is Some <==> links::given(url.query, "obfs"@) is Some
                &&& c.obfs is Some ==> links::given(url.query, "obfs"@) == Some(c.obfs->0.obfs_type)
                &&& c.obfs is Some && links::given(url.query, "obfs-password"@) is Some
                    ==> links::given(url.query, "obfs-password"@) == Some(c.obfs->0.password)
                &&& c.obfs is Some && links::given(url.query, "obfs-password"@) is None
                    ==> c.obfs->0.password.len() == 0
                &&& goes_to(n.endpoint, url.host->0, port_or_usual(url))
                &&& n.transport is Tcp && n.security is Plain
                &&& is_filed(n, sub_id, timestamp, uri::url_label(url, "Hysteria2 Node"@))
            }
            &&& uri::url_password(url) is Ok && uri::url_endpoint(url, 443) is Ok ==> r is Ok
        }),
{
    names::lemma_scheme_names();
    links::lemma_given(url.query, "up"@);
    links::lemma_given(url.query, "down"@);
    links::lemma_given(url.query, "mport"@);
    links::lemma_given(url.query, "obfs"@);
    links::lemma_given(url.query, "obfs-password"@);
    reveal_strlit("");
    lemma_endpoints_stay(url, 443);
}

/// The number that a text denotes, where there is one and it is one.
pub open spec fn rate(s: Option<Seq<char>>) -> Option<u32> {
    if s is Some && text::unsigned_number(s->0, 10, 0xffff_ffff) is Some {
        Some(text::unsigned_number(s->0, 10, 0xffff_ffff)->0 as u32)
    } else {
        None
    }
}

/// A TUIC link names its user and password before the host; its query may ask for
/// another congestion control than CUBIC, for the relay over streams, and for early
/// data.
#[verifier::rlimit(40)]
pub proof fn law_tuic_links(url: UrlView, sub_id: SubId, timestamp: u64, fault: Seq<char>)
    requires
        url.scheme == "tuic"@,
    ensures
        ({
            let r = uri::url_node(url, sub_id, timestamp, fault);
            let n = r->Ok_0;
            let c = n.protocol->Tuic_0;
            let q = url.query;
            &&& uuid::uuid_parsed(url.username) is None ==> r is Err && r->Err_0 == ParseError::<
                Seq<char>,
                Seq<char>,
            >::InvalidUuid(url.username)
            &&& r is Ok ==> {
                &&& n.protocol is Tuic
                &&& Some(c.uuid.0) == uuid::uuid_parsed(url.username)
                &&& url.password is Some ==> c.password == url.password->0
                &&& url.password is None ==> c.password.len() == 0
                &&& c.congestion_control is Bbr <==> links::gives(q, "congestion_control"@, "bbr"@)
                &&& c.congestion_control is NewReno <==> links::gives(
                    q,
                    "congestion_control"@,
                    "new_reno"@,
                )
                &&& c.congestion_control is Cubic <==> links::gives(
                    q,
                    "congestion_control"@,
                    "cubic"@,
                ) || links::lacks(q, "congestion_control"@)
                &&& c.udp_relay_mode is Quic <==> links::gives(q, "udp_relay_mode"@, "quic"@)
                &&& c.udp_relay_mode is Native <==> links::gives(q, "udp_relay_mode"@, "native"@)
                    || links::lacks(q, "udp_relay_mode"@)
                &&& c.zero_rtt_handshake <==> links::gives(q, "zero_rtt_handshake"@, "true"@)
                &&& goes_to(n.endpoint, url.host->0, port_or_usual(url))
                &&& n.transport is Tcp && n.security is Plain
                &&& is_filed(n, sub_id, timestamp, uri::url_label(url, "TUIC Node"@))
            }
            &&& uuid::uuid_parsed(url.username) is Some && uri::url_endpoint(url, 443) is Ok && (
            links::lacks(q, "congestion_control"@) || links::gives(
                q,
                "congestion_control"@,
                "bbr"@,
            ) || links::gives(q, "congestion_control"@, "new_reno"@) || links::gives(
                q,
                "congestion_control"@,
                "cubic"@,
            )) && (links::lacks(q, "udp_relay_mode"@) || links::gives(
                q,
                "udp_relay_mode"@,
                "native"@,
            ) || links::gives(q, "udp_relay_mode"@, "quic"@)) ==> r is Ok
        }),
{
    names::lemma_scheme_names();
    names::lemma_choice_names();
    links::law_the_last_pair_counts(url.query, "congestion_control"@);
    links::law_the_last_pair_counts(url.query, "udp_relay_mode"@);
    links::law_the_last_pair_counts(url.query, "zero_rtt_handshake"@);
    reveal_strlit("");
    lemma_endpoints_stay(url, 443);
}

/// The number that a member of a payload holds, as a number or in digits.
pub open spec fn wire_number(v: WireValue<Seq<char>>) -> Option<nat> {
    match v {
        WireValue::Number(n) => Some(n as nat),
        WireValue::Text(s) => text::unsigned_number(s, 10, 0xffff_ffff_ffff_ffff),
        _ => None,
    }
}

/// A VMess payload names its server, port and user, and may name a cipher, a number of
/// alternatives, a label, a transport and security.
#[verifier::rlimit(40)]
pub proof fn law_vmess_payloads(w: VmessWire<Seq<char>>, sub_id: SubId, timestamp: u64)
    ensures
        ({
            let r = uri::wire_node(w, sub_id, timestamp);
            let n = r->Ok_0;
            let c = n.protocol->Vmess_0;
            &&& r is Ok ==> {
                &&& n.protocol is Vmess
                &&& w.add is Some && w.port is Some && w.id is Some
                &&& wire_number(w.port->0) is Some && wire_number(w.port->0)->0 <= 0xffff
                &&& goes_to(n.endpoint, w.add->0, wire_number(w.port->0)->0 as u16)
                &&& Some(c.uuid.0) == uuid::uuid_parsed(w.id->0)
                &&& w.aid is None ==> c.alter_id == 0
                &&& w.aid is Some ==> wire_number(w.aid->0) == Some(c.alter_id as nat)
                &&& w.scy is None ==> c.cipher is Auto
                &&& w.scy is Some ==> uri::cipher_of("scy"@, text::lower(w.scy->0)) == Ok::<
                    _,
                    ErrorView,
                >(c.cipher)
                &&& w.ps is Some ==> is_filed(n, sub_id, timestamp, w.ps->0)
                &&& w.ps is None ==> is_filed(n, sub_id, timestamp, "VMess Node"@)
                &&& w.net == Some("ws"@) ==> {
                    let t = n.transport->WebSocket_0;
                    &&& n.transport is WebSocket
                    &&& w.path is Some ==> t.path == w.path->0
                    &&& w.path is None ==> t.path == "/"@
                    &&& t.host == w.host
                    &&& t.max_early_data == 0 && t.early_data_header is None
                }
                &&& w.net == Some("grpc"@) ==> {
                    let t = n.transport->Grpc_0;
                    &&& n.transport is Grpc
                    &&& w.path is Some ==> t.service_name == w.path->0
                    &&& w.path is None ==> t.service_name.len() == 0
                    &&& !t.multi_mode
                }
                &&& w.net != Some("ws"@) && w.net != Some("grpc"@) ==> n.transport is Tcp
                &&& w.tls != Some("tls"@) ==> n.security is Plain
                &&& w.tls == Some("tls"@) ==> {
                    let t = n.security->Tls_0;
                    &&& n.security is Tls
                    &&& w.sni is Some ==> t.server_name == w.sni->0
                    &&& w.sni is None ==> t.server_name.len() == 0
                    &&& t.alpn == uri::csv(w.alpn)
                    &&& t.fingerprint == uri::fingerprint(w.fp)
                    &&& !t.allow_insecure
                }
            }
            &&& w.add is None ==> r is Err && r->Err_0 == ParseError::<
                Seq<char>,
                Seq<char>,
            >::MissingField("add"@)
            &&& w.add is Some && (w.port is None || wire_number(w.port->0) is None) ==> r is Err
                && r->Err_0 == ParseError::<Seq<char>, Seq<char>>::MissingField("port"@)
            &&& w.add is Some && w.port is Some && wire_number(w.port->0) is Some && wire_number(
                w.port->0,
            )->0 > 0xffff ==> r is Err && r->Err_0 == ParseError::<
                Seq<char>,
                Seq<char>,
            >::InvalidValue { field: "port"@, value: text::decimal(wire_number(w.port->0)->0) }
        }),
{
    names::lemma_choice_names();
    reveal_strlit("");
    reveal_strlit("auto");
    assert(text::lower("auto"@) =~= "auto"@);
    if uri::wire_node(w, sub_id, timestamp) is Ok {
        lemma_endpoint_stays(w.add->0, wire_number(w.port->0)->0 as u16);
    }
}

/// A VMess link's payload is its host, or its path without the slashes before it; there
/// must be one, in Base64, and it must be a JSON document.
#[verifier::rlimit(40)]
pub proof fn law_vmess_links(
    url: UrlView,
    sub_id: SubId,
    timestamp: u64,
    fault: Seq<char>,
    slashes: Seq<char>,
    payload: Seq<char>,
)
    requires
        url.scheme == "vmess"@,
        forall|i: int| 0 <= i < slashes.len() ==> slashes[i] == '/',
        payload.len() > 0 ==> payload[0] != '/',
        url.host == Some(payload) || (url.host is None && url.path == slashes + payload),
    ensures
        ({
            let r = uri::url_node(url, sub_id, timestamp, fault);
            let bytes = crate::parser::format::bundle(vstd::utf8::encode_utf8(payload));
            let tape = crate::parser::wire::json_tape(bytes->Ok_0);
            let document = crate::parser::wire::vmess_wire(tape->0);
            &&& payload.len() == 0 ==> r is Err && r->Err_0 == ParseError::<
                Seq<char>,
                Seq<char>,
            >::MissingField("vmess payload"@)
            &&& payload.len() > 0 && bytes is Err ==> r is Err && r->Err_0 == ParseError::<
                Seq<char>,
                Seq<char>,
            >::Base64Decode(bytes->Err_0)
            &&& payload.len() > 0 && bytes is Ok && tape is None ==> r is Err && r->Err_0
                == ParseError::<Seq<char>, Seq<char>>::Json(fault)
            &&& payload.len() > 0 && bytes is Ok && tape is Some && document is Err ==> r is Err
                && r->Err_0 == ParseError::<Seq<char>, Seq<char>>::Json(document->Err_0)
            &&& payload.len() > 0 && bytes is Ok && tape is Some && document is Ok ==> r
                == uri::wire_node(document->Ok_0, sub_id, timestamp)
        }),
{
    names::lemma_scheme_names();
    lemma_slashes(slashes, payload);
}

proof fn lemma_slashes(slashes: Seq<char>, s: Seq<char>)
    requires
        forall|i: int| 0 <= i < slashes.len() ==> slashes[i] == '/',
        s.len() > 0 ==> s[0] != '/',
    ensures
        uri::strip_slashes(slashes + s) == s,
    decreases slashes.len(),
{
    if slashes.len() == 0 {
        assert(slashes + s =~= s);
    } else {
        assert((slashes + s).drop_first() =~= slashes.drop_first() + s);
        lemma_slashes(slashes.drop_first(), s);
    }
}

} // verus!
