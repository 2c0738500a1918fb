//! What reading Clash documents promises.
use crate::ir::node::{NodeView, SubId};
use crate::ir::protocol::ProtocolSpec;
use crate::ir::transport::{SecuritySpec, TransportSpec};
use crate::ir::uuid;
use crate::laws::names;
use crate::laws::shares;
use crate::parser::clash;
use crate::parser::error::{ErrorView, ParseError};
use crate::parser::uri;
use crate::parser::yaml;
use crate::parser::yaml::YamlView;
use crate::text;
use vstd::prelude::*;

verus! {

// ---------------------------------------------------------------------------
// Members
// ---------------------------------------------------------------------------

/// The first pair of a mapping with a text as its key counts, whatever its tags; what is
/// no mapping has no members.
pub proof fn law_the_first_pair_counts(
    pairs: Seq<(YamlView, YamlView)>,
    key: Seq<char>,
    i: int,
    other: YamlView,
)
    requires
        !(other is Mapping),
        !(other is Tagged),
    ensures
        0 <= i < pairs.len() && pairs[i].0 == YamlView::Text(key) && (forall|j: int|
            0 <= j < i ==> (#[trigger] pairs[j]).0 != YamlView::Text(key)) ==> yaml::member(
            YamlView::Mapping(pairs),
            key,
        ) == Some(pairs[i].1),
        (forall|j: int| 0 <= j < pairs.len() ==> (#[trigger] pairs[j]).0 != YamlView::Text(key))
            ==> yaml::member(YamlView::Mapping(pairs), key) is None,
        yaml::member(YamlView::Tagged(Box::new(YamlView::Mapping(pairs))), key) == yaml::member(
            YamlView::Mapping(pairs),
            key,
        ),
        yaml::member(other, key) is None,
    decreases pairs.len(),
{
    reveal_with_fuel(yaml::untagged, 2);
    if pairs.len() > 0 {
        let rest = pairs.drop_first();
        law_the_first_pair_counts(rest, key, i - 1, other);
        if 0 < i < pairs.len() {
            assert(rest[i - 1] == pairs[i]);
        }
        if 0 < i < pairs.len() && forall|j: int| 0 <= j < i ==> (#[trigger] pairs[j]).0 != YamlView::Text(key) {
            assert(pairs[0].0 != YamlView::Text(key));
            assert forall|j: int| 0 <= j < i - 1 implies (#[trigger] rest[j]).0 != YamlView::Text(
                key,
            ) by {
                assert(rest[j] == pairs[j + 1]);
            }
        }
        if forall|j: int| 0 <= j < pairs.len() ==> (#[trigger] pairs[j]).0 != YamlView::Text(key) {
            assert(pairs[0].0 != YamlView::Text(key));
            assert forall|j: int| 0 <= j < rest.len() implies (#[trigger] rest[j]).0
                != YamlView::Text(key) by {
                assert(rest[j] == pairs[j + 1]);
            }
        }
    }
}

/// A member is read as the text that it is, as the text of its number or truth value, as
/// a truth value, and as a number also where digits stand in quotation marks.
pub proof fn law_scalars_are_read(item: YamlView, key: Seq<char>)
    ensures
        yaml::text_at(item, key) is Some <==> yaml::member(item, key) is Some,
        yaml::bool_at(item, key) is Some ==> yaml::member(item, key) is Some,
        yaml::member(item, key) is Some ==> (match yaml::member(item, key)->0 {
            YamlView::Text(s) => yaml::text_at(item, key) == Some(s) && yaml::number_of(
                YamlView::Text(s),
            ) is Some == text::unsigned_number(s, 10, 0xffff_ffff_ffff_ffff) is Some && (
            yaml::number_of(YamlView::Text(s)) is Some ==> yaml::number_of(YamlView::Text(s))->0
                == text::unsigned_number(s, 10, 0xffff_ffff_ffff_ffff)->0),
            YamlView::Number { shown, unsigned } => yaml::text_at(item, key) == Some(shown)
                && yaml::number_of(yaml::member(item, key)->0) == unsigned,
            YamlView::Bool(b) => yaml::bool_at(item, key) == Some(b) && yaml::text_at(item, key)
                == Some(
                if b {
                    "true"@
                } else {
                    "false"@
                },
            ),
            YamlView::Null => yaml::text_at(item, key) == Some(""@) && yaml::bool_at(
                item,
                key,
            ) is None,
            _ => yaml::text_at(item, key) == Some(""@),
        }),
{
}

// ---------------------------------------------------------------------------
// Items
// ---------------------------------------------------------------------------

/// The text of a member, or another where it is missing.
pub open spec fn text_or(item: YamlView, key: Seq<char>, other: Seq<char>) -> Seq<char> {
    if yaml::text_at(item, key) is Some {
        yaml::text_at(item, key)->0
    } else {
        other
    }
}

/// The node goes to the item's server and port and is filed under its name.
pub open spec fn is_placed(n: NodeView, item: YamlView, sub_id: SubId, timestamp: u64) -> bool {
    let port = yaml::member(item, "port"@);
    &&& yaml::text_at(item, "server"@) is Some
    &&& port is Some && yaml::number_of(port->0) is Some && 0 < yaml::number_of(port->0)->0
        <= 0xffff
    &&& shares::goes_to(
        n.endpoint,
        yaml::text_at(item, "server"@)->0,
        yaml::number_of(port->0)->0 as u16,
    )
    &&& yaml::text_at(item, "name"@) is Some
    &&& shares::is_filed(n, sub_id, timestamp, yaml::text_at(item, "name"@)->0)
}

/// An item is read by its type; one without a type, and one of a type that is not known,
/// is refused.
#[verifier::rlimit(40)]
pub proof fn law_types_decide(item: YamlView, sub_id: SubId, timestamp: u64)
    ensures
        ({
            let r = clash::item_node(item, sub_id, timestamp);
            let kind = text_or(item, "type"@, ""@);
            &&& r is Ok ==> {
                let p = r->Ok_0.protocol;
                &&& p is Shadowsocks <==> kind == "ss"@
                &&& p is Vmess <==> kind == "vmess"@
                &&& p is Trojan <==> kind == "trojan"@
                &&& p is Vless <==> kind == "vless"@
                &&& p is Hysteria2 <==> kind == "hysteria2"@
                &&& p is Tuic <==> kind == "tuic"@
                &&& is_placed(r->Ok_0, item, sub_id, timestamp)
            }
            &&& kind.len() == 0 ==> r is Err && r->Err_0 == ParseError::<
                Seq<char>,
                Seq<char>,
            >::MissingField("type"@)
            &&& kind.len() > 0 && kind != "ss"@ && kind != "vmess"@ && kind != "trojan"@ && kind
                != "vless"@ && kind != "hysteria2"@ && kind != "tuic"@ ==> r is Err && r->Err_0
                == ParseError::<Seq<char>, Seq<char>>::UnsupportedFormat(
                "Clash proxy type `"@ + kind + "` ("@ + text_or(item, "name"@, "Unnamed Proxy"@)
                    + ") is not supported"@,
            )
        }),
{
    reveal(clash::item_node);
    names::lemma_scheme_names();
    reveal_strlit("");
    assert(text_or(item, "type"@, ""@).len() == 0 ==> text_or(item, "type"@, ""@) =~= ""@);
    names::lemma_choice_names();
    if clash::item_node(item, sub_id, timestamp) is Ok {
        let e = clash::item_endpoint(item)->Ok_0;
        shares::lemma_endpoint_stays(
            yaml::text_at(item, "server"@)->0,
            yaml::number_of(yaml::member(item, "port"@)->0)->0 as u16,
        );
    }
}

/// An item without a server or a port is refused under the member's name, and so is a
/// port that is no number of 16 bits.
pub proof fn law_items_need_a_server(item: YamlView)
    ensures
        ({
            let r = clash::item_endpoint(item);
            let port = yaml::member(item, "port"@);
            &&& yaml::text_at(item, "server"@) is None ==> r is Err && r->Err_0 == ParseError::<
                Seq<char>,
                Seq<char>,
            >::MissingField("server"@)
            &&& yaml::text_at(item, "server"@) is Some && port is None ==> r is Err && r->Err_0
                == ParseError::<Seq<char>, Seq<char>>::MissingField("port"@)
            &&& yaml::text_at(item, "server"@) is Some && port is Some && (yaml::number_of(
                port->0,
            ) is None || yaml::number_of(port->0)->0 > 0xffff) ==> r is Err && r->Err_0
                == ParseError::<Seq<char>, Seq<char>>::InvalidValue {
                field: "port"@,
                value: yaml::shown(port->0),
            }
            &&& r is Ok ==> shares::goes_to(
                r->Ok_0,
                yaml::text_at(item, "server"@)->0,
                yaml::number_of(port->0)->0 as u16,
            )
        }),
        yaml::text_at(item, "name"@) is None ==> clash::item_label(item) is Err
            && clash::item_label(item)->Err_0 == ParseError::<
            Seq<char>,
            Seq<char>,
        >::MissingField("name"@),
{
}

/// The transport options' path: under `path`, or else under `serviceName`.
pub open spec fn path_or(item: YamlView, other: Seq<char>) -> Seq<char> {
    let options = yaml::member(item, "ws-opts"@);
    if options is Some && yaml::member(options->0, "path"@) is Some {
        yaml::shown(yaml::member(options->0, "path"@)->0)
    } else if options is Some && yaml::member(options->0, "serviceName"@) is Some {
        yaml::shown(yaml::member(options->0, "serviceName"@)->0)
    } else {
        other
    }
}

/// The host among the headers of the transport options.
pub open spec fn header_host(item: YamlView) -> Option<Seq<char>> {
    let options = yaml::member(item, "ws-opts"@);
    if options is Some && yaml::member(options->0, "headers"@) is Some && yaml::member(
        yaml::member(options->0, "headers"@)->0,
        "Host"@,
    ) is Some {
        Some(
            yaml::shown(
                yaml::member(yaml::member(options->0, "headers"@)->0, "Host"@)->0,
            ),
        )
    } else {
        None
    }
}

/// An item carries its traffic as `network` says, plainly where that is missing or
/// empty; what it cannot carry traffic over is refused by name.
pub proof fn law_items_say_how_to_carry_traffic(item: YamlView)
    ensures
        ({
            let r = clash::item_transport(item);
            let t = r->Ok_0;
            let network = text_or(item, "network"@, "tcp"@);
            &&& network == "tcp"@ || network.len() == 0 ==> r is Ok && t is Tcp
            &&& network == "ws"@ ==> {
                &&& r is Ok && t is WebSocket
                &&& t->WebSocket_0.path == path_or(item, "/"@)
                &&& t->WebSocket_0.host == header_host(item)
                &&& t->WebSocket_0.max_early_data == 0
                &&& t->WebSocket_0.early_data_header is None
            }
            &&& network == "grpc"@ ==> {
                &&& r is Ok && t is Grpc
                &&& t->Grpc_0.service_name == path_or(item, ""@)
                &&& !t->Grpc_0.multi_mode
            }
            &&& network == "httpupgrade"@ ==> {
                &&& r is Ok && t is HttpUpgrade
                &&& t->HttpUpgrade_0.path == path_or(item, "/"@)
                &&& t->HttpUpgrade_0.host == header_host(item)
            }
            &&& network.len() > 0 && network != "tcp"@ && network != "ws"@ && network != "grpc"@
                && network != "httpupgrade"@ ==> r is Err && r->Err_0 == ParseError::<
                Seq<char>,
                Seq<char>,
            >::InvalidValue { field: "network"@, value: network }
        }),
{
    names::lemma_choice_names();
    reveal_strlit("");
    reveal_strlit("httpupgrade");
    assert("httpupgrade"@.len() == 11);
    reveal_strlit("tcp");
    reveal_strlit("ws");
    reveal_strlit("grpc");
    assert(text_or(item, "network"@, "tcp"@).len() == 0 ==> text_or(item, "network"@, "tcp"@)
        =~= ""@);
}

/// The text of the first of two members that is there, or nothing.
pub open spec fn either(item: YamlView, first: Seq<char>, second: Seq<char>) -> Seq<char> {
    if yaml::text_at(item, first) is Some {
        yaml::text_at(item, first)->0
    } else if yaml::text_at(item, second) is Some {
        yaml::text_at(item, second)->0
    } else {
        Seq::empty()
    }
}

/// An item with `reality-opts` needs a public key in them; the server's name is that of
/// the item, or else its server. Without them TLS is on where `tls` says so, or says
/// nothing and the kind has it on, and wherever the server has a name.
pub proof fn law_items_say_how_to_secure_traffic(item: YamlView, usual: bool)
    ensures
        ({
            let r = clash::item_security(item, usual);
            let options = yaml::member(item, "reality-opts"@);
            let name = either(item, "servername"@, "sni"@);
            let key = either(options->0, "public-key"@, "public_key"@);
            let tls = yaml::bool_at(item, "tls"@);
            let on = (tls is Some && tls->0) || (tls is None && usual) || name.len() > 0;
            &&& options is Some && yaml::text_at(options->0, "public-key"@) is None
                && yaml::text_at(options->0, "public_key"@) is None ==> r is Err && r->Err_0
                == ParseError::<Seq<char>, Seq<char>>::MissingField("public-key"@)
            &&& options is Some && (yaml::text_at(options->0, "public-key"@) is Some
                || yaml::text_at(options->0, "public_key"@) is Some) ==> {
                let c = r->Ok_0->Reality_0;
                &&& r is Ok && r->Ok_0 is Reality
                &&& c.public_key == key
                &&& name.len() > 0 ==> c.server_name == name
                &&& name.len() == 0 && yaml::text_at(item, "server"@) is Some ==> c.server_name
                    == yaml::text_at(item, "server"@)->0
                &&& c.short_id == either(options->0, "short-id"@, "short_id"@)
                &&& c.spider_x is Some ==> c.spider_x->0 == either(
                    options->0,
                    "spider-x"@,
                    "spider_x"@,
                )
                &&& c.spider_x is None ==> yaml::text_at(options->0, "spider-x"@) is None
                    && yaml::text_at(options->0, "spider_x"@) is None
                &&& c.fingerprint == uri::fingerprint(yaml::text_at(item, "client-fingerprint"@))
            }
            &&& options is None && on ==> {
                let c = r->Ok_0->Tls_0;
                &&& r is Ok && r->Ok_0 is Tls
                &&& c.server_name == name
                &&& yaml::member(item, "alpn"@) is None ==> c.alpn.len() == 0
                &&& yaml::member(item, "alpn"@) is Some ==> c.alpn == yaml::sequence_texts(
                    yaml::member(item, "alpn"@)->0,
                )
                &&& c.fingerprint == uri::fingerprint(yaml::text_at(item, "client-fingerprint"@))
                &&& c.allow_insecure <==> yaml::bool_at(item, "allow-insecure"@) == Some(true)
            }
            &&& options is None && !on ==> r is Ok && r->Ok_0 is Plain
        }),
{
    reveal_strlit("");
    assert(""@ =~= Seq::<char>::empty());
}

/// A VMess item is secured exactly if `tls` says so; the server's name is under
/// `servername` alone.
pub proof fn law_vmess_items_are_secured_on_demand(item: YamlView)
    ensures
        ({
            let s = clash::item_vmess_security(item);
            let c = s->Tls_0;
            &&& yaml::bool_at(item, "tls"@) != Some(true) ==> s is Plain
            &&& yaml::bool_at(item, "tls"@) == Some(true) ==> {
                &&& s is Tls
                &&& c.server_name == text_or(item, "servername"@, ""@)
                &&& yaml::member(item, "alpn"@) is None ==> c.alpn.len() == 0
                &&& yaml::member(item, "alpn"@) is Some ==> c.alpn == yaml::sequence_texts(
                    yaml::member(item, "alpn"@)->0,
                )
                &&& c.fingerprint == uri::fingerprint(yaml::text_at(item, "client-fingerprint"@))
                &&& c.allow_insecure <==> yaml::bool_at(item, "allow-insecure"@) == Some(true)
            }
        }),
{
}

/// A Shadowsocks item carries the method of `cipher` and the password; it has no
/// plug-in.
pub proof fn law_shadowsocks_items(item: YamlView, sub_id: SubId, timestamp: u64)
    requires
        yaml::text_at(item, "type"@) == Some("ss"@),
        clash::item_node(item, sub_id, timestamp) is Ok,
    ensures
        ({
            let n = clash::item_node(item, sub_id, timestamp)->Ok_0;
            let c = n.protocol->Shadowsocks_0;
            &&& uri::method_of(text_or(item, "cipher"@, ""@)) == Ok::<_, ErrorView>(c.method)
            &&& c.password == text_or(item, "password"@, ""@)
            &&& c.plugin is None && c.plugin_opts is None
            &&& n.transport is Tcp && n.security is Plain
        }),
{
    reveal(clash::item_node);
    names::lemma_scheme_names();
}

/// A VMess item carries the user of `uuid`, the cipher and the number of alternatives.
#[verifier::rlimit(40)]
pub proof fn law_vmess_items(item: YamlView, sub_id: SubId, timestamp: u64)
    requires
        yaml::text_at(item, "type"@) == Some("vmess"@),
        clash::item_node(item, sub_id, timestamp) is Ok,
    ensures
        ({
            let n = clash::item_node(item, sub_id, timestamp)->Ok_0;
            let c = n.protocol->Vmess_0;
            let aid = yaml::member(item, "alterId"@);
            &&& Some(c.uuid.0) == uuid::uuid_parsed(text_or(item, "uuid"@, ""@))
            &&& uri::cipher_of("cipher"@, text_or(item, "cipher"@, "auto"@)) == Ok::<_, ErrorView>(
                c.cipher,
            )
            &&& aid is None ==> c.alter_id == 0
            &&& aid is Some ==> yaml::number_of(aid->0) == Some(c.alter_id as u64)
            &&& clash::item_transport(item) == Ok::<_, ErrorView>(n.transport)
            &&& n.security == clash::item_vmess_security(item)
        }),
{
    reveal(clash::item_node);
    names::lemma_scheme_names();
}

/// A Trojan item carries a password that is not empty, and is secured unless it says
/// otherwise.
#[verifier::rlimit(40)]
pub proof fn law_trojan_items(item: YamlView, sub_id: SubId, timestamp: u64)
    requires
        yaml::text_at(item, "type"@) == Some("trojan"@),
    ensures
        ({
            let r = clash::item_node(item, sub_id, timestamp);
            let n = r->Ok_0;
            &&& text_or(item, "password"@, ""@).len() == 0 ==> r is Err && r->Err_0 == ParseError::<
                Seq<char>,
                Seq<char>,
            >::MissingField("password"@)
            &&& r is Ok ==> {
                &&& yaml::text_at(item, "password"@) == Some(n.protocol->Trojan_0.password)
                &&& clash::item_transport(item) == Ok::<_, ErrorView>(n.transport)
                &&& clash::item_security(item, true) == Ok::<_, ErrorView>(n.security)
            }
        }),
{
    reveal(clash::item_node);
    names::lemma_scheme_names();
    reveal_strlit("");
}

/// A VLESS item carries the user of `uuid` and the flow, and is secured only where it
/// says so.
pub proof fn law_vless_items(item: YamlView, sub_id: SubId, timestamp: u64)
    requires
        yaml::text_at(item, "type"@) == Some("vless"@),
        clash::item_node(item, sub_id, timestamp) is Ok,
    ensures
        ({
            let n = clash::item_node(item, sub_id, timestamp)->Ok_0;
            let c = n.protocol->Vless_0;
            &&& Some(c.uuid.0) == uuid::uuid_parsed(text_or(item, "uuid"@, ""@))
            &&& uri::flow_of(yaml::text_at(item, "flow"@)) == Ok::<_, ErrorView>(c.flow)
            &&& clash::item_transport(item) == Ok::<_, ErrorView>(n.transport)
            &&& clash::item_security(item, false) == Ok::<_, ErrorView>(n.security)
        }),
{
    reveal(clash::item_node);
    names::lemma_scheme_names();
}

/// A number of 32 bits in a member, where there is one.
pub open spec fn number_at(item: YamlView, key: Seq<char>) -> Option<u32> {
    let v = yaml::member(item, key);
    if v is Some && yaml::number_of(v->0) is Some && yaml::number_of(v->0)->0 <= 0xffff_ffff {
        Some(yaml::number_of(v->0)->0 as u32)
    } else {
        None
    }
}

/// A Hysteria2 item carries a password that is not empty, and its rates, obfuscation and
/// port range.
pub proof fn law_hysteria2_items(item: YamlView, sub_id: SubId, timestamp: u64)
    requires
        yaml::text_at(item, "type"@) == Some("hysteria2"@),
    ensures
        ({
            let r = clash::item_node(item, sub_id, timestamp);
            let n = r->Ok_0;
            let c = n.protocol->Hysteria2_0;
            &&& text_or(item, "password"@, ""@).len() == 0 ==> r is Err && r->Err_0 == ParseError::<
                Seq<char>,
                Seq<char>,
            >::MissingField("password"@)
            &&& r is Ok ==> {
                &&& yaml::text_at(item, "password"@) == Some(c.password)
                &&& c.up_mbps == number_at(item, "up"@)
                &&& c.down_mbps == number_at(item, "down"@)
                &&& c.port_hopping == yaml::text_at(item, "ports"@)
                &&& c.obfs is None ==> yaml::text_at(item, "obfs"@) is None
                &&& c.obfs is Some ==> yaml::text_at(item, "obfs"@) == Some(c.obfs->0.obfs_type)
                    && c.obfs->0.password == text_or(item, "obfs-password"@, ""@)
                &&& n.transport is Tcp && n.security is Plain
            }
        }),
{
    reveal(clash::item_node);
    names::lemma_scheme_names();
    reveal_strlit("");
}

/// A TUIC item carries the user of `uuid`, the password, the congestion control, the
/// relay mode and whether it sends early data.
pub proof fn law_tuic_items(item: YamlView, sub_id: SubId, timestamp: u64)
    requires
        yaml::text_at(item, "type"@) == Some("tuic"@),
        clash::item_node(item, sub_id, timestamp) is Ok,
    ensures
        ({
            let n = clash::item_node(item, sub_id, timestamp)->Ok_0;
            let c = n.protocol->Tuic_0;
            &&& Some(c.uuid.0) == uuid::uuid_parsed(text_or(item, "uuid"@, ""@))
            &&& c.password == text_or(item, "password"@, ""@)
            &&& uri::congestion_of(
                "congestion-controller"@,
                text_or(item, "congestion-controller"@, "cubic"@),
            ) == Ok::<_, ErrorView>(c.congestion_control)
            &&& uri::relay_of("udp-relay-mode"@, text_or(item, "udp-relay-mode"@, "native"@))
                == Ok::<_, ErrorView>(c.udp_relay_mode)
            &&& c.zero_rtt_handshake <==> yaml::bool_at(item, "zero-rtt-handshake"@) == Some(true)
            &&& n.transport is Tcp && n.security is Plain
        }),
{
    reveal(clash::item_node);
    names::lemma_scheme_names();
}

/// A document gives one outcome for each item under `proxies`, in order; without such a
/// list it is refused.
pub proof fn law_documents_list_proxies(document: YamlView, sub_id: SubId, timestamp: u64)
    ensures
        ({
            let r = clash::document_nodes(document, sub_id, timestamp);
            let list = yaml::member(document, "proxies"@);
            &&& list is Some && list->0 is Sequence ==> {
                let items = list->0->Sequence_0;
                &&& r is Ok && r->Ok_0.len() == items.len()
                &&& forall|i: int|
                    0 <= i < items.len() ==> #[trigger] r->Ok_0[i] == clash::item_node(
                        items[i],
                        sub_id,
                        timestamp,
                    )
            }
            &&& list is None ==> r is Err && r->Err_0 == ParseError::<
                Seq<char>,
                Seq<char>,
            >::MissingField("proxies"@)
            &&& list is Some && !(list->0 is Sequence) && !(list->0 is Tagged) ==> r is Err
                && r->Err_0 == ParseError::<Seq<char>, Seq<char>>::MissingField("proxies"@)
        }),
{
}

/// The texts among the items of a list are taken in order, and nothing else is.
pub proof fn law_lists_of_texts_are_taken(items: Seq<YamlView>)
    requires
        forall|i: int| 0 <= i < items.len() ==> !((#[trigger] items[i]) is Tagged),
    ensures
        yaml::sequence_texts(YamlView::Sequence(items)) == items.filter(
            |y: YamlView| y is Text,
        ).map_values(|y: YamlView| y->Text_0),
    decreases items.len(),
{
    reveal(Seq::filter);
    let keep = |y: YamlView| y is Text;
    let take = |y: YamlView| y->Text_0;
    if items.len() == 0 {
        assert(items.filter(keep).map_values(take) =~= Seq::empty());
    } else {
        let rest = items.drop_last();
        assert forall|i: int| 0 <= i < rest.len() implies !((#[trigger] rest[i]) is Tagged) by {
            assert(rest[i] == items[i]);
        }
        law_lists_of_texts_are_taken(rest);
        let last = items.last();
        assert(!(items[items.len() - 1] is Tagged));
        if keep(last) {
            assert(rest.filter(keep).push(last).map_values(take) =~= rest.filter(keep).map_values(
                take,
            ).push(last->Text_0));
        }
    }
}

} // verus!
