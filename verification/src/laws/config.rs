//! What complete configurations promise.
use crate::adapter::config;
use crate::adapter::config::{DnsProvider, LocalDns};
use crate::adapter::outbound;
use crate::ip;
use crate::ir::adapter::CoreCapability;
use crate::ir::node::NodeView;
use crate::json;
use crate::json::JsonView;
use crate::laws;
use crate::laws::names;
use crate::text;
use vstd::prelude::*;

verus! {

/// The member is a list of the given length.
pub open spec fn lists(o: JsonView, name: Seq<char>, n: nat) -> bool {
    json::member(o, name) is Some && json::member(o, name)->0 is List && json::member(
        o,
        name,
    )->0->List_0.len() == n
}

pub open spec fn item(o: JsonView, name: Seq<char>, i: int) -> JsonView {
    json::member(o, name)->0->List_0[i]
}

/// A configuration can be made exactly if the node's outbound can. It takes what the
/// kernel hands over on the port, on every address; it has the direct outbound and the
/// node's; it sends everything to the node, with the mark on its own packets.
#[verifier::rlimit(40)]
pub proof fn law_configurations_send_everything_to_the_node(
    n: NodeView,
    port: u16,
    mark: u32,
    provider: DnsProvider,
    local: Option<LocalDns>,
)
    ensures
        ({
            let r = config::full_config(n, port, mark, provider, local);
            let c = r->Ok_0;
            let inbound = item(c, "inbounds"@, 0);
            let route = laws::outbound::within(c, "route"@);
            &&& r is Ok <==> outbound::outbound_json(n) is Ok
            &&& r is Err ==> r->Err_0 == outbound::outbound_json(n)->Err_0
            &&& r is Ok ==> {
                &&& lists(c, "inbounds"@, 1)
                &&& laws::outbound::says(inbound, "type"@, "tproxy"@) && laws::outbound::says(inbound, "tag"@, "tproxy-in"@)
                &&& laws::outbound::says(inbound, "listen"@, "::"@) && laws::outbound::counts(inbound, "listen_port"@, port as int)
                &&& lists(c, "outbounds"@, 2)
                &&& laws::outbound::says(item(c, "outbounds"@, 0), "type"@, "direct"@)
                &&& laws::outbound::says(item(c, "outbounds"@, 0), "tag"@, "direct"@)
                &&& item(c, "outbounds"@, 1) == outbound::outbound_json(n)->Ok_0
                &&& laws::outbound::nests(c, "route"@) && laws::outbound::counts(route, "default_mark"@, mark as int)
                &&& laws::outbound::tells(route, "auto_detect_interface"@, true)
                &&& lists(route, "rules"@, 2)
                &&& laws::outbound::says(item(route, "rules"@, 0), "action"@, "sniff"@)
                &&& laws::outbound::tells(item(route, "rules"@, 0), "override_destination"@, true)
                &&& laws::outbound::says(item(route, "rules"@, 1), "action"@, "route"@)
                &&& laws::outbound::says(item(route, "rules"@, 1), "outbound"@, n.meta.label)
                &&& laws::outbound::nests(c, "log"@) && laws::outbound::says(laws::outbound::within(c, "log"@), "level"@, "info"@)
                &&& laws::outbound::tells(laws::outbound::within(c, "log"@), "timestamp"@, true)
            }
        }),
{
    names::lemma_config_names();
    laws::outbound::law_outbounds_lead_to_the_endpoint(n);
}

/// Names are looked up through the node, at the provider; what is not sent through it is
/// looked up at the local resolver, where there is one.
#[verifier::rlimit(40)]
pub proof fn law_names_are_looked_up_through_the_node(
    n: NodeView,
    port: u16,
    mark: u32,
    provider: DnsProvider,
    local: Option<LocalDns>,
)
    requires
        config::full_config(n, port, mark, provider, local) is Ok,
    ensures
        ({
            let c = config::full_config(n, port, mark, provider, local)->Ok_0;
            let d = laws::outbound::within(c, "dns"@);
            let tunnel = item(d, "servers"@, 0);
            let second = item(d, "servers"@, 1);
            let first_rule = item(d, "rules"@, 0);
            &&& laws::outbound::nests(c, "dns"@)
            &&& laws::outbound::says(d, "strategy"@, "ipv4_only"@) && laws::outbound::tells(d, "independent_cache"@, false)
            &&& laws::outbound::says(tunnel, "type"@, "https"@) && laws::outbound::says(tunnel, "tag"@, "tunnel-dns"@)
            &&& laws::outbound::says(tunnel, "detour"@, n.meta.label)
            &&& match provider {
                DnsProvider::Cloudflare => laws::outbound::says(tunnel, "server"@, "1.1.1.1"@),
                DnsProvider::Quad9 => laws::outbound::says(tunnel, "server"@, "dns.quad9.net"@),
                DnsProvider::Google => laws::outbound::says(tunnel, "server"@, "dns.google"@),
                DnsProvider::AdGuard => laws::outbound::says(tunnel, "server"@, "dns.adguard-dns.com"@),
                DnsProvider::Custom(host) => laws::outbound::says(tunnel, "server"@, host@),
            }
            &&& local is None ==> {
                &&& lists(d, "servers"@, 1) && lists(d, "rules"@, 1)
                &&& laws::outbound::says(first_rule, "server"@, "tunnel-dns"@) && laws::outbound::omits(first_rule, "outbound"@)
            }
            &&& local is Some ==> {
                &&& lists(d, "servers"@, 2) && lists(d, "rules"@, 2)
                &&& laws::outbound::says(second, "type"@, "udp"@) && laws::outbound::says(second, "tag"@, "local-dns"@)
                &&& laws::outbound::says(second, "server"@, ip::ipv4_text(local->0.ipv4@))
                &&& laws::outbound::counts(second, "server_port"@, local->0.port as int)
                &&& laws::outbound::says(second, "detour"@, "direct"@)
                &&& lists(first_rule, "outbound"@, 1) && item(first_rule, "outbound"@, 0)
                    == JsonView::Text("direct"@)
                &&& laws::outbound::says(first_rule, "server"@, "local-dns"@)
                &&& laws::outbound::says(item(d, "rules"@, 1), "server"@, "tunnel-dns"@)
                &&& laws::outbound::omits(item(d, "rules"@, 1), "outbound"@)
            }
        }),
{
    names::lemma_config_names();
    laws::outbound::law_outbounds_lead_to_the_endpoint(n);
}

/// A line that names another destination than the default route.
pub open spec fn is_other_route(line: Seq<char>) -> bool {
    text::words(line).len() >= 2 && text::words(line)[1] != "00000000"@
}

/// The default gateway is that of the first default route below the heading: the third
/// word, in hexadecimal with the last octet first. Lines before it that are about other
/// destinations do not matter.
pub proof fn law_the_default_route_names_the_gateway(
    contents: Seq<char>,
    i: int,
    v: nat,
)
    requires
        1 <= i < text::lines(contents).len(),
        forall|j: int| 1 <= j < i ==> is_other_route(#[trigger] text::lines(contents)[j]),
        text::words(text::lines(contents)[i]).len() >= 3,
        text::words(text::lines(contents)[i])[1] == "00000000"@,
        text::unsigned_number(
            text::words(text::lines(contents)[i])[2],
            16,
            0xffff_ffff,
        ) == Some(v),
    ensures
        ({
            let r = config::route_table_gateway(contents);
            &&& r is Some
            &&& r->0[0] + 0x100 * r->0[1] + 0x1_0000 * r->0[2] + 0x100_0000 * r->0[3] == v
        }),
{
    let lines = text::lines(contents);
    lemma_gateway(lines.drop_first(), i - 1);
    lemma_octets(v);
}

proof fn lemma_octets(v: nat)
    requires
        v <= 0xffff_ffff,
    ensures
        v % 256 + 256 * (v / 256 % 256) + 65536 * (v / 65536 % 256) + 16777216 * (v / 16777216
            % 256) == v,
        v / 16777216 < 256,
{
    assert(v / 65536 == v / 256 / 256);
    assert(v / 16777216 == v / 256 / 256 / 256);
}

proof fn lemma_gateway(lines: Seq<Seq<char>>, i: int)
    requires
        0 <= i < lines.len(),
        forall|j: int| 0 <= j < i ==> is_other_route(#[trigger] lines[j]),
        config::gateway_of_line(lines[i]) is Some,
    ensures
        config::first_gateway(lines) == config::gateway_of_line(lines[i])->0,
    decreases lines.len(),
{
    if i > 0 {
        assert(is_other_route(lines[0]));
        let rest = lines.drop_first();
        assert forall|j: int| 0 <= j < i - 1 implies is_other_route(#[trigger] rest[j]) by {
            assert(rest[j] == lines[j + 1]);
        }
        assert(rest[i - 1] == lines[i]);
        lemma_gateway(rest, i - 1);
    }
}

/// A routing table without a default route names no gateway.
pub proof fn law_without_default_route_there_is_no_gateway(contents: Seq<char>)
    requires
        forall|j: int|
            1 <= j < text::lines(contents).len() ==> is_other_route(
                #[trigger] text::lines(contents)[j],
            ),
    ensures
        config::route_table_gateway(contents) is None,
{
    let lines = text::lines(contents);
    if lines.len() > 0 {
        let rest = lines.drop_first();
        assert forall|j: int| 0 <= j < rest.len() implies is_other_route(#[trigger] rest[j]) by {
            assert(rest[j] == lines[j + 1]);
        }
        lemma_no_gateway(rest);
    }
}

proof fn lemma_no_gateway(lines: Seq<Seq<char>>)
    requires
        forall|j: int| 0 <= j < lines.len() ==> is_other_route(#[trigger] lines[j]),
    ensures
        config::first_gateway(lines) is None,
    decreases lines.len(),
{
    if lines.len() > 0 {
        assert(is_other_route(lines[0]));
        let rest = lines.drop_first();
        assert forall|j: int| 0 <= j < rest.len() implies is_other_route(#[trigger] rest[j]) by {
            assert(rest[j] == lines[j + 1]);
        }
        lemma_no_gateway(rest);
    }
}

/// The core has every capability there is, each listed once, and its version is the
/// first line of what it says of itself.
pub proof fn law_the_core_can_do_everything(c: CoreCapability, output: Seq<char>)
    ensures
        config::singbox_capabilities().contains(c),
        config::singbox_capabilities().no_duplicates(),
        text::lines(output).len() > 0 ==> config::version_line(output) == text::lines(output)[0],
        text::lines(output).len() == 0 ==> config::version_line(output) == "unknown"@,
{
    let all = config::singbox_capabilities();
    match c {
        CoreCapability::Vless => assert(all[0] == c),
        CoreCapability::VlessReality => assert(all[1] == c),
        CoreCapability::Vmess => assert(all[2] == c),
        CoreCapability::Trojan => assert(all[3] == c),
        CoreCapability::Shadowsocks => assert(all[4] == c),
        CoreCapability::Hysteria2 => assert(all[5] == c),
        CoreCapability::Tuic => assert(all[6] == c),
        CoreCapability::WireGuard => assert(all[7] == c),
        CoreCapability::WebSocket => assert(all[8] == c),
        CoreCapability::Grpc => assert(all[9] == c),
        CoreCapability::HttpUpgrade => assert(all[10] == c),
        CoreCapability::XHttp => assert(all[11] == c),
        CoreCapability::Multiplexing => assert(all[12] == c),
    }
}

} // verus!
