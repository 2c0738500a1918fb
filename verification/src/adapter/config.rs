//! Complete configurations around an outbound.
use crate::adapter::outbound;
use crate::adapter::outbound::{compile_outbound, AdapterError};
use crate::ip;
use crate::ip::IpAddr;
use crate::ir::adapter::{CoreAdapter, CoreCapabilities, CoreCapability};
use crate::ir::node::{CanonicalNode, NodeView};
use crate::json;
use crate::json::{Json, JsonObject, JsonView};
use crate::text;
use vstd::prelude::*;
use vstd::string::*;

verus! {

/// DoH resolver used by the tunneled DNS section. The resolver is dialed through
/// the node's outbound, so only the node's egress network has to serve it.
#[derive(Clone, Copy, Debug, PartialEq, Eq, Hash)]
pub enum DnsProvider {
    Cloudflare,
    Quad9,
    Google,
    AdGuard,
    Custom(&'static str),
}

impl Default for DnsProvider {
    fn default() -> (r: DnsProvider)
        ensures
            r == DnsProvider::Cloudflare,
    {
        DnsProvider::Cloudflare
    }
}

impl DnsProvider {
    pub open spec fn host(self) -> Seq<char> {
        match self {
            DnsProvider::Cloudflare => "1.1.1.1"@,
            DnsProvider::Quad9 => "dns.quad9.net"@,
            DnsProvider::Google => "dns.google"@,
            DnsProvider::AdGuard => "dns.adguard-dns.com"@,
            DnsProvider::Custom(host) => host@,
        }
    }

    /// The host that serves DNS over HTTPS.
    pub fn server(self) -> (r: &'static str)
        ensures
            r@ == self.host(),
    {
        match self {
            DnsProvider::Cloudflare => "1.1.1.1",
            DnsProvider::Quad9 => "dns.quad9.net",
            DnsProvider::Google => "dns.google",
            DnsProvider::AdGuard => "dns.adguard-dns.com",
            DnsProvider::Custom(host) => host,
        }
    }
}

/// A resolver on the local network for traffic that the tunnel does not carry.
#[derive(Clone, Copy, Debug, PartialEq, Eq)]
pub struct LocalDns {
    pub ipv4: [u8; 4],
    pub port: u16,
}

impl LocalDns {
    pub fn new(ipv4: [u8; 4], port: u16) -> (r: LocalDns)
        ensures
            r == (LocalDns { ipv4, port }),
    {
        LocalDns { ipv4, port }
    }
}

// ---------------------------------------------------------------------------
// Model
// ---------------------------------------------------------------------------

pub open spec fn object1(a: Seq<char>, x: JsonView) -> JsonView {
    JsonView::Object(Map::empty().insert(a, x))
}

pub open spec fn object2(a: Seq<char>, x: JsonView, b: Seq<char>, y: JsonView) -> JsonView {
    JsonView::Object(Map::empty().insert(a, x).insert(b, y))
}

/// A transparent proxy inbound.
pub open spec fn tproxy_inbound(listen: Seq<char>, port: u16) -> JsonView {
    JsonView::Object(
        Map::empty().insert("type"@, JsonView::Text("tproxy"@)).insert(
            "tag"@,
            JsonView::Text("tproxy-in"@),
        ).insert("listen"@, JsonView::Text(listen)).insert(
            "listen_port"@,
            JsonView::Number(port as u64),
        ),
    )
}

/// Routes every connection to one outbound after sniffing.
pub open spec fn routing(tag: Seq<char>, mark: u32, auto_detect_interface: bool) -> JsonView {
    JsonView::Object(
        Map::empty().insert("auto_detect_interface"@, JsonView::Bool(auto_detect_interface)).insert(
            "default_mark"@,
            JsonView::Number(mark as u64),
        ).insert(
            "rules"@,
            JsonView::List(
                seq![
                    object2(
                        "action"@,
                        JsonView::Text("sniff"@),
                        "override_destination"@,
                        JsonView::Bool(true),
                    ),
                    object2("action"@, JsonView::Text("route"@), "outbound"@, JsonView::Text(tag)),
                ],
            ),
        ),
    )
}

pub open spec fn tunnel_server(tag: Seq<char>, provider: DnsProvider) -> JsonView {
    JsonView::Object(
        Map::empty().insert("type"@, JsonView::Text("https"@)).insert(
            "tag"@,
            JsonView::Text("tunnel-dns"@),
        ).insert("server"@, JsonView::Text(provider.host())).insert("detour"@, JsonView::Text(tag)),
    )
}

pub open spec fn local_server(local: LocalDns) -> JsonView {
    JsonView::Object(
        Map::empty().insert("type"@, JsonView::Text("udp"@)).insert(
            "tag"@,
            JsonView::Text("local-dns"@),
        ).insert("server"@, JsonView::Text(ip::ipv4_text(local.ipv4@))).insert(
            "server_port"@,
            JsonView::Number(local.port as u64),
        ).insert("detour"@, JsonView::Text("direct"@)),
    )
}

pub open spec fn direct_rule() -> JsonView {
    object2(
        "outbound"@,
        JsonView::List(seq![JsonView::Text("direct"@)]),
        "server"@,
        JsonView::Text("local-dns"@),
    )
}

pub open spec fn tunnel_rule() -> JsonView {
    object1("server"@, JsonView::Text("tunnel-dns"@))
}

/// The DNS section: queries go through the tunnel; where a local resolver is
/// given it serves what is routed directly.
pub open spec fn dns(tag: Seq<char>, provider: DnsProvider, local: Option<LocalDns>) -> JsonView {
    let (servers, rules) = match local {
        None => (seq![tunnel_server(tag, provider)], seq![tunnel_rule()]),
        Some(l) => (
            seq![tunnel_server(tag, provider), local_server(l)],
            seq![direct_rule(), tunnel_rule()],
        ),
    };
    JsonView::Object(
        Map::empty().insert("servers"@, JsonView::List(servers)).insert(
            "rules"@,
            JsonView::List(rules),
        ).insert("strategy"@, JsonView::Text("ipv4_only"@)).insert(
            "independent_cache"@,
            JsonView::Bool(false),
        ),
    )
}

/// The tag of an outbound.
pub open spec fn tag_of(outbound: JsonView) -> Seq<char> {
    match json::member(outbound, "tag"@) {
        Some(JsonView::Text(tag)) => tag,
        _ => "proxy"@,
    }
}

pub open spec fn direct_outbound() -> JsonView {
    object2("type"@, JsonView::Text("direct"@), "tag"@, JsonView::Text("direct"@))
}

/// A complete configuration.
pub open spec fn full_config(
    n: NodeView,
    tproxy_port: u16,
    mark: u32,
    provider: DnsProvider,
    local: Option<LocalDns>,
) -> Result<JsonView, AdapterError<Seq<char>>> {
    match outbound::outbound_json(n) {
        Err(e) => Err(e),
        Ok(o) => Ok(
            JsonView::Object(
                Map::empty().insert(
                    "log"@,
                    object2(
                        "level"@,
                        JsonView::Text("info"@),
                        "timestamp"@,
                        JsonView::Bool(true),
                    ),
                ).insert(
                    "inbounds"@,
                    JsonView::List(seq![tproxy_inbound("::"@, tproxy_port)]),
                ).insert("outbounds"@, JsonView::List(seq![direct_outbound(), o])).insert(
                    "route"@,
                    routing(tag_of(o), mark, true),
                ).insert("dns"@, dns(tag_of(o), provider, local)),
            ),
        ),
    }
}

/// The words of a line as the fields of a routing table.
pub open spec fn gateway_of_line(line: Seq<char>) -> Option<Option<[u8; 4]>> {
    let w = text::words(line);
    if w.len() < 2 {
        Some(None)
    } else if w[1] != "00000000"@ {
        None
    } else if w.len() < 3 {
        Some(None)
    } else {
        match text::unsigned_number(w[2], 16, u32::MAX as nat) {
            None => Some(None),
            Some(v) => Some(
                Some(
                    [
                        (v % 256) as u8,
                        (v / 256 % 256) as u8,
                        (v / 65536 % 256) as u8,
                        (v / 16777216 % 256) as u8,
                    ],
                ),
            ),
        }
    }
}

/// The gateway of the first line that decides: a default route gives its gateway
/// (little-endian hexadecimal), a line with too few fields or a bad number gives
/// none, any other line is passed over.
pub open spec fn first_gateway(lines: Seq<Seq<char>>) -> Option<[u8; 4]>
    decreases lines.len(),
{
    if lines.len() == 0 {
        None
    } else {
        match gateway_of_line(lines[0]) {
            Some(r) => r,
            None => first_gateway(lines.drop_first()),
        }
    }
}

/// The default gateway in the text of a routing table, whose first line is a
/// heading.
pub open spec fn route_table_gateway(contents: Seq<char>) -> Option<[u8; 4]> {
    let lines = text::lines(contents);
    if lines.len() == 0 {
        None
    } else {
        first_gateway(lines.drop_first())
    }
}

/// The first line of what a version command printed.
pub open spec fn version_line(output: Seq<char>) -> Seq<char> {
    let lines = text::lines(output);
    if lines.len() == 0 {
        "unknown"@
    } else {
        lines[0]
    }
}

/// All capabilities of the core.
pub open spec fn singbox_capabilities() -> Seq<CoreCapability> {
    seq![
        CoreCapability::Vless,
        CoreCapability::VlessReality,
        CoreCapability::Vmess,
        CoreCapability::Trojan,
        CoreCapability::Shadowsocks,
        CoreCapability::Hysteria2,
        CoreCapability::Tuic,
        CoreCapability::WireGuard,
        CoreCapability::WebSocket,
        CoreCapability::Grpc,
        CoreCapability::HttpUpgrade,
        CoreCapability::XHttp,
        CoreCapability::Multiplexing,
    ]
}

/// The proxy outbound's tag is the node's label, and the DNS section and the
/// routing rules of a complete configuration name that same tag.
pub proof fn law_full_config_routes_to_the_node(
    n: NodeView,
    tproxy_port: u16,
    mark: u32,
    provider: DnsProvider,
    local: Option<LocalDns>,
)
    requires
        full_config(n, tproxy_port, mark, provider, local) is Ok,
    ensures
        json::member(full_config(n, tproxy_port, mark, provider, local)->Ok_0, "route"@) == Some(
            routing(n.meta.label, mark, true),
        ),
        json::member(full_config(n, tproxy_port, mark, provider, local)->Ok_0, "dns"@) == Some(
            dns(n.meta.label, provider, local),
        ),
{
    outbound::law_outbound_names_the_node(n);
    reveal_strlit("route");
    reveal_strlit("dns");
    assert("route"@.len() != "dns"@.len());
}

// ---------------------------------------------------------------------------
// Executable forms
// ---------------------------------------------------------------------------

/// Transparent proxy inbound bound to `listen`, which takes the traffic that the
/// kernel hands over.
pub fn compile_tproxy_inbound(listen: &str, port: u16) -> (r: Json)
    ensures
        r@ == tproxy_inbound(listen@, port),
{
    let mut object = JsonObject::new();
    object.set_text("type", "tproxy");
    object.set_text("tag", "tproxy-in");
    object.set_text("listen", listen);
    object.set("listen_port", Json::Number(port as u64));
    Json::Object(object)
}

/// Routes every connection to the single proxy outbound, whose sockets carry
/// `mark` so that the kernel does not route them back into the proxy.
pub fn compile_routing(outbound_tag: &str, mark: u32, auto_detect_interface: bool) -> (r: Json)
    ensures
        r@ == routing(outbound_tag@, mark, auto_detect_interface),
{
    let mut sniff = JsonObject::new();
    sniff.set_text("action", "sniff");
    sniff.set("override_destination", Json::Bool(true));
    let mut route = JsonObject::new();
    route.set_text("action", "route");
    route.set_text("outbound", outbound_tag);
    let mut object = JsonObject::new();
    object.set("auto_detect_interface", Json::Bool(auto_detect_interface));
    object.set("default_mark", Json::Number(mark as u64));
    object.set("rules", Json::pair(Json::Object(sniff), Json::Object(route)));
    Json::Object(object)
}

/// Builds the DNS section.
pub fn compile_dns(proxy_outbound: &str, provider: DnsProvider, local: Option<LocalDns>) -> (r:
    Json)
    ensures
        r@ == dns(proxy_outbound@, provider, local),
{
    let mut tunnel = JsonObject::new();
    tunnel.set_text("type", "https");
    tunnel.set_text("tag", "tunnel-dns");
    tunnel.set_text("server", provider.server());
    tunnel.set_text("detour", proxy_outbound);
    let mut fallback = JsonObject::new();
    fallback.set_text("server", "tunnel-dns");
    let mut object = JsonObject::new();
    match local {
        None => {
            object.set("servers", Json::single(Json::Object(tunnel)));
            object.set("rules", Json::single(Json::Object(fallback)));
        },
        Some(local) => {
            let mut server = JsonObject::new();
            server.set_text("type", "udp");
            server.set_text("tag", "local-dns");
            server.set_text("server", IpAddr::V4(local.ipv4).to_text().as_str());
            server.set("server_port", Json::Number(local.port as u64));
            server.set_text("detour", "direct");
            let mut rule = JsonObject::new();
            rule.set("outbound", Json::single(Json::Text("direct".to_owned())));
            rule.set_text("server", "local-dns");
            object.set("servers", Json::pair(Json::Object(tunnel), Json::Object(server)));
            object.set("rules", Json::pair(Json::Object(rule), Json::Object(fallback)));
        },
    }
    object.set_text("strategy", "ipv4_only");
    object.set("independent_cache", Json::Bool(false));
    Json::Object(object)
}

/// Assembles a complete, immediately consumable configuration.
pub fn compile_full_config(
    node: &CanonicalNode,
    _caps: &CoreCapabilities,
    tproxy_port: u16,
    mark: u32,
    dns_provider: DnsProvider,
    local_dns: Option<LocalDns>,
) -> (r: Result<Json, AdapterError>)
    ensures
        outbound::json_result(r) == full_config(node@, tproxy_port, mark, dns_provider, local_dns),
{
    let compiled = match compile_outbound(node) {
        Ok(o) => o,
        Err(e) => return Err(e),
    };
    let tag = match compiled.get("tag") {
        Some(value) => match value.as_text() {
            Some(tag) => tag.to_owned(),
            None => "proxy".to_owned(),
        },
        None => "proxy".to_owned(),
    };
    let mut log = JsonObject::new();
    log.set_text("level", "info");
    log.set("timestamp", Json::Bool(true));
    let mut direct = JsonObject::new();
    direct.set_text("type", "direct");
    direct.set_text("tag", "direct");
    let mut object = JsonObject::new();
    object.set("log", Json::Object(log));
    object.set("inbounds", Json::single(compile_tproxy_inbound("::", tproxy_port)));
    object.set("outbounds", Json::pair(Json::Object(direct), compiled));
    object.set("route", compile_routing(tag.as_str(), mark, true));
    object.set("dns", compile_dns(tag.as_str(), dns_provider, local_dns));
    Ok(Json::Object(object))
}

/// Reads the default gateway from the text of the kernel's routing table.
pub fn parse_route_table(contents: &str) -> (r: Option<[u8; 4]>)
    ensures
        r == route_table_gateway(contents@),
{
    let chars = text::to_chars(contents);
    let lines = text::split_lines(&chars);
    let ghost view = |l: &[char]| l@;
    let ghost model = text::lines(contents@);
    assert(lines@.map_values(view) == model);
    if lines.len() == 0 {
        return None;
    }
    let mut i: usize = 1;
    assert(model.skip(1) =~= model.drop_first());
    while i < lines.len()
        invariant
            1 <= i <= lines@.len(),
            view == (|l: &[char]| l@),
            lines@.map_values(view) == model,
            model == text::lines(contents@),
            first_gateway(model.skip(i as int)) == route_table_gateway(contents@),
        decreases lines@.len() - i,
    {
        let ghost rest = model.skip(i as int);
        assert(rest[0] == lines@[i as int]@);
        assert(rest.drop_first() =~= model.skip(i + 1));
        let words = text::split_words(lines[i]);
        let ghost w = text::words(lines@[i as int]@);
        assert(words@.map_values(view) == w);
        assert(words@.len() == w.len());
        if words.len() < 2 {
            return None;
        }
        assert(w[1] == words@[1]@);
        let zero = text::to_chars("00000000");
        if text::same_chars(words[1], &zero) {
            if words.len() < 3 {
                return None;
            }
            assert(w[2] == words@[2]@);
            match text::read_unsigned(words[2], 16, 0xffff_ffff) {
                None => {
                    return None;
                },
                Some(v) => {
                    let r = [
                        (v % 256) as u8,
                        (v / 256 % 256) as u8,
                        (v / 65536 % 256) as u8,
                        (v / 16777216 % 256) as u8,
                    ];
                    return Some(r);
                },
            }
        }
        i += 1;
    }
    assert(model.skip(i as int) =~= Seq::<Seq<char>>::empty());
    None
}

/// The adapter for the sing-box core.
pub struct SingboxAdapter;

impl SingboxAdapter {
    pub fn new() -> (r: SingboxAdapter)
        ensures
            r == SingboxAdapter,
    {
        SingboxAdapter
    }
}

impl CoreAdapter for SingboxAdapter {
    fn name(&self) -> (r: &'static str)
        ensures
            r@ == "sing-box"@,
    {
        "sing-box"
    }

    fn probe_capabilities(&self, succeeded: bool, output: &[u8]) -> (r: Result<
        CoreCapabilities,
        AdapterError,
    >)
        ensures
            (match r {
                Ok(caps) => succeeded && caps.wf() && caps.core_name@ == "sing-box"@ && caps.version@
                    == version_line(text::utf8_lossy(output@)) && caps.supported@
                    == singbox_capabilities(),
                Err(e) => !succeeded && e@ == AdapterError::<Seq<char>>::VersionUnavailable,
            }),
    {
        if !succeeded {
            return Err(AdapterError::VersionUnavailable);
        }
        let printed = text::from_utf8_lossy(output);
        let supported = vec![
            CoreCapability::Vless,
            CoreCapability::VlessReality,
            CoreCapability::Vmess,
            CoreCapability::Trojan,
            CoreCapability::Shadowsocks,
            CoreCapability::Hysteria2,
            CoreCapability::Tuic,
            CoreCapability::WireGuard,
            CoreCapability::WebSocket,
            CoreCapability::Grpc,
            CoreCapability::HttpUpgrade,
            CoreCapability::XHttp,
            CoreCapability::Multiplexing,
        ];
        assert(supported@ =~= singbox_capabilities());
        assert(supported@.no_duplicates());
        Ok(
            CoreCapabilities {
                core_name: "sing-box".to_owned(),
                version: first_line(printed.as_str()),
                supported,
            },
        )
    }

    fn compile_outbound(&self, node: &CanonicalNode, _capabilities: &CoreCapabilities) -> (r:
        Result<Json, AdapterError>)
        ensures
            outbound::json_result(r) == outbound::outbound_json(node@),
    {
        compile_outbound(node)
    }

    fn validate_config(&self, succeeded: bool, errors: &[u8]) -> (r: Result<(), AdapterError>)
        ensures
            (match r {
                Ok(_) => succeeded,
                Err(e) => !succeeded && e@ == AdapterError::ConfigRejected(
                    text::trim(text::utf8_lossy(errors@)),
                ),
            }),
    {
        config_verdict(succeeded, errors)
    }
}

/// The verdict on a configuration: whether the core's check succeeded, and what it
/// printed if it did not.
pub(crate) fn config_verdict(succeeded: bool, errors: &[u8]) -> (r: Result<(), AdapterError>)
    ensures
        (match r {
            Ok(_) => succeeded,
            Err(e) => !succeeded && e@ == AdapterError::ConfigRejected(
                text::trim(text::utf8_lossy(errors@)),
            ),
        }),
{
    if succeeded {
        return Ok(());
    }
    let printed = text::to_chars(text::from_utf8_lossy(errors).as_str());
    Err(AdapterError::ConfigRejected(text::from_chars(text::trim_chars(&printed))))
}

/// The first line of what a version command printed, or `unknown`.
pub fn first_line(output: &str) -> (r: String)
    ensures
        r@ == version_line(output@),
{
    let chars = text::to_chars(output);
    let lines = text::split_lines(&chars);
    let ghost view = |l: &[char]| l@;
    assert(lines@.map_values(view) == text::lines(output@));
    if lines.len() == 0 {
        "unknown".to_owned()
    } else {
        assert(lines@.map_values(view)[0] == lines@[0]@);
        text::from_chars(lines[0])
    }
}

} // verus!
