//! How names are told apart.
use vstd::prelude::*;

verus! {

/// A number of a name: texts with different numbers differ.
pub closed spec fn code(s: Seq<char>) -> int {
    if s.len() == 0 {
        0
    } else {
        s.len() + 100 * (s[0] as int) + 100_000 * (s[s.len() - 1] as int) + 100_000_000 * (s[(s.len()
            / 2) as int] as int) + 100_000_000_000 * (s[(3 * s.len()
            / 4) as int] as int) + 100_000_000_000_000 * (s[(s.len() / 4) as int] as int)
    }
}

/// The names of an outbound's members.
pub proof fn lemma_outbound_names()
    ensures
        code("type"@) == 12110111210111604,
        code("tag"@) == 11610309710311603,
        code("server"@) == 10110111811411506,
        code("server_port"@) == 11411111411611511,
        code("uuid"@) == 11710010510011704,
        code("flow"@) == 10811911111910204,
        code("packet_encoding"@) == 10710010110311215,
        code("alter_id"@) == 11610511410009708,
        code("security"@) == 9911611412111508,
        code("password"@) == 11511411910011208,
        code("transport"@) == 9711111511611609,
        code("tls"@) == 11611510811511603,
        code("multiplex"@) == 10810810512010909,
        code("method"@) == 10111110410010906,
        code("plugin"@) == 10810510311011206,
        code("plugin_opts"@) == 11711211011511211,
        code("up_mbps"@) == 11211210911511707,
        code("down_mbps"@) == 11909809511510009,
        code("obfs"@) == 9811510211511104,
        code("port_hopping"@) == 11610511110311212,
        code("congestion_control"@) == 10111011010809918,
        code("udp_relay_mode"@) == 9510909710111714,
        code("zero_rtt_handshake"@) == 9511510410112218,
        code("private_key"@) == 10510711612111211,
        code("local_address"@) == 9711409711510813,
        code("peers"@) == 10111410111511205,
        code("reserved"@) == 11510111410011408,
        code("mtu"@) == 10911711611710903,
        code("enabled"@) == 11010109810010107,
        code("protocol"@) == 11111111110811208,
        code("max_connections"@) == 9510511011510915,
        code("path"@) == 9710411610411204,
        code("headers"@) == 10111410011510407,
        code("max_early_data"@) == 9510010809710914,
        code("early_data_header_name"@) == 9511410410110122,
        code("service_name"@) == 11809710110111512,
        code("mode"@) == 11110110010110904,
        code("host"@) == 11111611511610404,
        code("server_name"@) == 11409711410111511,
        code("insecure"@) == 11511409910110508,
        code("alpn"@) == 10811011211009704,
        code("utls"@) == 11611510811511704,
        code("reality"@) == 10111610812111407,
        code("fingerprint"@) == 11010511411610211,
        code("public_key"@) == 9810709912111210,
        code("short_id"@) == 11110511610011508,
        code("spider_x"@) == 10509510112011508,
        code("preshared_key"@) == 11509511412111213,
        code("Host"@) == 11111611511607204,
{
    reveal_strlit("type");
    reveal_strlit("tag");
    reveal_strlit("server");
    reveal_strlit("server_port");
    reveal_strlit("uuid");
    reveal_strlit("flow");
    reveal_strlit("packet_encoding");
    reveal_strlit("alter_id");
    reveal_strlit("security");
    reveal_strlit("password");
    reveal_strlit("transport");
    reveal_strlit("tls");
    reveal_strlit("multiplex");
    reveal_strlit("method");
    reveal_strlit("plugin");
    reveal_strlit("plugin_opts");
    reveal_strlit("up_mbps");
    reveal_strlit("down_mbps");
    reveal_strlit("obfs");
    reveal_strlit("port_hopping");
    reveal_strlit("congestion_control");
    reveal_strlit("udp_relay_mode");
    reveal_strlit("zero_rtt_handshake");
    reveal_strlit("private_key");
    reveal_strlit("local_address");
    reveal_strlit("peers");
    reveal_strlit("reserved");
    reveal_strlit("mtu");
    reveal_strlit("enabled");
    reveal_strlit("protocol");
    reveal_strlit("max_connections");
    reveal_strlit("path");
    reveal_strlit("headers");
    reveal_strlit("max_early_data");
    reveal_strlit("early_data_header_name");
    reveal_strlit("service_name");
    reveal_strlit("mode");
    reveal_strlit("host");
    reveal_strlit("server_name");
    reveal_strlit("insecure");
    reveal_strlit("alpn");
    reveal_strlit("utls");
    reveal_strlit("reality");
    reveal_strlit("fingerprint");
    reveal_strlit("public_key");
    reveal_strlit("short_id");
    reveal_strlit("spider_x");
    reveal_strlit("preshared_key");
    reveal_strlit("Host");
}

/// What a link's query and a profile choose from.
pub proof fn lemma_choice_names()
    ensures
        code(""@) == 0,
        code("none"@) == 11110111010111004,
        code("tls"@) == 11611510811511603,
        code("reality"@) == 10111610812111407,
        code("tcp"@) == 11611209911211603,
        code("ws"@) == 11911511511511902,
        code("grpc"@) == 11409911209910304,
        code("xhttp"@) == 10411611611212005,
        code("auto"@) == 11711111611109704,
        code("aes-128-gcm"@) == 11510305010909711,
        code("aes-256-gcm"@) == 11510305310909711,
        code("chacha20-poly1305"@) == 10412104505309917,
        code("chacha20-ietf-poly1305"@) == 9710811605309922,
        code("2022-blake3-aes-128-gcm"@) == 9805004510905023,
        code("2022-blake3-aes-256-gcm"@) == 9805304510905023,
        code("2022-blake3-chacha20-poly1305"@) == 9711209705305029,
        code("xtls-rprx-vision"@) == 4511512011012016,
        code("xtls-rprx-vision-udp443"@) == 11411710505112023,
        code("bbr"@) == 9811409811409803,
        code("cubic"@) == 11710509809909905,
        code("new_reno"@) == 11911011411111008,
        code("native"@) == 9711810510111006,
        code("quic"@) == 11709910509911304,
        code("chrome"@) == 10410911110109906,
        code("firefox"@) == 10511110112010207,
        code("safari"@) == 9711409710511506,
        code("edge"@) == 10010110310110104,
        code("randomized"@) == 11012210910011410,
        code("random"@) == 9711110010911406,
        code("packet-up"@) == 9904510111211209,
        code("stream-up"@) == 11404509711211509,
        code("stream-one"@) == 11411110910111510,
        code("1"@) == 4904904904904901,
        code("true"@) == 11410111710111604,
        code("multi"@) == 11711610810510905,
        code("/"@) == 4704704704704701,
{
    reveal_strlit("");
    reveal_strlit("none");
    reveal_strlit("tls");
    reveal_strlit("reality");
    reveal_strlit("tcp");
    reveal_strlit("ws");
    reveal_strlit("grpc");
    reveal_strlit("xhttp");
    reveal_strlit("auto");
    reveal_strlit("aes-128-gcm");
    reveal_strlit("aes-256-gcm");
    reveal_strlit("chacha20-poly1305");
    reveal_strlit("chacha20-ietf-poly1305");
    reveal_strlit("2022-blake3-aes-128-gcm");
    reveal_strlit("2022-blake3-aes-256-gcm");
    reveal_strlit("2022-blake3-chacha20-poly1305");
    reveal_strlit("xtls-rprx-vision");
    reveal_strlit("xtls-rprx-vision-udp443");
    reveal_strlit("bbr");
    reveal_strlit("cubic");
    reveal_strlit("new_reno");
    reveal_strlit("native");
    reveal_strlit("quic");
    reveal_strlit("chrome");
    reveal_strlit("firefox");
    reveal_strlit("safari");
    reveal_strlit("edge");
    reveal_strlit("randomized");
    reveal_strlit("random");
    reveal_strlit("packet-up");
    reveal_strlit("stream-up");
    reveal_strlit("stream-one");
    reveal_strlit("1");
    reveal_strlit("true");
    reveal_strlit("multi");
    reveal_strlit("/");
}

/// The schemes of links.
pub proof fn lemma_scheme_names()
    ensures
        code("vless"@) == 10811510111511805,
        code("vmess"@) == 10911510111511805,
        code("trojan"@) == 11409710611011606,
        code("ss"@) == 11511511511511502,
        code("hysteria2"@) == 11510510105010409,
        code("hy2"@) == 10405012105010403,
        code("tuic"@) == 11709910509911604,
{
    reveal_strlit("vless");
    reveal_strlit("vmess");
    reveal_strlit("trojan");
    reveal_strlit("ss");
    reveal_strlit("hysteria2");
    reveal_strlit("hy2");
    reveal_strlit("tuic");
}

/// The places that labels name.
pub proof fn lemma_place_names()
    ensures
        code("tokyo"@) == 11112110711111605,
        code("osaka"@) == 11510709709711105,
        code("japan"@) == 9709711211010605,
        code("hong kong"@) == 11011103210310409,
        code("taiwan"@) == 9709711911011606,
        code("taipei"@) == 9710111210511606,
        code("singapore"@) == 11011109710111509,
        code("korea"@) == 11110111409710705,
        code("seoul"@) == 10111711110811505,
        code("frankfurt"@) == 9711710711610209,
        code("germany"@) == 10111010912110307,
        code("deutschland"@) == 11709709910010011,
        code("amsterdam"@) == 11510010110909709,
        code("netherlands"@) == 11611011411511011,
        code("paris"@) == 9710511411511205,
        code("france"@) == 11409911010110206,
        code("london"@) == 11111110011010806,
        code("united kingdom"@) == 11610310710911714,
        code("new york"@) == 11911412110711008,
        code("los angeles"@) == 11510811011510811,
        code("chicago"@) == 10410309911109907,
        code("seattle"@) == 10110811610111507,
        code("dallas"@) == 9709710811510006,
        code("san jose"@) == 11011510610111508,
        code("united states"@) == 11609703211511713,
        code("usa"@) == 11709711509711703,
        code("sydney"@) == 12110111012111506,
        code("australia"@) == 11510811409709709,
        code("bangkok"@) == 9711110310709807,
        code("thailand"@) == 9711010810011608,
        code("vietnam"@) == 10509711610911807,
        code("hanoi"@) == 9711111010510405,
        code("ho chi minh"@) == 3210510510410411,
        code("moscow"@) == 11111109911910906,
        code("russia"@) == 11710511509711406,
        code("mumbai"@) == 11709709810510906,
        code("india"@) == 11010510009710505,
        code("dubai"@) == 11709709810510005,
        code("istanbul"@) == 11611711010810508,
        code("turkey"@) == 11710110712111606,
        code("madrid"@) == 9710511410010906,
        code("spain"@) == 11210509711011505,
        code("helsinki"@) == 10810710510510408,
        code("finland"@) == 10511010810010207,
        code("stockholm"@) == 11111110710911509,
        code("sweden"@) == 11910110011011506,
        code("oslo"@) == 11511110811111104,
        code("norway"@) == 11109711912111006,
        code("copenhagen"@) == 11210310411009910,
        code("denmark"@) == 10111410910710007,
        code("warsaw"@) == 9709711511911906,
        code("poland"@) == 11111009710011206,
        code("prague"@) == 11411710310111206,
        code("toronto"@) == 11111611111111607,
        code("vancouver"@) == 11011811111411809,
        code("montreal"@) == 11009711410810908,
        code("canada"@) == 9710009709709906,
        code("sao paulo"@) == 11111711211111509,
        code("brazil"@) == 11410512210809806,
        code("chile"@) == 10410810510109905,
        code("argentina"@) == 10310511009709709,
        code("kuala lumpur"@) == 10811210811410712,
        code("malaysia"@) == 10810512109710908,
        code("jakarta"@) == 9711609709710607,
        code("indonesia"@) == 10011511009710509,
        code("manila"@) == 9710810509710906,
        code("philippines"@) == 10511011211511211,
{
    reveal_strlit("tokyo");
    reveal_strlit("osaka");
    reveal_strlit("japan");
    reveal_strlit("hong kong");
    reveal_strlit("taiwan");
    reveal_strlit("taipei");
    reveal_strlit("singapore");
    reveal_strlit("korea");
    reveal_strlit("seoul");
    reveal_strlit("frankfurt");
    reveal_strlit("germany");
    reveal_strlit("deutschland");
    reveal_strlit("amsterdam");
    reveal_strlit("netherlands");
    reveal_strlit("paris");
    reveal_strlit("france");
    reveal_strlit("london");
    reveal_strlit("united kingdom");
    reveal_strlit("new york");
    reveal_strlit("los angeles");
    reveal_strlit("chicago");
    reveal_strlit("seattle");
    reveal_strlit("dallas");
    reveal_strlit("san jose");
    reveal_strlit("united states");
    reveal_strlit("usa");
    reveal_strlit("sydney");
    reveal_strlit("australia");
    reveal_strlit("bangkok");
    reveal_strlit("thailand");
    reveal_strlit("vietnam");
    reveal_strlit("hanoi");
    reveal_strlit("ho chi minh");
    reveal_strlit("moscow");
    reveal_strlit("russia");
    reveal_strlit("mumbai");
    reveal_strlit("india");
    reveal_strlit("dubai");
    reveal_strlit("istanbul");
    reveal_strlit("turkey");
    reveal_strlit("madrid");
    reveal_strlit("spain");
    reveal_strlit("helsinki");
    reveal_strlit("finland");
    reveal_strlit("stockholm");
    reveal_strlit("sweden");
    reveal_strlit("oslo");
    reveal_strlit("norway");
    reveal_strlit("copenhagen");
    reveal_strlit("denmark");
    reveal_strlit("warsaw");
    reveal_strlit("poland");
    reveal_strlit("prague");
    reveal_strlit("toronto");
    reveal_strlit("vancouver");
    reveal_strlit("montreal");
    reveal_strlit("canada");
    reveal_strlit("sao paulo");
    reveal_strlit("brazil");
    reveal_strlit("chile");
    reveal_strlit("argentina");
    reveal_strlit("kuala lumpur");
    reveal_strlit("malaysia");
    reveal_strlit("jakarta");
    reveal_strlit("indonesia");
    reveal_strlit("manila");
    reveal_strlit("philippines");
}

/// The names of a configuration's members.
pub proof fn lemma_config_names()
    ensures
        code("type"@) == 12110111210111604,
        code("tag"@) == 11610309710311603,
        code("listen"@) == 10510111611010806,
        code("listen_port"@) == 11511111011610811,
        code("auto_detect_interface"@) == 10010111610109721,
        code("default_mark"@) == 9709711610710012,
        code("rules"@) == 11710110811511405,
        code("action"@) == 9911110511009706,
        code("override_destination"@) == 10509710111011120,
        code("outbound"@) == 11611011110011108,
        code("server"@) == 10110111811411506,
        code("detour"@) == 10111711111410006,
        code("server_port"@) == 11411111411611511,
        code("servers"@) == 10111411811511507,
        code("strategy"@) == 11410311612111508,
        code("independent_cache"@) == 11209910110110517,
        code("log"@) == 10810311110310803,
        code("inbounds"@) == 9810011711510508,
        code("outbounds"@) == 11611011111511109,
        code("route"@) == 11111611710111405,
        code("dns"@) == 10011511011510003,
        code("level"@) == 10110111810810805,
        code("timestamp"@) == 10909711511211609,
{
    reveal_strlit("type");
    reveal_strlit("tag");
    reveal_strlit("listen");
    reveal_strlit("listen_port");
    reveal_strlit("auto_detect_interface");
    reveal_strlit("default_mark");
    reveal_strlit("rules");
    reveal_strlit("action");
    reveal_strlit("override_destination");
    reveal_strlit("outbound");
    reveal_strlit("server");
    reveal_strlit("detour");
    reveal_strlit("server_port");
    reveal_strlit("servers");
    reveal_strlit("strategy");
    reveal_strlit("independent_cache");
    reveal_strlit("log");
    reveal_strlit("inbounds");
    reveal_strlit("outbounds");
    reveal_strlit("route");
    reveal_strlit("dns");
    reveal_strlit("level");
    reveal_strlit("timestamp");
}

/// The names of a payload's members.
pub proof fn lemma_payload_names()
    ensures
        code("add"@) == 9710010010009703,
        code("port"@) == 11111611411611204,
        code("id"@) == 10510010010010502,
        code("aid"@) == 9710010510009703,
        code("scy"@) == 11512109912111503,
        code("net"@) == 11011610111611003,
        code("host"@) == 11111611511610404,
        code("path"@) == 9710411610411204,
        code("tls"@) == 11611510811511603,
        code("sni"@) == 11510511010511503,
        code("alpn"@) == 10811011211009704,
        code("fp"@) == 10211211211210202,
        code("ps"@) == 11211511511511202,
{
    reveal_strlit("add");
    reveal_strlit("port");
    reveal_strlit("id");
    reveal_strlit("aid");
    reveal_strlit("scy");
    reveal_strlit("net");
    reveal_strlit("host");
    reveal_strlit("path");
    reveal_strlit("tls");
    reveal_strlit("sni");
    reveal_strlit("alpn");
    reveal_strlit("fp");
    reveal_strlit("ps");
}

} // verus!
