//! What reading proxy links promises.
use crate::ir::protocol::{
    Hysteria2Config, Hysteria2Obfs, ProtocolSpec, ShadowsocksCipher, TuicCongestion, TuicUdpRelay,
    VlessFlow, VmessCipher,
};
use crate::ir::transport::{SecuritySpec, TransportSpec, UtlsFingerprint, XHttpMode};
use crate::parser::error::{ErrorView, ParseError};
use crate::laws::names;
use crate::parser::uri;
use crate::text;
use vstd::prelude::*;

verus! {

// ---------------------------------------------------------------------------
// Query pairs
// ---------------------------------------------------------------------------

/// The last pair with the key has the value.
pub open spec fn gives(q: Seq<(Seq<char>, Seq<char>)>, key: Seq<char>, value: Seq<char>) -> bool {
    exists|i: int|
        0 <= i < q.len() && (#[trigger] q[i]).0 == key && q[i].1 == value && forall|j: int|
            i < j < q.len() ==> (#[trigger] q[j]).0 != key
}

/// No pair has the key.
pub open spec fn lacks(q: Seq<(Seq<char>, Seq<char>)>, key: Seq<char>) -> bool {
    forall|i: int| 0 <= i < q.len() ==> (#[trigger] q[i]).0 != key
}

/// The value of a key is that of the last pair with the key.
pub proof fn law_the_last_pair_counts(q: Seq<(Seq<char>, Seq<char>)>, key: Seq<char>)
    ensures
        (match uri::query_value(q, key) {
            Some(value) => gives(q, key, value),
            None => lacks(q, key),
        }),
        forall|value: Seq<char>| #[trigger]
            gives(q, key, value) ==> uri::query_value(q, key) == Some(value),
        lacks(q, key) ==> uri::query_value(q, key) is None,
    decreases q.len(),
{
    if q.len() > 0 {
        let rest = q.drop_last();
        law_the_last_pair_counts(rest, key);
        if q.last().0 == key {
            assert(q[q.len() - 1].0 == key);
            assert(gives(q, key, q.last().1));
        } else {
            match uri::query_value(rest, key) {
                Some(value) => {
                    let i = choose|i: int|
                        0 <= i < rest.len() && (#[trigger] rest[i]).0 == key && rest[i].1 == value
                            && forall|j: int|
                            i < j < rest.len() ==> (#[trigger] rest[j]).0 != key;
                    assert(q[i].0 == key && q[i].1 == value);
                    assert forall|j: int| i < j < q.len() implies (#[trigger] q[j]).0 != key by {
                        if j < rest.len() {
                            assert(rest[j].0 != key);
                        }
                    }
                    assert(gives(q, key, value));
                },
                None => {
                    assert forall|i: int| 0 <= i < q.len() implies (#[trigger] q[i]).0 != key by {
                        if i < rest.len() {
                            assert(rest[i].0 != key);
                        }
                    }
                },
            }
        }
        assert forall|value: Seq<char>| #[trigger] gives(q, key, value) implies uri::query_value(
            q,
            key,
        ) == Some(value) by {
            let i = choose|i: int|
                0 <= i < q.len() && (#[trigger] q[i]).0 == key && q[i].1 == value && forall|j: int|
                    i < j < q.len() ==> (#[trigger] q[j]).0 != key;
            if i < q.len() - 1 {
                assert(q[q.len() - 1].0 != key);
                assert(rest[i].0 == key && rest[i].1 == value);
                assert forall|j: int| i < j < rest.len() implies (#[trigger] rest[j]).0 != key by {
                    assert(q[j].0 != key);
                }
                assert(gives(rest, key, value));
            }
        }
    }
}

/// A pair under another key changes no value.
pub proof fn law_other_pairs_change_no_value(
    q: Seq<(Seq<char>, Seq<char>)>,
    i: int,
    pair: (Seq<char>, Seq<char>),
    key: Seq<char>,
)
    requires
        0 <= i <= q.len(),
        pair.0 != key,
    ensures
        uri::query_value(q.insert(i, pair), key) == uri::query_value(q, key),
    decreases q.len(),
{
    let p = q.insert(i, pair);
    if i == q.len() {
        assert(p.drop_last() =~= q);
    } else {
        law_other_pairs_change_no_value(q.drop_last(), i, pair, key);
        assert(p.drop_last() =~= q.drop_last().insert(i, pair));
        assert(p.last() == q.last());
    }
}

// ---------------------------------------------------------------------------
// Security
// ---------------------------------------------------------------------------

/// The value of the last pair with the key, where there is one.
pub open spec fn given(q: Seq<(Seq<char>, Seq<char>)>, key: Seq<char>) -> Option<Seq<char>> {
    if lacks(q, key) {
        None
    } else {
        Some(choose|value: Seq<char>| gives(q, key, value))
    }
}

pub proof fn lemma_given(q: Seq<(Seq<char>, Seq<char>)>, key: Seq<char>)
    ensures
        given(q, key) == uri::query_value(q, key),
{
    law_the_last_pair_counts(q, key);
    if !lacks(q, key) {
        assert(gives(q, key, uri::query_value(q, key)->0));
        let value = choose|value: Seq<char>| gives(q, key, value);
        assert(gives(q, key, value));
    }
}

/// A link with `security=tls`: the server's name is the value of `sni`, the protocols
/// are those that `alpn` lists, certificates are not checked exactly if `allowInsecure`
/// is `1` or `true`, and the handshake looks like that of `fp`.
pub proof fn law_tls_links_name_their_server(q: Seq<(Seq<char>, Seq<char>)>, name: Seq<char>)
    requires
        gives(q, "security"@, "tls"@),
    ensures
        ({
            let r = uri::query_security(q);
            &&& r matches Ok(SecuritySpec::Tls(_))
            &&& gives(q, "sni"@, name) ==> r->Ok_0->Tls_0.server_name == name
            &&& lacks(q, "sni"@) ==> r->Ok_0->Tls_0.server_name.len() == 0
            &&& lacks(q, "alpn"@) ==> r->Ok_0->Tls_0.alpn.len() == 0
            &&& r->Ok_0->Tls_0.alpn == uri::csv(given(q, "alpn"@))
            &&& r->Ok_0->Tls_0.fingerprint == uri::fingerprint(given(q, "fp"@))
            &&& r->Ok_0->Tls_0.allow_insecure == (gives(q, "allowInsecure"@, "1"@) || gives(
                q,
                "allowInsecure"@,
                "true"@,
            ))
        }),
{
    law_the_last_pair_counts(q, "security"@);
    law_the_last_pair_counts(q, "sni"@);
    law_the_last_pair_counts(q, "alpn"@);
    law_the_last_pair_counts(q, "allowInsecure"@);
    lemma_given(q, "alpn"@);
    lemma_given(q, "fp"@);
    lemma_security_names();
    if lacks(q, "alpn"@) {
        reveal_strlit("");
        assert(text::fields(Seq::empty(), ',') =~= seq![Seq::<char>::empty()]);
        let keep = |part: Seq<char>| part.len() > 0;
        assert(seq![Seq::<char>::empty()].filter(keep).len() == 0) by {
            reveal_with_fuel(Seq::filter, 2);
            assert(seq![Seq::<char>::empty()].drop_last() =~= Seq::empty());
        }
        assert(""@ =~= Seq::empty());
    }
    reveal_strlit("");
}

proof fn lemma_security_names()
    ensures
        "tls"@ != "none"@,
        "tls"@ != ""@,
        "tls"@ != "reality"@,
        "reality"@ != "none"@,
        "reality"@ != ""@,
        ""@.len() == 0,
{
    names::lemma_choice_names();
    reveal_strlit("");
}

/// A link with `security=reality` needs a public key in `pbk`. The server's name is the
/// value of `sni`, the short identifier that of `sid`, and the spider's path that of
/// `spx`.
pub proof fn law_reality_links_carry_their_key(
    q: Seq<(Seq<char>, Seq<char>)>,
    key: Seq<char>,
    name: Seq<char>,
    id: Seq<char>,
    path: Seq<char>,
)
    requires
        gives(q, "security"@, "reality"@),
    ensures
        lacks(q, "pbk"@) ==> uri::query_security(q) == Err::<
            SecuritySpec<Seq<char>, Seq<Seq<char>>>,
            _,
        >(ParseError::<Seq<char>, Seq<char>>::MissingField("pbk"@)),
        gives(q, "pbk"@, key) ==> {
            let r = uri::query_security(q);
            &&& r matches Ok(SecuritySpec::Reality(_))
            &&& r->Ok_0->Reality_0.public_key == key
            &&& gives(q, "sni"@, name) ==> r->Ok_0->Reality_0.server_name == name
            &&& lacks(q, "sni"@) ==> r->Ok_0->Reality_0.server_name.len() == 0
            &&& gives(q, "sid"@, id) ==> r->Ok_0->Reality_0.short_id == id
            &&& lacks(q, "sid"@) ==> r->Ok_0->Reality_0.short_id.len() == 0
            &&& gives(q, "spx"@, path) ==> r->Ok_0->Reality_0.spider_x == Some(path)
            &&& lacks(q, "spx"@) ==> r->Ok_0->Reality_0.spider_x is None
            &&& r->Ok_0->Reality_0.fingerprint == uri::fingerprint(given(q, "fp"@))
        },
{
    law_the_last_pair_counts(q, "security"@);
    law_the_last_pair_counts(q, "pbk"@);
    law_the_last_pair_counts(q, "sni"@);
    law_the_last_pair_counts(q, "sid"@);
    law_the_last_pair_counts(q, "spx"@);
    lemma_given(q, "fp"@);
    lemma_security_names();
}

/// A link without `security`, or with `none` or nothing in it, is not secured; one that
/// asks for something else is refused, with what it asks for. Pairs under other keys do
/// not matter.
pub proof fn law_only_security_pairs_secure_a_link(
    q: Seq<(Seq<char>, Seq<char>)>,
    value: Seq<char>,
    i: int,
    pair: (Seq<char>, Seq<char>),
)
    requires
        0 <= i <= q.len(),
    ensures
        lacks(q, "security"@) || gives(q, "security"@, "none"@) || gives(q, "security"@, ""@)
            ==> uri::query_security(q) == Ok::<_, ErrorView>(
            SecuritySpec::<Seq<char>, Seq<Seq<char>>>::Plain,
        ),
        gives(q, "security"@, value) && value != "none"@ && value != ""@ && value != "tls"@
            && value != "reality"@ ==> uri::query_security(q) == Err::<
            SecuritySpec<Seq<char>, Seq<Seq<char>>>,
            _,
        >(ParseError::<Seq<char>, Seq<char>>::InvalidValue { field: "security"@, value }),
        pair.0 != "security"@ && pair.0 != "sni"@ && pair.0 != "alpn"@ && pair.0 != "fp"@ && pair.0
            != "allowInsecure"@ && pair.0 != "pbk"@ && pair.0 != "sid"@ && pair.0 != "spx"@
            ==> uri::query_security(q.insert(i, pair)) == uri::query_security(q),
{
    law_the_last_pair_counts(q, "security"@);
    lemma_security_names();
    if pair.0 != "security"@ && pair.0 != "sni"@ && pair.0 != "alpn"@ && pair.0 != "fp"@ && pair.0
        != "allowInsecure"@ && pair.0 != "pbk"@ && pair.0 != "sid"@ && pair.0 != "spx"@ {
        law_other_pairs_change_no_value(q, i, pair, "security"@);
        law_other_pairs_change_no_value(q, i, pair, "sni"@);
        law_other_pairs_change_no_value(q, i, pair, "alpn"@);
        law_other_pairs_change_no_value(q, i, pair, "fp"@);
        law_other_pairs_change_no_value(q, i, pair, "allowInsecure"@);
        law_other_pairs_change_no_value(q, i, pair, "pbk"@);
        law_other_pairs_change_no_value(q, i, pair, "sid"@);
        law_other_pairs_change_no_value(q, i, pair, "spx"@);
    }
}

// ---------------------------------------------------------------------------
// Transport
// ---------------------------------------------------------------------------

/// A link carries its traffic as `type` says, plainly where there is none; the details
/// are those of the query. What it cannot carry traffic over is refused by name. Pairs
/// under other keys do not matter.
pub proof fn law_links_say_how_to_carry_traffic(
    q: Seq<(Seq<char>, Seq<char>)>,
    value: Seq<char>,
    i: int,
    pair: (Seq<char>, Seq<char>),
)
    requires
        0 <= i <= q.len(),
    ensures
        ({
            let r = uri::query_transport(q);
            &&& lacks(q, "type"@) || gives(q, "type"@, "tcp"@) ==> r is Ok && r->Ok_0 is Tcp
            &&& gives(q, "type"@, "ws"@) ==> {
                let c = r->Ok_0->WebSocket_0;
                &&& r is Ok && r->Ok_0 is WebSocket
                &&& gives(q, "path"@, value) ==> c.path == value
                &&& lacks(q, "path"@) ==> c.path == "/"@
                &&& gives(q, "host"@, value) ==> c.host == Some(value)
                &&& lacks(q, "host"@) ==> c.host is None
                &&& gives(q, "eh"@, value) ==> c.early_data_header == Some(value)
                &&& lacks(q, "eh"@) ==> c.early_data_header is None
                &&& gives(q, "ed"@, value) ==> match text::unsigned_number(
                    value,
                    10,
                    0xffff_ffff,
                ) {
                    Some(n) => c.max_early_data == n,
                    None => c.max_early_data == 0,
                }
                &&& lacks(q, "ed"@) ==> c.max_early_data == 0
            }
            &&& gives(q, "type"@, "grpc"@) ==> {
                let c = r->Ok_0->Grpc_0;
                &&& r is Ok && r->Ok_0 is Grpc
                &&& gives(q, "serviceName"@, value) ==> c.service_name == value
                &&& lacks(q, "serviceName"@) ==> c.service_name.len() == 0
                &&& c.multi_mode <==> gives(q, "mode"@, "multi"@)
            }
            &&& gives(q, "type"@, "xhttp"@) ==> {
                let c = r->Ok_0->XHttp_0;
                &&& r is Ok && r->Ok_0 is XHttp
                &&& gives(q, "path"@, value) ==> c.path == value
                &&& lacks(q, "path"@) ==> c.path == "/"@
                &&& gives(q, "host"@, value) ==> c.host == Some(value)
                &&& lacks(q, "host"@) ==> c.host is None
                &&& c.mode is PacketUp <==> gives(q, "mode"@, "packet-up"@)
                &&& c.mode is StreamUp <==> gives(q, "mode"@, "stream-up"@)
            }
            &&& gives(q, "type"@, value) && value != "tcp"@ && value != "ws"@ && value != "grpc"@
                && value != "xhttp"@ ==> r is Err && r->Err_0 == ParseError::<
                Seq<char>,
                Seq<char>,
            >::InvalidValue { field: "type"@, value }
        }),
        pair.0 != "type"@ && pair.0 != "path"@ && pair.0 != "host"@ && pair.0 != "ed"@ && pair.0
            != "eh"@ && pair.0 != "serviceName"@ && pair.0 != "mode"@ ==> uri::query_transport(
            q.insert(i, pair),
        ) == uri::query_transport(q),
{
    law_the_last_pair_counts(q, "type"@);
    law_the_last_pair_counts(q, "path"@);
    law_the_last_pair_counts(q, "host"@);
    law_the_last_pair_counts(q, "ed"@);
    law_the_last_pair_counts(q, "eh"@);
    law_the_last_pair_counts(q, "serviceName"@);
    law_the_last_pair_counts(q, "mode"@);
    names::lemma_choice_names();
    reveal_strlit("");
    if pair.0 != "type"@ && pair.0 != "path"@ && pair.0 != "host"@ && pair.0 != "ed"@ && pair.0
        != "eh"@ && pair.0 != "serviceName"@ && pair.0 != "mode"@ {
        law_other_pairs_change_no_value(q, i, pair, "type"@);
        law_other_pairs_change_no_value(q, i, pair, "path"@);
        law_other_pairs_change_no_value(q, i, pair, "host"@);
        law_other_pairs_change_no_value(q, i, pair, "ed"@);
        law_other_pairs_change_no_value(q, i, pair, "eh"@);
        law_other_pairs_change_no_value(q, i, pair, "serviceName"@);
        law_other_pairs_change_no_value(q, i, pair, "mode"@);
    }
}

// ---------------------------------------------------------------------------
// Choices
// ---------------------------------------------------------------------------

/// A fingerprint is known by its browser's name, in whatever case; any other text asks
/// for none.
pub proof fn law_fingerprints_have_names(s: Seq<char>)
    ensures
        ({
            let f = uri::fingerprint(Some(s));
            let t = text::lower(s);
            &&& f is Chrome <==> t == "chrome"@
            &&& f is Firefox <==> t == "firefox"@
            &&& f is Safari <==> t == "safari"@
            &&& f is Edge <==> t == "edge"@
            &&& f is Randomized <==> t == "randomized"@ || t == "random"@
        }),
        uri::fingerprint(None) is Disabled,
{
    names::lemma_choice_names();
    reveal_strlit("");
    assert(text::lower(""@) =~= ""@);
}

/// A Shadowsocks method is known by its name, in whatever case; any other text is
/// refused.
pub proof fn law_methods_have_names(s: Seq<char>)
    ensures
        ({
            let r = uri::method_of(s);
            let m = r->Ok_0;
            let t = text::lower(s);
            &&& r is Ok && m is Aes128Gcm <==> t == "aes-128-gcm"@
            &&& r is Ok && m is Aes256Gcm <==> t == "aes-256-gcm"@
            &&& r is Ok && m is Chacha20IetfPoly1305 <==> t == "chacha20-ietf-poly1305"@
            &&& r is Ok && m is Ss2022Blake3Aes128Gcm <==> t == "2022-blake3-aes-128-gcm"@
            &&& r is Ok && m is Ss2022Blake3Aes256Gcm <==> t == "2022-blake3-aes-256-gcm"@
            &&& r is Ok && m is Ss2022Blake3Chacha20Poly1305 <==> t
                == "2022-blake3-chacha20-poly1305"@
            &&& r is Err ==> r->Err_0 == ParseError::<Seq<char>, Seq<char>>::InvalidValue {
                field: "method"@,
                value: t,
            }
        }),
{
    names::lemma_choice_names();
}

/// A VMess cipher, a congestion control, a relay mode and a flow are known by their
/// exact names; any other text is refused under the field's name.
pub proof fn law_choices_have_names(field: Seq<char>, s: Seq<char>)
    ensures
        ({
            let r = uri::cipher_of(field, s);
            &&& r is Ok && r->Ok_0 is Auto <==> s == "auto"@
            &&& r is Ok && r->Ok_0 is Aes128Gcm <==> s == "aes-128-gcm"@
            &&& r is Ok && r->Ok_0 is Chacha20Poly1305 <==> s == "chacha20-poly1305"@
            &&& r is Ok && r->Ok_0 is Plain <==> s == "none"@
            &&& r is Err ==> r->Err_0 == ParseError::<Seq<char>, Seq<char>>::InvalidValue {
                field,
                value: s,
            }
        }),
        ({
            let r = uri::congestion_of(field, s);
            &&& r is Ok && r->Ok_0 is Bbr <==> s == "bbr"@
            &&& r is Ok && r->Ok_0 is NewReno <==> s == "new_reno"@
            &&& r is Ok && r->Ok_0 is Cubic <==> s == "cubic"@
            &&& r is Err ==> r->Err_0 == ParseError::<Seq<char>, Seq<char>>::InvalidValue {
                field,
                value: s,
            }
        }),
        ({
            let r = uri::relay_of(field, s);
            &&& r is Ok && r->Ok_0 is Native <==> s == "native"@
            &&& r is Ok && r->Ok_0 is Quic <==> s == "quic"@
            &&& r is Err ==> r->Err_0 == ParseError::<Seq<char>, Seq<char>>::InvalidValue {
                field,
                value: s,
            }
        }),
        ({
            let r = uri::flow_of(Some(s));
            &&& r is Ok && r->Ok_0 == Some(VlessFlow::XtlsRprxVision) <==> s == "xtls-rprx-vision"@
            &&& r is Ok && r->Ok_0 == Some(VlessFlow::XtlsRprxVisionUdp443) <==> s
                == "xtls-rprx-vision-udp443"@
            &&& r is Ok && r->Ok_0 is None <==> s.len() == 0
            &&& r is Err ==> r->Err_0 == ParseError::<Seq<char>, Seq<char>>::InvalidValue {
                field: "flow"@,
                value: s,
            }
        }),
        uri::flow_of(None) is Ok && uri::flow_of(None)->Ok_0 is None,
{
    names::lemma_choice_names();
    reveal_strlit("xtls-rprx-vision");
    reveal_strlit("xtls-rprx-vision-udp443");
}

/// A list holds the texts between commas, in order, without the empty ones: a text
/// without commas is listed alone, and what follows a comma is listed after what
/// precedes it.
pub proof fn law_lists_are_taken_apart_at_commas(a: Seq<char>, b: Seq<char>)
    requires
        forall|i: int| 0 <= i < a.len() ==> a[i] != ',',
    ensures
        a.len() > 0 ==> uri::csv(Some(a)) == seq![a],
        a.len() == 0 ==> uri::csv(Some(a)).len() == 0,
        uri::csv(Some(a + seq![','] + b)) == uri::csv(Some(a)) + uri::csv(Some(b)),
        uri::csv(None).len() == 0,
{
    let keep = |part: Seq<char>| part.len() > 0;
    lemma_lone_field(a);
    let none = Seq::<Seq<char>>::empty();
    assert(seq![a].drop_last() =~= none);
    reveal_with_fuel(Seq::filter, 2);
    if a.len() > 0 {
        assert(seq![a].filter(keep) =~= seq![a]);
    }
    let s = a + seq![','] + b;
    lemma_first_field(a, b);
    assert(text::fields(s, ',') =~= seq![a] + text::fields(b, ','));
    Seq::filter_distributes_over_add(seq![a], text::fields(b, ','), keep);
    reveal_strlit("");
    lemma_lone_field(""@);
    assert(seq![""@].drop_last() =~= none);
}

proof fn lemma_lone_field(a: Seq<char>)
    requires
        forall|i: int| 0 <= i < a.len() ==> a[i] != ',',
    ensures
        text::fields(a, ',') == seq![a],
{
    text::lemma_next_char(a, ',', 0);
}

proof fn lemma_first_field(a: Seq<char>, b: Seq<char>)
    requires
        forall|i: int| 0 <= i < a.len() ==> a[i] != ',',
    ensures
        text::fields(a + seq![','] + b, ',') == seq![a] + text::fields(b, ','),
{
    let s = a + seq![','] + b;
    text::lemma_next_char(s, ',', 0);
    let end = text::next_char(s, ',', 0);
    assert(s[a.len() as int] == ',');
    if end < a.len() {
        assert(s[end] == a[end]);
    }
    assert(end == a.len());
    assert(s.take(end) =~= a);
    assert(s.skip(end + 1) =~= b);
}

} // verus!
