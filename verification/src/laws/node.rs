//! What making nodes promises.
use crate::ip;
use crate::ip::IpView;
use crate::ir::node;
use crate::ir::node::{EndpointTarget, EndpointView, NodeError, NodeMetadata};
use crate::ir::protocol::ProtocolSpec;
use crate::ir::transport::{MuxSpec, SecuritySpec, TransportSpec};
use crate::laws;
use crate::text;
use vstd::prelude::*;

verus! {

/// `h` is what stands in `s` from `i` to `j`, in lower case: before it there is only
/// white space, after it only dots up to `k` and from there only white space.
pub open spec fn is_bare(h: Seq<char>, s: Seq<char>, i: int, j: int, k: int) -> bool {
    &&& 0 <= i <= j <= k <= s.len()
    &&& h.len() == j - i
    &&& forall|x: int| 0 <= x < j - i ==> #[trigger] h[x] == text::lower_char(s[i + x])
    &&& forall|x: int| 0 <= x < i || k <= x < s.len() ==> text::is_space(#[trigger] s[x])
    &&& forall|x: int| j <= x < k ==> #[trigger] s[x] == '.'
    &&& j > i ==> s[j - 1] != '.'
    &&& k > i ==> !text::is_space(s[i]) && !text::is_space(s[k - 1])
}

/// A host name enters a node without the white space around it and the dots after it,
/// in lower case, and otherwise as it is.
pub proof fn law_host_names_are_laid_bare(s: Seq<char>)
    ensures
        exists|i: int, j: int, k: int| is_bare(node::clean_host(s), s, i, j, k),
{
    laws::text::law_trimming_takes_white_space_off_the_ends(s);
    let t = text::trim(s);
    let (i, k) = choose|a: int, b: int|
        {
            &&& 0 <= a <= b <= s.len()
            &&& t == #[trigger] s.subrange(a, b)
            &&& forall|x: int| 0 <= x < a || b <= x < s.len() ==> text::is_space(#[trigger] s[x])
        };
    let n = lemma_dots(t);
    let h = node::clean_host(s);
    let j = i + n;
    assert forall|x: int| 0 <= x < j - i implies #[trigger] h[x] == text::lower_char(s[i + x]) by {
        assert(t[x] == s[i + x]);
    }
    assert forall|x: int| j <= x < k implies #[trigger] s[x] == '.' by {
        assert(t[x - i] == s[x]);
    }
    assert(is_bare(h, s, i, j, k));
}

proof fn lemma_dots(s: Seq<char>) -> (n: int)
    ensures
        0 <= n <= s.len(),
        node::strip_dots(s) == s.take(n),
        forall|x: int| n <= x < s.len() ==> #[trigger] s[x] == '.',
        n > 0 ==> s[n - 1] != '.',
    decreases s.len(),
{
    if s.len() > 0 && s.last() == '.' {
        let n = lemma_dots(s.drop_last());
        assert(s.take(n) =~= s.drop_last().take(n));
        assert forall|x: int| n <= x < s.len() implies #[trigger] s[x] == '.' by {
            if x < s.len() - 1 {
                assert(s.drop_last()[x] == s[x]);
            }
        }
        n
    } else {
        assert(s.take(s.len() as int) =~= s);
        s.len() as int
    }
}

/// An endpoint with the port zero is refused. One with a name is refused if the bare
/// name is empty, longer than 253 bytes, or holds a slash or white space, and if it is
/// an address. Any other endpoint keeps its port, and its address or bare name.
pub proof fn law_endpoints_are_checked(e: EndpointView)
    ensures
        ({
            let r = node::normalized_endpoint(e);
            match e {
                EndpointTarget::Ip(addr) => {
                    &&& addr.port == 0 ==> r is Err && r->Err_0 is ZeroPort
                    &&& addr.port != 0 ==> r is Ok && r->Ok_0 == e
                },
                EndpointTarget::Domain { host, port } => {
                    let h = node::clean_host(host);
                    let bad = h.len() == 0 || vstd::utf8::encode_utf8(h).len() >= 254 || (exists|
                        i: int,
                    |
                        0 <= i < h.len() && #[trigger] h[i] == '/') || (exists|i: int|
                        0 <= i < h.len() && text::is_space(#[trigger] h[i]));
                    &&& port == 0 ==> r is Err && r->Err_0 is ZeroPort
                    &&& port != 0 && bad ==> r is Err && r->Err_0 is InvalidHostname
                    &&& port != 0 && !bad && ip::ip_value(h) is Some ==> r is Err
                        && r->Err_0 is AddressAsHostname
                    &&& port != 0 && !bad && ip::ip_value(h) is None ==> r is Ok
                        && r->Ok_0 is Domain && r->Ok_0->Domain_host == h && r->Ok_0->Domain_port
                        == port
                },
            }
        }),
{
}

/// A node can be made exactly if its endpoint is good. It has the metadata, protocol,
/// transport and security that it was made of, and multiplexing exactly where that is
/// switched on.
pub proof fn law_nodes_are_what_they_are_made_of(
    meta: NodeMetadata<Seq<char>>,
    endpoint: EndpointView,
    protocol: ProtocolSpec<Seq<char>, Seq<IpView>>,
    transport: TransportSpec<Seq<char>>,
    security: SecuritySpec<Seq<char>, Seq<Seq<char>>>,
    mux: Option<MuxSpec>,
)
    ensures
        ({
            let r = node::canonical_node(meta, endpoint, protocol, transport, security, mux);
            let n = r->Ok_0;
            &&& r is Ok <==> node::normalized_endpoint(endpoint) is Ok
            &&& r is Err ==> r->Err_0 == node::normalized_endpoint(endpoint)->Err_0
            &&& r is Ok ==> n.meta == meta && n.endpoint == node::normalized_endpoint(
                endpoint,
            )->Ok_0 && n.protocol == protocol && n.transport == transport && n.security == security
            &&& r is Ok && mux is Some && mux->0.enabled ==> n.mux == mux
            &&& r is Ok && mux is Some && !mux->0.enabled ==> n.mux is None
            &&& r is Ok && mux is None ==> n.mux is None
        }),
{
}

} // verus!
