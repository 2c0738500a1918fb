//! Nodes: an endpoint, how to reach it, and the hash of that identity.
use crate::ip;
use crate::ip::{IpView, SocketAddr, SocketView};
use crate::ir::encoding;
use crate::ir::protocol::ProtocolSpec;
use crate::ir::transport::{MuxSpec, SecuritySpec, TransportSpec};
use crate::text;
use vstd::prelude::*;
use vstd::string::*;

verus! {

pub type NodeId = u32;

pub type SubId = u16;

pub type CanonicalHash = [u8; 32];

/// Increment when the functional identity encoding changes incompatibly.
pub const CANONICAL_HASH_VERSION: u8 = 1;

/// Why a node cannot be made.
#[derive(Clone, Copy, Debug, PartialEq, Eq, Structural)]
pub enum NodeError {
    CountryCode,
    ZeroPort,
    InvalidHostname,
    AddressAsHostname,
}

impl NodeError {
    pub open spec fn text(self) -> Seq<char> {
        match self {
            NodeError::CountryCode => "country code must use uppercase ASCII letters"@,
            NodeError::ZeroPort => "endpoint port cannot be zero"@,
            NodeError::InvalidHostname => "invalid endpoint hostname"@,
            NodeError::AddressAsHostname => "IP addresses must use EndpointTarget::Ip"@,
        }
    }

    /// The message for a user.
    pub fn message(self) -> (r: &'static str)
        ensures
            r@ == self.text(),
    {
        match self {
            NodeError::CountryCode => "country code must use uppercase ASCII letters",
            NodeError::ZeroPort => "endpoint port cannot be zero",
            NodeError::InvalidHostname => "invalid endpoint hostname",
            NodeError::AddressAsHostname => "IP addresses must use EndpointTarget::Ip",
        }
    }
}

/// A node in canonical form.
#[derive(Clone, Debug, PartialEq, Eq)]
pub struct CanonicalNode {
    pub hash: CanonicalHash,
    pub meta: NodeMetadata,
    pub endpoint: EndpointTarget,
    pub protocol: ProtocolSpec,
    pub transport: TransportSpec,
    pub security: SecuritySpec,
    pub mux: Option<MuxSpec>,
}

/// What a node is called and where it came from.
#[derive(Clone, Debug, PartialEq, Eq)]
pub struct NodeMetadata<T = String> {
    pub sub_id: SubId,
    pub label: T,
    pub country_code: [u8; 2],
    pub import_timestamp: u64,
}

/// The server of a node.
#[derive(Clone, Debug, PartialEq, Eq)]
pub enum EndpointTarget<T = String, S = SocketAddr> {
    Ip(S),
    Domain { host: T, port: u16 },
}

/// The model of a server.
pub type EndpointView = EndpointTarget<Seq<char>, SocketView>;

/// The model of a node.
pub struct NodeView {
    pub hash: Seq<u8>,
    pub meta: NodeMetadata<Seq<char>>,
    pub endpoint: EndpointView,
    pub protocol: ProtocolSpec<Seq<char>, Seq<IpView>>,
    pub transport: TransportSpec<Seq<char>>,
    pub security: SecuritySpec<Seq<char>, Seq<Seq<char>>>,
    pub mux: Option<MuxSpec>,
}

impl View for NodeMetadata {
    type V = NodeMetadata<Seq<char>>;

    open spec fn view(&self) -> NodeMetadata<Seq<char>> {
        NodeMetadata {
            sub_id: self.sub_id,
            label: self.label@,
            country_code: self.country_code,
            import_timestamp: self.import_timestamp,
        }
    }
}

impl View for EndpointTarget {
    type V = EndpointTarget<Seq<char>, SocketView>;

    open spec fn view(&self) -> EndpointTarget<Seq<char>, SocketView> {
        match *self {
            EndpointTarget::Ip(addr) => EndpointTarget::Ip(addr@),
            EndpointTarget::Domain { host, port } => EndpointTarget::Domain { host: host@, port },
        }
    }
}

impl View for CanonicalNode {
    type V = NodeView;

    open spec fn view(&self) -> NodeView {
        NodeView {
            hash: self.hash@,
            meta: self.meta@,
            endpoint: self.endpoint@,
            protocol: self.protocol@,
            transport: self.transport@,
            security: self.security@,
            mux: self.mux,
        }
    }
}

// ---------------------------------------------------------------------------
// Model
// ---------------------------------------------------------------------------

/// Both bytes are upper-case ASCII letters.
pub open spec fn is_country_code(code: [u8; 2]) -> bool {
    65 <= code[0] <= 90 && 65 <= code[1] <= 90
}

/// `s` without trailing dots.
pub open spec fn strip_dots(s: Seq<char>) -> Seq<char>
    decreases s.len(),
{
    if s.len() > 0 && s.last() == '.' {
        strip_dots(s.drop_last())
    } else {
        s
    }
}

/// A host name as it enters the identity: trimmed, without trailing dots, in
/// ASCII lower case.
pub open spec fn clean_host(s: Seq<char>) -> Seq<char> {
    text::lower(strip_dots(text::trim(s)))
}

/// The clean name cannot be a host name.
pub open spec fn is_bad_host(h: Seq<char>) -> bool {
    ||| h.len() == 0
    ||| vstd::utf8::encode_utf8(h).len() > 253
    ||| exists|i: int| 0 <= i < h.len() && (h[i] == '/' || text::is_space(h[i]))
}

/// The normal form of a host name.
pub open spec fn normalized_host(s: Seq<char>) -> Result<Seq<char>, NodeError> {
    let h = clean_host(s);
    if is_bad_host(h) {
        Err(NodeError::InvalidHostname)
    } else if ip::ip_value(h) is Some {
        Err(NodeError::AddressAsHostname)
    } else {
        Ok(h)
    }
}

/// The endpoint for a host name and a port.
pub open spec fn domain_endpoint(host: Seq<char>, port: u16) -> Result<
    EndpointView,
    NodeError,
> {
    if port == 0 {
        Err(NodeError::ZeroPort)
    } else {
        match normalized_host(host) {
            Ok(h) => Ok(EndpointTarget::Domain { host: h, port }),
            Err(e) => Err(e),
        }
    }
}

/// The normal form of an endpoint.
pub open spec fn normalized_endpoint(e: EndpointView) -> Result<
    EndpointView,
    NodeError,
> {
    match e {
        EndpointTarget::Ip(addr) => if addr.port == 0 {
            Err(NodeError::ZeroPort)
        } else {
            Ok(e)
        },
        EndpointTarget::Domain { host, port } => domain_endpoint(host, port),
    }
}

/// Multiplexing that is switched off is no multiplexing.
pub open spec fn active_mux(mux: Option<MuxSpec>) -> Option<MuxSpec> {
    match mux {
        Some(m) if m.enabled => Some(m),
        _ => None,
    }
}

/// The hash of a functional identity.
pub open spec fn identity_hash(
    endpoint: EndpointView,
    protocol: ProtocolSpec<Seq<char>, Seq<IpView>>,
    transport: TransportSpec<Seq<char>>,
    security: SecuritySpec<Seq<char>, Seq<Seq<char>>>,
    mux: Option<MuxSpec>,
) -> Seq<u8> {
    encoding::sha256_of(
        encoding::identity_bytes(
            CANONICAL_HASH_VERSION,
            endpoint,
            protocol,
            transport,
            security,
            mux,
        ),
    )
}

/// The node made of the given parts.
pub open spec fn canonical_node(
    meta: NodeMetadata<Seq<char>>,
    endpoint: EndpointView,
    protocol: ProtocolSpec<Seq<char>, Seq<IpView>>,
    transport: TransportSpec<Seq<char>>,
    security: SecuritySpec<Seq<char>, Seq<Seq<char>>>,
    mux: Option<MuxSpec>,
) -> Result<NodeView, NodeError> {
    match normalized_endpoint(endpoint) {
        Err(e) => Err(e),
        Ok(target) => Ok(
            NodeView {
                hash: identity_hash(target, protocol, transport, security, active_mux(mux)),
                meta,
                endpoint: target,
                protocol,
                transport,
                security,
                mux: active_mux(mux),
            },
        ),
    }
}

/// The outcome of making a node, as its model.
pub open spec fn node_result(r: Result<CanonicalNode, NodeError>) -> Result<NodeView, NodeError> {
    match r {
        Ok(n) => Ok(n@),
        Err(e) => Err(e),
    }
}

/// The outcome of making an endpoint, as its model.
pub open spec fn endpoint_result(r: Result<EndpointTarget, NodeError>) -> Result<
    EndpointView,
    NodeError,
> {
    match r {
        Ok(e) => Ok(e@),
        Err(e) => Err(e),
    }
}

/// The hash of a node is the hash of its functional identity, its endpoint is in
/// normal form, and multiplexing that is there is switched on.
pub open spec fn is_canonical(n: NodeView) -> bool {
    &&& normalized_endpoint(n.endpoint) == Ok::<_, NodeError>(n.endpoint)
    &&& active_mux(n.mux) == n.mux
    &&& n.hash == identity_hash(n.endpoint, n.protocol, n.transport, n.security, n.mux)
}

// ---------------------------------------------------------------------------
// Laws
// ---------------------------------------------------------------------------

/// Normalizing a host name that is in normal form changes nothing.
pub proof fn law_host_normalization_is_idempotent(s: Seq<char>)
    requires
        normalized_host(s) is Ok,
    ensures
        normalized_host(normalized_host(s)->Ok_0) == normalized_host(s),
{
    let h = clean_host(s);
    lemma_no_space_trims_to_itself(h);
    let stripped = strip_dots(text::trim(s));
    lemma_strip_dots(text::trim(s));
    assert(h.len() == stripped.len());
    assert(h.last() == text::lower_char(stripped.last()));
    assert(strip_dots(h) == h);
    assert(text::lower(h) =~= h);
}

/// Normalizing an endpoint that is in normal form changes nothing.
pub proof fn law_endpoint_normalization_is_idempotent(e: EndpointView)
    requires
        normalized_endpoint(e) is Ok,
    ensures
        normalized_endpoint(normalized_endpoint(e)->Ok_0) == normalized_endpoint(e),
{
    if let EndpointTarget::Domain { host, port } = e {
        law_host_normalization_is_idempotent(host);
    }
}

/// Every node that can be made is canonical.
pub proof fn law_made_nodes_are_canonical(
    meta: NodeMetadata<Seq<char>>,
    endpoint: EndpointView,
    protocol: ProtocolSpec<Seq<char>, Seq<IpView>>,
    transport: TransportSpec<Seq<char>>,
    security: SecuritySpec<Seq<char>, Seq<Seq<char>>>,
    mux: Option<MuxSpec>,
)
    requires
        canonical_node(meta, endpoint, protocol, transport, security, mux) is Ok,
    ensures
        is_canonical(canonical_node(meta, endpoint, protocol, transport, security, mux)->Ok_0),
{
    law_endpoint_normalization_is_idempotent(endpoint);
}

/// Two nodes with the same functional identity have the same hash, whatever
/// their labels, subscriptions, countries and import times are.
pub proof fn law_metadata_does_not_change_the_hash(
    first: NodeMetadata<Seq<char>>,
    second: NodeMetadata<Seq<char>>,
    endpoint: EndpointView,
    protocol: ProtocolSpec<Seq<char>, Seq<IpView>>,
    transport: TransportSpec<Seq<char>>,
    security: SecuritySpec<Seq<char>, Seq<Seq<char>>>,
    mux: Option<MuxSpec>,
)
    requires
        canonical_node(first, endpoint, protocol, transport, security, mux) is Ok,
    ensures
        canonical_node(second, endpoint, protocol, transport, security, mux) is Ok,
        canonical_node(first, endpoint, protocol, transport, security, mux)->Ok_0.hash
            == canonical_node(second, endpoint, protocol, transport, security, mux)->Ok_0.hash,
{
}

/// Two spellings of a host name with one normal form give one hash.
pub proof fn law_hostnames_are_normalized_before_hashing(
    meta: NodeMetadata<Seq<char>>,
    first: Seq<char>,
    second: Seq<char>,
    port: u16,
    protocol: ProtocolSpec<Seq<char>, Seq<IpView>>,
    transport: TransportSpec<Seq<char>>,
    security: SecuritySpec<Seq<char>, Seq<Seq<char>>>,
    mux: Option<MuxSpec>,
)
    requires
        clean_host(first) == clean_host(second),
    ensures
        canonical_node(
            meta,
            EndpointTarget::Domain { host: first, port },
            protocol,
            transport,
            security,
            mux,
        ) == canonical_node(
            meta,
            EndpointTarget::Domain { host: second, port },
            protocol,
            transport,
            security,
            mux,
        ),
{
}

/// Multiplexing that is switched off is not a distinct identity.
pub proof fn law_disabled_mux_is_not_a_distinct_identity(
    meta: NodeMetadata<Seq<char>>,
    endpoint: EndpointView,
    protocol: ProtocolSpec<Seq<char>, Seq<IpView>>,
    transport: TransportSpec<Seq<char>>,
    security: SecuritySpec<Seq<char>, Seq<Seq<char>>>,
    mux: MuxSpec,
)
    requires
        !mux.enabled,
    ensures
        canonical_node(meta, endpoint, protocol, transport, security, Some(mux)) == canonical_node(
            meta,
            endpoint,
            protocol,
            transport,
            security,
            None,
        ),
{
}

proof fn lemma_no_space_trims_to_itself(s: Seq<char>)
    requires
        forall|i: int| 0 <= i < s.len() ==> !text::is_space(#[trigger] s[i]),
    ensures
        text::trim(s) == s,
{
    if s.len() > 0 {
        assert(!text::is_space(s[0]));
        assert(!text::is_space(s[s.len() - 1]));
    }
}

proof fn lemma_strip_dots(s: Seq<char>)
    ensures
        strip_dots(s).len() <= s.len(),
        strip_dots(s).len() > 0 ==> strip_dots(s).last() != '.',
    decreases s.len(),
{
    if s.len() > 0 && s.last() == '.' {
        lemma_strip_dots(s.drop_last());
    }
}

// ---------------------------------------------------------------------------
// Executable forms
// ---------------------------------------------------------------------------

/// Brings a host name into normal form.
pub fn normalize_host(host: &str) -> (r: Result<String, NodeError>)
    ensures
        (match r {
            Ok(h) => normalized_host(host@) == Ok::<_, NodeError>(h@),
            Err(e) => normalized_host(host@) == Err::<Seq<char>, _>(e),
        }),
{
    let chars = text::to_chars(host);
    let trimmed = text::trim_chars(&chars);
    let mut n: usize = trimmed.len();
    assert(trimmed@.take(n as int) =~= trimmed@);
    while n > 0 && trimmed[n - 1] == '.'
        invariant
            n <= trimmed@.len(),
            strip_dots(trimmed@) == strip_dots(trimmed@.take(n as int)),
        decreases n,
    {
        assert(trimmed@.take(n as int).drop_last() =~= trimmed@.take(n - 1));
        n -= 1;
    }
    let kept = vstd::slice::slice_subrange(trimmed, 0, n);
    assert(kept@ =~= trimmed@.take(n as int));
    let clean = text::lower_chars(kept);
    let h = text::from_chars(&clean);
    if clean.len() == 0 || h.as_str().as_bytes().len() > 253 {
        return Err(NodeError::InvalidHostname);
    }
    let mut i: usize = 0;
    while i < clean.len()
        invariant
            i <= clean@.len(),
            clean@ == clean_host(host@),
            forall|k: int|
                0 <= k < i ==> #[trigger] clean@[k] != '/' && !text::is_space(clean@[k]),
        decreases clean@.len() - i,
    {
        if clean[i] == '/' || text::is_space_char(clean[i]) {
            return Err(NodeError::InvalidHostname);
        }
        i += 1;
    }
    if ip::read_ip(h.as_str()).is_some() {
        return Err(NodeError::AddressAsHostname);
    }
    Ok(h)
}

impl NodeMetadata {
    pub fn new(sub_id: SubId, label: &str, country_code: [u8; 2], import_timestamp: u64) -> (r:
        Result<NodeMetadata, NodeError>)
        ensures
            (match r {
                Ok(meta) => is_country_code(country_code) && meta@ == (NodeMetadata {
                    sub_id,
                    label: label@,
                    country_code,
                    import_timestamp,
                }),
                Err(e) => !is_country_code(country_code) && e == NodeError::CountryCode,
            }),
    {
        let first = country_code[0];
        let second = country_code[1];
        if first < 65 || first > 90 || second < 65 || second > 90 {
            return Err(NodeError::CountryCode);
        }
        Ok(NodeMetadata { sub_id, label: label.to_owned(), country_code, import_timestamp })
    }
}

impl EndpointTarget {
    pub fn ip(address: SocketAddr) -> (r: EndpointTarget)
        ensures
            r@ == EndpointTarget::<Seq<char>, SocketView>::Ip(address@),
    {
        EndpointTarget::Ip(address)
    }

    pub fn domain(host: &str, port: u16) -> (r: Result<EndpointTarget, NodeError>)
        ensures
            endpoint_result(r) == domain_endpoint(host@, port),
    {
        if port == 0 {
            return Err(NodeError::ZeroPort);
        }
        match normalize_host(host) {
            Ok(host) => Ok(EndpointTarget::Domain { host, port }),
            Err(e) => Err(e),
        }
    }

    pub fn normalize(&self) -> (r: Result<EndpointTarget, NodeError>)
        ensures
            endpoint_result(r) == normalized_endpoint(self@),
    {
        match self {
            EndpointTarget::Ip(address) => {
                if address.port != 0 {
                    Ok(EndpointTarget::Ip(*address))
                } else {
                    Err(NodeError::ZeroPort)
                }
            },
            EndpointTarget::Domain { host, port } => EndpointTarget::domain(host.as_str(), *port),
        }
    }
}

impl CanonicalNode {
    pub fn try_new(
        meta: NodeMetadata,
        endpoint: EndpointTarget,
        protocol: ProtocolSpec,
        transport: TransportSpec,
        security: SecuritySpec,
        mux: Option<MuxSpec>,
    ) -> (r: Result<CanonicalNode, NodeError>)
        ensures
            node_result(r) == canonical_node(
                meta@,
                endpoint@,
                protocol@,
                transport@,
                security@,
                mux,
            ),
    {
        let endpoint = match endpoint.normalize() {
            Ok(e) => e,
            Err(e) => return Err(e),
        };
        let mux = match mux {
            Some(m) => if m.enabled {
                Some(m)
            } else {
                None
            },
            None => None,
        };
        let bytes = encoding::encode_identity(
            CANONICAL_HASH_VERSION,
            &endpoint,
            &protocol,
            &transport,
            &security,
            &mux,
        );
        let hash = encoding::sha256(&bytes);
        Ok(CanonicalNode { hash, meta, endpoint, protocol, transport, security, mux })
    }

    pub fn functional_identity_bytes(&self) -> (r: Vec<u8>)
        ensures
            r@ == encoding::identity_bytes(
                CANONICAL_HASH_VERSION,
                self@.endpoint,
                self@.protocol,
                self@.transport,
                self@.security,
                self@.mux,
            ),
    {
        encoding::encode_identity(
            CANONICAL_HASH_VERSION,
            &self.endpoint,
            &self.protocol,
            &self.transport,
            &self.security,
            &self.mux,
        )
    }

    pub fn hash_hex(&self) -> (r: String)
        ensures
            r@ == text::hex_bytes(self@.hash),
    {
        text::hex_text_of_bytes(&self.hash)
    }
}

} // verus!
