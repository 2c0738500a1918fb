//! Sessions of controllers, validation of what they ask, and the watchdog.
use crate::ip;
use crate::ip::IpAddr;
use crate::netd::cidr;
use crate::netd::proto::{
    NetdRequest, NetdResponse, PROTOCOL_VERSION, WATCHDOG_POLL_SECS, WATCHDOG_TIMEOUT_SECS,
};
use crate::text;
use crate::time;
use crate::time::{Duration, Instant};
use vstd::prelude::*;
use vstd::string::*;

verus! {

/// An IPv4 subnet: an address and the length of its prefix.
#[derive(Clone, Copy, Debug, PartialEq, Eq)]
pub struct Ipv4Net {
    pub addr: [u8; 4],
    pub prefix_len: u8,
}

/// An IPv6 subnet: an address and the length of its prefix.
#[derive(Clone, Copy, Debug, PartialEq, Eq)]
pub struct Ipv6Net {
    pub addr: [u16; 8],
    pub prefix_len: u8,
}

impl View for Ipv4Net {
    type V = (Seq<u8>, u8);

    open spec fn view(&self) -> (Seq<u8>, u8) {
        (self.addr@, self.prefix_len)
    }
}

impl View for Ipv6Net {
    type V = (Seq<u16>, u8);

    open spec fn view(&self) -> (Seq<u16>, u8) {
        (self.addr@, self.prefix_len)
    }
}

/// The text of an IPv4 subnet.
pub open spec fn net4_text(n: (Seq<u8>, u8)) -> Seq<char> {
    ip::ipv4_text(n.0) + "/"@ + text::decimal(n.1 as nat)
}

/// The text of an IPv6 subnet.
pub open spec fn net6_text(n: (Seq<u16>, u8)) -> Seq<char> {
    ip::ipv6_text(n.0) + "/"@ + text::decimal(n.1 as nat)
}

/// `ipnet::Ipv4Net::from_str`: four dotted numbers of up to three digits and at most
/// 255, a slash and a number of up to two digits and at most 32. The address is kept
/// as it was written, whatever the prefix length.
#[verifier::external_body]
fn parse_ipv4_net(s: &str) -> (r: Option<Ipv4Net>)
    ensures
        (match r {
            Some(n) => cidr::ipv4_net(s@) == Some(n@),
            None => cidr::ipv4_net(s@) is None,
        }),
{
    let net: ipnet::Ipv4Net = s.parse().ok()?;
    Some(Ipv4Net { addr: net.addr().octets(), prefix_len: net.prefix_len() })
}

/// `ipnet::Ipv6Net::from_str`: an address of eight segments, written with or without a
/// double colon and a dotted end, a slash and a number of up to three digits and at
/// most 128. The double colon may stand for no segment at all. The address is kept as
/// it was written, whatever the prefix length.
#[verifier::external_body]
fn parse_ipv6_net(s: &str) -> (r: Option<Ipv6Net>)
    ensures
        (match r {
            Some(n) => cidr::ipv6_net(s@) == Some(n@),
            None => cidr::ipv6_net(s@) is None,
        }),
{
    let net: ipnet::Ipv6Net = s.parse().ok()?;
    Some(Ipv6Net { addr: net.addr().segments(), prefix_len: net.prefix_len() })
}

impl Ipv4Net {
    /// The text of the subnet.
    pub fn to_text(&self) -> (r: String)
        ensures
            r@ == net4_text(self@),
    {
        let mut r = IpAddr::V4(self.addr).to_text();
        r.append("/");
        r.append(text::decimal_text(self.prefix_len as u64).as_str());
        r
    }
}

impl Ipv6Net {
    /// The text of the subnet.
    pub fn to_text(&self) -> (r: String)
        ensures
            r@ == net6_text(self@),
    {
        let mut r = IpAddr::V6(self.addr).to_text();
        r.append("/");
        r.append(text::decimal_text(self.prefix_len as u64).as_str());
        r
    }
}

/// A validated routing configuration. `A` and `B` are lists of subnets.
#[derive(Clone, Debug, PartialEq, Eq)]
pub struct RoutingConfig<A = Vec<Ipv4Net>, B = Vec<Ipv6Net>> {
    pub tproxy_port: u16,
    pub proxy_fwmark: u32,
    pub table_id: u32,
    pub dns_ipv4: Option<[u8; 4]>,
    pub bypass_subnets: A,
    pub bypass_subnets_v6: B,
    pub core_uid: Option<u32>,
}

/// The model of a routing configuration.
pub type RoutingView = RoutingConfig<Seq<(Seq<u8>, u8)>, Seq<(Seq<u16>, u8)>>;

impl View for RoutingConfig {
    type V = RoutingConfig<Seq<(Seq<u8>, u8)>, Seq<(Seq<u16>, u8)>>;

    open spec fn view(&self) -> RoutingConfig<Seq<(Seq<u8>, u8)>, Seq<(Seq<u16>, u8)>> {
        RoutingConfig {
            tproxy_port: self.tproxy_port,
            proxy_fwmark: self.proxy_fwmark,
            table_id: self.table_id,
            dns_ipv4: self.dns_ipv4,
            bypass_subnets: self.bypass_subnets@.map_values(|n: Ipv4Net| n@),
            bypass_subnets_v6: self.bypass_subnets_v6@.map_values(|n: Ipv6Net| n@),
            core_uid: self.core_uid,
        }
    }
}

/// Why the daemon refuses something.
#[derive(Clone, Debug, PartialEq, Eq)]
pub enum DaemonError<T = String> {
    VersionMismatch,
    HandshakeRequired,
    HandshakeRepeated,
    NotOwner,
    AnotherController,
    Port,
    Mark,
    Table,
    DnsAddress,
    TooManySubnets,
    InvalidSubnet(T),
    InvalidSubnetV6(T),
    DefaultRoute,
    /// The backend failed, for the given reason.
    Backend(T),
    AllowedUidMissing,
    AllowedUidNotNumeric,
    UidNotAuthorized,
}

/// The model of an error.
pub type FaultView = DaemonError<Seq<char>>;

impl View for DaemonError {
    type V = DaemonError<Seq<char>>;

    open spec fn view(&self) -> DaemonError<Seq<char>> {
        match *self {
            DaemonError::VersionMismatch => DaemonError::VersionMismatch,
            DaemonError::HandshakeRequired => DaemonError::HandshakeRequired,
            DaemonError::HandshakeRepeated => DaemonError::HandshakeRepeated,
            DaemonError::NotOwner => DaemonError::NotOwner,
            DaemonError::AnotherController => DaemonError::AnotherController,
            DaemonError::Port => DaemonError::Port,
            DaemonError::Mark => DaemonError::Mark,
            DaemonError::Table => DaemonError::Table,
            DaemonError::DnsAddress => DaemonError::DnsAddress,
            DaemonError::TooManySubnets => DaemonError::TooManySubnets,
            DaemonError::InvalidSubnet(s) => DaemonError::InvalidSubnet(s@),
            DaemonError::InvalidSubnetV6(s) => DaemonError::InvalidSubnetV6(s@),
            DaemonError::DefaultRoute => DaemonError::DefaultRoute,
            DaemonError::Backend(s) => DaemonError::Backend(s@),
            DaemonError::AllowedUidMissing => DaemonError::AllowedUidMissing,
            DaemonError::AllowedUidNotNumeric => DaemonError::AllowedUidNotNumeric,
            DaemonError::UidNotAuthorized => DaemonError::UidNotAuthorized,
        }
    }
}

/// The message of an error.
pub open spec fn fault_text(e: FaultView) -> Seq<char> {
    match e {
        DaemonError::VersionMismatch => "protocol version mismatch"@,
        DaemonError::HandshakeRequired => "handshake is required before other requests"@,
        DaemonError::HandshakeRepeated => "handshake may only be sent once"@,
        DaemonError::NotOwner => "session does not own the controller"@,
        DaemonError::AnotherController => "another controller session is already active"@,
        DaemonError::Port => "tproxy port must be between 1024 and 65535"@,
        DaemonError::Mark => "proxy firewall mark is outside the supported range"@,
        DaemonError::Table => "routing table must be between 1 and 252"@,
        DaemonError::DnsAddress => "DNS address is not routable"@,
        DaemonError::TooManySubnets => "too many bypass subnets"@,
        DaemonError::InvalidSubnet(s) => "invalid IPv4 subnet: "@ + s,
        DaemonError::InvalidSubnetV6(s) => "invalid IPv6 subnet: "@ + s,
        DaemonError::DefaultRoute => "the default route cannot be a bypass subnet"@,
        DaemonError::Backend(s) => s,
        DaemonError::AllowedUidMissing =>
            "MYPROXY_NETD_ALLOWED_UID must be configured for non-root clients"@,
        DaemonError::AllowedUidNotNumeric => "MYPROXY_NETD_ALLOWED_UID is not numeric"@,
        DaemonError::UidNotAuthorized => "client UID is not authorized"@,
    }
}

impl DaemonError {
    /// The message for a user.
    pub fn message(&self) -> (r: String)
        ensures
            r@ == fault_text(self@),
    {
        match self {
            DaemonError::VersionMismatch => "protocol version mismatch".to_owned(),
            DaemonError::HandshakeRequired =>
                "handshake is required before other requests".to_owned(),
            DaemonError::HandshakeRepeated => "handshake may only be sent once".to_owned(),
            DaemonError::NotOwner => "session does not own the controller".to_owned(),
            DaemonError::AnotherController =>
                "another controller session is already active".to_owned(),
            DaemonError::Port => "tproxy port must be between 1024 and 65535".to_owned(),
            DaemonError::Mark => "proxy firewall mark is outside the supported range".to_owned(),
            DaemonError::Table => "routing table must be between 1 and 252".to_owned(),
            DaemonError::DnsAddress => "DNS address is not routable".to_owned(),
            DaemonError::TooManySubnets => "too many bypass subnets".to_owned(),
            DaemonError::InvalidSubnet(s) => {
                let mut r = "invalid IPv4 subnet: ".to_owned();
                r.append(s.as_str());
                r
            },
            DaemonError::InvalidSubnetV6(s) => {
                let mut r = "invalid IPv6 subnet: ".to_owned();
                r.append(s.as_str());
                r
            },
            DaemonError::DefaultRoute =>
                "the default route cannot be a bypass subnet".to_owned(),
            DaemonError::Backend(s) => s.clone(),
            DaemonError::AllowedUidMissing =>
                "MYPROXY_NETD_ALLOWED_UID must be configured for non-root clients".to_owned(),
            DaemonError::AllowedUidNotNumeric =>
                "MYPROXY_NETD_ALLOWED_UID is not numeric".to_owned(),
            DaemonError::UidNotAuthorized => "client UID is not authorized".to_owned(),
        }
    }
}

// ---------------------------------------------------------------------------
// Validation
// ---------------------------------------------------------------------------

/// The address is unspecified, multicast or broadcast.
pub open spec fn is_unroutable(o: [u8; 4]) -> bool {
    ||| o[0] == 0 && o[1] == 0 && o[2] == 0 && o[3] == 0
    ||| 224 <= o[0] <= 239
    ||| o[0] == 255 && o[1] == 255 && o[2] == 255 && o[3] == 255
}

/// A subnet of one of the two address families.
pub trait Subnet: Sized {
    /// A part of an address: an octet or a segment.
    type Part;

    /// The parts of the address and the length of the prefix.
    spec fn model(self) -> (Seq<Self::Part>, u8);

    /// The subnet that a text denotes.
    spec fn denoted(s: Seq<char>) -> Option<(Seq<Self::Part>, u8)>;

    /// What is said of a text that denotes none.
    spec fn refusal(s: Seq<char>) -> FaultView;

    fn parse(s: &str) -> (r: Option<Self>)
        ensures
            (match r {
                Some(n) => Self::denoted(s@) == Some(n.model()),
                None => Self::denoted(s@) is None,
            }),
    ;

    fn refuse(s: &str) -> (e: DaemonError)
        ensures
            e@ == Self::refusal(s@),
    ;

    fn len_of_prefix(&self) -> (r: u8)
        ensures
            r == self.model().1,
    ;
}

impl Subnet for Ipv4Net {
    type Part = u8;

    open spec fn model(self) -> (Seq<u8>, u8) {
        self@
    }

    open spec fn denoted(s: Seq<char>) -> Option<(Seq<u8>, u8)> {
        cidr::ipv4_net(s)
    }

    open spec fn refusal(s: Seq<char>) -> FaultView {
        DaemonError::InvalidSubnet(s)
    }

    fn parse(s: &str) -> (r: Option<Ipv4Net>) {
        parse_ipv4_net(s)
    }

    fn refuse(s: &str) -> (e: DaemonError) {
        DaemonError::InvalidSubnet(s.to_owned())
    }

    fn len_of_prefix(&self) -> (r: u8) {
        self.prefix_len
    }
}

impl Subnet for Ipv6Net {
    type Part = u16;

    open spec fn model(self) -> (Seq<u16>, u8) {
        self@
    }

    open spec fn denoted(s: Seq<char>) -> Option<(Seq<u16>, u8)> {
        cidr::ipv6_net(s)
    }

    open spec fn refusal(s: Seq<char>) -> FaultView {
        DaemonError::InvalidSubnetV6(s)
    }

    fn parse(s: &str) -> (r: Option<Ipv6Net>) {
        parse_ipv6_net(s)
    }

    fn refuse(s: &str) -> (e: DaemonError) {
        DaemonError::InvalidSubnetV6(s.to_owned())
    }

    fn len_of_prefix(&self) -> (r: u8) {
        self.prefix_len
    }
}

/// The subnet that was read from a text, if it may be bypassed.
pub open spec fn subnet<S: Subnet>(text: Seq<char>, net: Option<(Seq<S::Part>, u8)>) -> Result<
    (Seq<S::Part>, u8),
    FaultView,
> {
    match net {
        None => Err(S::refusal(text)),
        Some(net) => if net.1 == 0 {
            Err(DaemonError::DefaultRoute)
        } else {
            Ok(net)
        },
    }
}

/// The first `n` subnets, or what is wrong with the first bad one.
pub open spec fn subnets<S: Subnet>(list: Seq<Seq<char>>, n: nat) -> Result<
    Seq<(Seq<S::Part>, u8)>,
    FaultView,
>
    decreases n,
{
    if n == 0 {
        Ok(Seq::empty())
    } else {
        match subnets::<S>(list, (n - 1) as nat) {
            Err(e) => Err(e),
            Ok(before) => match subnet::<S>(list[n - 1], S::denoted(list[n - 1])) {
                Err(e) => Err(e),
                Ok(net) => Ok(before.push(net)),
            },
        }
    }
}

/// The models of subnets.
pub open spec fn models<S: Subnet>(nets: Seq<S>) -> Seq<(Seq<S::Part>, u8)> {
    nets.map_values(|n: S| n.model())
}

/// What is wrong with the numbers and the address of a configuration.
pub open spec fn limits_fault(
    tproxy_port: u16,
    proxy_fwmark: u32,
    table_id: u32,
    dns_ipv4: Option<[u8; 4]>,
    count: nat,
) -> Option<FaultView> {
    if tproxy_port < 1024 {
        Some(DaemonError::Port)
    } else if proxy_fwmark == 0 || proxy_fwmark == u32::MAX {
        Some(DaemonError::Mark)
    } else if table_id < 1 || table_id > 252 {
        Some(DaemonError::Table)
    } else if dns_ipv4 matches Some(o) && is_unroutable(o) {
        Some(DaemonError::DnsAddress)
    } else if count > 256 {
        Some(DaemonError::TooManySubnets)
    } else {
        None
    }
}

/// The validated configuration without IPv6 subnets.
pub open spec fn validated(
    tproxy_port: u16,
    proxy_fwmark: u32,
    table_id: u32,
    dns_ipv4: Option<[u8; 4]>,
    bypass_subnets: Seq<Seq<char>>,
) -> Result<RoutingView, FaultView> {
    match limits_fault(tproxy_port, proxy_fwmark, table_id, dns_ipv4, bypass_subnets.len()) {
        Some(e) => Err(e),
        None => match subnets::<Ipv4Net>(bypass_subnets, bypass_subnets.len()) {
            Err(e) => Err(e),
            Ok(nets) => Ok(
                RoutingConfig {
                    tproxy_port,
                    proxy_fwmark,
                    table_id,
                    dns_ipv4,
                    bypass_subnets: nets,
                    bypass_subnets_v6: Seq::empty(),
                    core_uid: None,
                },
            ),
        },
    }
}

/// The validated configuration of a request.
pub open spec fn validated_request(
    tproxy_port: u16,
    proxy_fwmark: u32,
    table_id: u32,
    dns_ipv4: Option<[u8; 4]>,
    bypass_subnets: Seq<Seq<char>>,
    bypass_subnets_v6: Seq<Seq<char>>,
    core_uid: Option<u32>,
) -> Result<RoutingView, FaultView> {
    match validated(tproxy_port, proxy_fwmark, table_id, dns_ipv4, bypass_subnets) {
        Err(e) => Err(e),
        Ok(config) => if bypass_subnets_v6.len() > 256 {
            Err(DaemonError::TooManySubnets)
        } else {
            match subnets::<Ipv6Net>(bypass_subnets_v6, bypass_subnets_v6.len()) {
                Err(e) => Err(e),
                Ok(nets) => Ok(RoutingConfig { bypass_subnets_v6: nets, core_uid, ..config }),
            }
        },
    }
}

pub open spec fn config_result(r: Result<RoutingConfig, DaemonError>) -> Result<
    RoutingView,
    FaultView,
> {
    match r {
        Ok(c) => Ok(c@),
        Err(e) => Err(e@),
    }
}

/// No validated configuration bypasses the default route of either family.
pub proof fn law_default_route_is_never_bypassed<S: Subnet>(list: Seq<Seq<char>>, n: nat)
    requires
        n <= list.len(),
        subnets::<S>(list, n) is Ok,
    ensures
        subnets::<S>(list, n)->Ok_0.len() == n,
        forall|i: int| 0 <= i < n ==> (#[trigger] subnets::<S>(list, n)->Ok_0[i]).1 != 0,
    decreases n,
{
    if n > 0 {
        law_default_route_is_never_bypassed::<S>(list, (n - 1) as nat);
        let before = subnets::<S>(list, (n - 1) as nat)->Ok_0;
        assert forall|i: int| 0 <= i < n implies (#[trigger] subnets::<S>(list, n)->Ok_0[i]).1
            != 0 by {
            if i < n - 1 {
                assert(subnets::<S>(list, n)->Ok_0[i] == before[i]);
            }
        }
    }
}

/// When a prefix of the list is bad, so is the list.
proof fn lemma_subnets_prefix<S: Subnet>(list: Seq<Seq<char>>, n: nat, m: nat)
    requires
        n <= m <= list.len(),
        subnets::<S>(list, n) is Err,
    ensures
        subnets::<S>(list, m) == subnets::<S>(list, n),
    decreases m,
{
    if n < m {
        lemma_subnets_prefix::<S>(list, n, (m - 1) as nat);
    }
}

fn is_unroutable_address(o: [u8; 4]) -> (r: bool)
    ensures
        r == is_unroutable(o),
{
    (o[0] == 0 && o[1] == 0 && o[2] == 0 && o[3] == 0) || (o[0] >= 224 && o[0] <= 239) || (o[0]
        == 255 && o[1] == 255 && o[2] == 255 && o[3] == 255)
}

/// Refuses what is no subnet and the default route.
pub fn check_subnet<S: Subnet>(subnet_text: &str, net: Option<S>) -> (r: Result<S, DaemonError>)
    ensures
        (match (r, net) {
            (Ok(n), Some(given)) => subnet::<S>(subnet_text@, Some(given.model())) == Ok::<
                _,
                FaultView,
            >(n.model()),
            (Ok(_), None) => false,
            (Err(e), Some(given)) => subnet::<S>(subnet_text@, Some(given.model())) == Err::<
                (Seq<S::Part>, u8),
                _,
            >(e@),
            (Err(e), None) => subnet::<S>(subnet_text@, None) == Err::<(Seq<S::Part>, u8), _>(e@),
        }),
{
    match net {
        None => Err(S::refuse(subnet_text)),
        Some(net) => if net.len_of_prefix() == 0 {
            Err(DaemonError::DefaultRoute)
        } else {
            Ok(net)
        },
    }
}

fn parse_subnets<S: Subnet>(list: &Vec<String>) -> (r: Result<Vec<S>, DaemonError>)
    ensures
        (match r {
            Ok(v) => subnets::<S>(text::texts_of(list@), list@.len()) == Ok::<_, FaultView>(
                models(v@),
            ),
            Err(e) => subnets::<S>(text::texts_of(list@), list@.len()) == Err::<
                Seq<(Seq<S::Part>, u8)>,
                _,
            >(e@),
        }),
{
    let ghost all = text::texts_of(list@);
    let mut parsed: Vec<S> = Vec::new();
    let mut i: usize = 0;
    assert(models(parsed@) =~= Seq::empty());
    while i < list.len()
        invariant
            i <= list@.len(),
            all == text::texts_of(list@),
            all.len() == list@.len(),
            subnets::<S>(all, i as nat) == Ok::<_, FaultView>(models(parsed@)),
        decreases list@.len() - i,
    {
        let ghost before = parsed@;
        assert(all[i as int] == list@[i as int]@);
        match check_subnet(list[i].as_str(), S::parse(list[i].as_str())) {
            Err(e) => {
                proof {
                    lemma_subnets_prefix::<S>(all, (i + 1) as nat, all.len());
                }
                return Err(e);
            },
            Ok(net) => {
                parsed.push(net);
                assert(models(parsed@) =~= models(before).push(net.model()));
            },
        }
        i += 1;
    }
    Ok(parsed)
}

/// Validates a routing configuration without IPv6 subnets.
pub fn validate_config(
    tproxy_port: u16,
    proxy_fwmark: u32,
    table_id: u32,
    dns_ipv4: Option<[u8; 4]>,
    bypass_subnets: Vec<String>,
) -> (r: Result<RoutingConfig, DaemonError>)
    ensures
        config_result(r) == validated(
            tproxy_port,
            proxy_fwmark,
            table_id,
            dns_ipv4,
            text::texts_of(bypass_subnets@),
        ),
{
    assert(text::texts_of(bypass_subnets@).len() == bypass_subnets@.len());
    if tproxy_port < 1024 {
        return Err(DaemonError::Port);
    }
    if proxy_fwmark == 0 || proxy_fwmark == u32::MAX {
        return Err(DaemonError::Mark);
    }
    if table_id < 1 || table_id > 252 {
        return Err(DaemonError::Table);
    }
    if let Some(address) = dns_ipv4 {
        if is_unroutable_address(address) {
            return Err(DaemonError::DnsAddress);
        }
    }
    if bypass_subnets.len() > 256 {
        return Err(DaemonError::TooManySubnets);
    }
    match parse_subnets::<Ipv4Net>(&bypass_subnets) {
        Err(e) => Err(e),
        Ok(nets) => {
            let none: Vec<Ipv6Net> = Vec::new();
            assert(none@.map_values(|n: Ipv6Net| n@) =~= Seq::empty());
            assert(models(nets@) =~= nets@.map_values(|n: Ipv4Net| n@));
            Ok(
                RoutingConfig {
                    tproxy_port,
                    proxy_fwmark,
                    table_id,
                    dns_ipv4,
                    bypass_subnets: nets,
                    bypass_subnets_v6: none,
                    core_uid: None,
                },
            )
        },
    }
}

// ---------------------------------------------------------------------------
// State
// ---------------------------------------------------------------------------

/// What the daemon remembers. `C` is a routing configuration.
#[derive(Clone, Debug)]
pub struct DaemonState<C = RoutingConfig> {
    pub active_session: Option<u64>,
    pub routing_active: bool,
    pub last_heartbeat: Instant,
    pub routing_config: Option<C>,
}

/// The model of the daemon's state.
pub type StateView = DaemonState<RoutingView>;

pub open spec fn config_of(c: Option<RoutingConfig>) -> Option<RoutingView> {
    match c {
        Some(c) => Some(c@),
        None => None,
    }
}

impl View for DaemonState {
    type V = DaemonState<RoutingView>;

    open spec fn view(&self) -> DaemonState<RoutingView> {
        DaemonState {
            active_session: self.active_session,
            routing_active: self.routing_active,
            last_heartbeat: self.last_heartbeat,
            routing_config: config_of(self.routing_config),
        }
    }
}

/// What the daemon does with a request: it answers, or it asks its backend
/// first.
#[derive(Clone, Debug, PartialEq, Eq)]
pub enum DaemonStep<T = String, C = RoutingConfig> {
    Reply(NetdResponse<T>),
    EnableBackend(C),
    DisableBackend,
}

/// The model of a step.
pub type StepView = DaemonStep<Seq<char>, RoutingView>;

impl View for DaemonStep {
    type V = DaemonStep<Seq<char>, RoutingView>;

    open spec fn view(&self) -> DaemonStep<Seq<char>, RoutingView> {
        match *self {
            DaemonStep::Reply(r) => DaemonStep::Reply(r@),
            DaemonStep::EnableBackend(c) => DaemonStep::EnableBackend(c@),
            DaemonStep::DisableBackend => DaemonStep::DisableBackend,
        }
    }
}

/// The state of a daemon that just started.
pub open spec fn initial(now: Instant) -> StateView {
    DaemonState {
        active_session: None,
        routing_active: false,
        last_heartbeat: now,
        routing_config: None,
    }
}

pub open spec fn refusal(e: FaultView) -> StepView {
    DaemonStep::Reply(NetdResponse::Error(fault_text(e)))
}

/// The state after a session released the controller.
pub open spec fn released(s: StateView, session: u64) -> StateView {
    if s.active_session == Some(session) {
        DaemonState { active_session: None, ..s }
    } else {
        s
    }
}

/// The state after routing was rolled back.
pub open spec fn rolled_back(s: StateView) -> StateView {
    DaemonState {
        active_session: None,
        routing_active: false,
        last_heartbeat: s.last_heartbeat,
        routing_config: None,
    }
}

/// Another session holds the controller.
pub open spec fn is_taken(s: StateView, session: u64) -> bool {
    s.active_session is Some && s.active_session != Some(session)
}

/// The state and the step after a request of a session.
pub open spec fn processed(
    s: StateView,
    request: NetdRequest<Seq<Seq<char>>>,
    session: u64,
    now: Instant,
) -> (StateView, StepView) {
    match request {
        NetdRequest::EnableRouting {
            session_id,
            tproxy_port,
            proxy_fwmark,
            table_id,
            dns_ipv4,
            bypass_subnets,
            bypass_subnets_v6,
            core_uid,
        } => if session_id != session {
            (s, refusal(DaemonError::NotOwner))
        } else {
            match validated_request(
                tproxy_port,
                proxy_fwmark,
                table_id,
                dns_ipv4,
                bypass_subnets,
                bypass_subnets_v6,
                core_uid,
            ) {
                Err(e) => (s, refusal(e)),
                Ok(config) => if is_taken(s, session) {
                    (s, refusal(DaemonError::AnotherController))
                } else {
                    (
                        DaemonState { active_session: Some(session), last_heartbeat: now, ..s },
                        DaemonStep::EnableBackend(config),
                    )
                },
            }
        },
        NetdRequest::DisableRouting { session_id } => if session_id != session {
            (s, refusal(DaemonError::NotOwner))
        } else {
            (s, DaemonStep::DisableBackend)
        },
        NetdRequest::Heartbeat { session_id, sequence } => if session_id != session {
            (s, refusal(DaemonError::NotOwner))
        } else {
            (
                DaemonState { last_heartbeat: now, ..s },
                DaemonStep::Reply(NetdResponse::HeartbeatAck { sequence }),
            )
        },
        NetdRequest::Handshake { client_version } => (s, refusal(DaemonError::HandshakeRepeated)),
    }
}

/// The state and the answer after the backend enabled routing, or failed to.
pub open spec fn after_enable(
    s: StateView,
    session: u64,
    config: RoutingView,
    failure: Option<Seq<char>>,
    now: Instant,
) -> (StateView, NetdResponse<Seq<char>>) {
    match failure {
        Some(e) => (released(s, session), NetdResponse::Error(e)),
        None => (
            DaemonState {
                active_session: s.active_session,
                routing_active: true,
                last_heartbeat: now,
                routing_config: Some(config),
            },
            NetdResponse::RoutingEnabled,
        ),
    }
}

/// The state and the answer after the backend disabled routing, or failed to.
pub open spec fn after_disable(s: StateView, failure: Option<Seq<char>>) -> (
    StateView,
    NetdResponse<Seq<char>>,
) {
    match failure {
        Some(e) => (s, NetdResponse::Error(e)),
        None => (rolled_back(s), NetdResponse::RoutingDisabled),
    }
}

/// The end of a session's connection calls for a rollback.
pub open spec fn needs_rollback(s: StateView, session: u64) -> bool {
    s.active_session == Some(session) && s.routing_active
}

/// The heartbeat of an active controller is overdue: at the next look the timeout
/// could have passed.
pub open spec fn is_expired(s: StateView, now: Instant) -> bool {
    s.routing_active && time::since(now, s.last_heartbeat).nanos + time::secs(
        WATCHDOG_POLL_SECS as nat,
    ).nanos >= time::secs(WATCHDOG_TIMEOUT_SECS as nat).nanos
}

// ---------------------------------------------------------------------------
// Laws
// ---------------------------------------------------------------------------

/// The deadman's switch: within five seconds of the last heartbeat of an active
/// controller, one of the looks of the watchdog fires, and what it does leaves no
/// routing, no configuration and no controller. After that it does not fire again.
/// The looks are not further apart than they are meant to be, the first of them not
/// later than when the heartbeat came, and they have gone on for five seconds.
pub proof fn law_silence_rolls_routing_back(s: StateView, looks: Seq<Instant>, later: Instant)
    requires
        s.routing_active,
        looks.len() > 0,
        looks[0].nanos <= s.last_heartbeat.nanos,
        looks.last().nanos >= s.last_heartbeat.nanos + 5_000_000_000,
        forall|i: int|
            0 <= i < looks.len() - 1 ==> (#[trigger] looks[i]).nanos + 1_000_000_000 >= looks[i
                + 1].nanos,
    ensures
        exists|i: int|
            0 <= i < looks.len() && is_expired(s, #[trigger] looks[i]) && looks[i].nanos
                < s.last_heartbeat.nanos + 5_000_000_000,
        !rolled_back(s).routing_active,
        rolled_back(s).routing_config is None,
        rolled_back(s).active_session is None,
        !is_expired(rolled_back(s), later),
{
    lemma_a_look_fires(s, looks, 0);
}

/// The state after some looks of the watchdog, where the backend takes back what it is
/// told to.
pub open spec fn watched(s: StateView, looks: Seq<Instant>) -> StateView
    decreases looks.len(),
{
    if looks.len() == 0 {
        s
    } else {
        let before = watched(s, looks.drop_last());
        if is_expired(before, looks.last()) {
            after_disable(before, None).0
        } else {
            before
        }
    }
}

/// A run of the watchdog without a heartbeat: at some look less than five seconds after
/// the last one the routing, its configuration and the controller are gone, and gone
/// they stay at every later look.
pub proof fn law_watchdog_runs_end_routing(s: StateView, looks: Seq<Instant>)
    requires
        s.routing_active,
        looks.len() > 0,
        looks[0].nanos <= s.last_heartbeat.nanos,
        looks.last().nanos >= s.last_heartbeat.nanos + 5_000_000_000,
        forall|i: int|
            0 <= i < looks.len() - 1 ==> (#[trigger] looks[i]).nanos + 1_000_000_000 >= looks[i
                + 1].nanos,
    ensures
        exists|i: int|
            0 <= i < looks.len() && (#[trigger] looks[i]).nanos < s.last_heartbeat.nanos
                + 5_000_000_000 && forall|k: int|
                i < k <= looks.len() ==> #[trigger] watched(s, looks.take(k)) == rolled_back(s),
        watched(s, looks) == rolled_back(s),
{
    lemma_a_look_fires(s, looks, 0);
    let i = choose|i: int|
        0 <= i < looks.len() && is_expired(s, #[trigger] looks[i]) && looks[i].nanos
            < s.last_heartbeat.nanos + 5_000_000_000;
    assert forall|k: int| i < k <= looks.len() implies #[trigger] watched(s, looks.take(k))
        == rolled_back(s) by {
        lemma_watched(s, looks, i, k);
    }
    assert(looks[i].nanos < s.last_heartbeat.nanos + 5_000_000_000);
    assert(looks.take(looks.len() as int) =~= looks);
}

/// Looks leave the state alone or roll it back; the one that fires does, and after it
/// nothing changes.
proof fn lemma_watched(s: StateView, looks: Seq<Instant>, fires: int, k: int)
    requires
        s.routing_active,
        0 <= fires < looks.len(),
        is_expired(s, looks[fires]),
        0 <= k <= looks.len(),
    ensures
        watched(s, looks.take(k)) == s || watched(s, looks.take(k)) == rolled_back(s),
        k > fires ==> watched(s, looks.take(k)) == rolled_back(s),
    decreases k,
{
    if k > 0 {
        lemma_watched(s, looks, fires, k - 1);
        assert(looks.take(k).drop_last() =~= looks.take(k - 1));
        assert(looks.take(k).last() == looks[k - 1]);
    }
}

/// Once the watchdog fires it keeps firing until there is a heartbeat or no routing.
pub proof fn law_overdue_stays_overdue(s: StateView, now: Instant, later: Instant)
    requires
        is_expired(s, now),
        later.nanos >= now.nanos,
    ensures
        is_expired(s, later),
{
}

proof fn lemma_a_look_fires(s: StateView, looks: Seq<Instant>, from: int)
    requires
        s.routing_active,
        0 <= from < looks.len(),
        looks[from].nanos < s.last_heartbeat.nanos + 4_000_000_000,
        looks.last().nanos >= s.last_heartbeat.nanos + 5_000_000_000,
        forall|i: int|
            0 <= i < looks.len() - 1 ==> (#[trigger] looks[i]).nanos + 1_000_000_000 >= looks[i
                + 1].nanos,
    ensures
        exists|i: int|
            0 <= i < looks.len() && is_expired(s, #[trigger] looks[i]) && looks[i].nanos
                < s.last_heartbeat.nanos + 5_000_000_000,
    decreases looks.len() - from,
{
    let next = looks[from + 1];
    if next.nanos >= s.last_heartbeat.nanos + 4_000_000_000 {
        assert(is_expired(s, looks[from + 1]));
    } else {
        lemma_a_look_fires(s, looks, from + 1);
    }
}

/// A controller that goes away while routing is active takes it along: the end of
/// its connection calls for the rollback, and that leaves no routing, no
/// configuration and no controller. The end of any other connection leaves the
/// routing alone.
pub proof fn law_disconnects_roll_routing_back(s: StateView, session: u64)
    requires
        s.routing_active,
        s.active_session is Some,
    ensures
        needs_rollback(s, session) == (s.active_session == Some(session)),
        needs_rollback(s, session) ==> after_disable(s, None).0 == rolled_back(s),
        !rolled_back(s).routing_active,
        rolled_back(s).routing_config is None,
        rolled_back(s).active_session is None,
        !needs_rollback(s, session) ==> released(s, session) == s,
{
}

/// A heartbeat that comes in time keeps the routing: the watchdog stays quiet for
/// four seconds after it, and nothing but the time of the heartbeat changes.
pub proof fn law_heartbeats_keep_routing(
    s: StateView,
    session: u64,
    sequence: u64,
    now: Instant,
    later: Instant,
)
    requires
        later.nanos < now.nanos + 4_000_000_000,
    ensures
        ({
            let (after, step) = processed(
                s,
                NetdRequest::Heartbeat { session_id: session, sequence },
                session,
                now,
            );
            &&& step == DaemonStep::<Seq<char>, RoutingView>::Reply(
                NetdResponse::HeartbeatAck { sequence },
            )
            &&& after == (DaemonState { last_heartbeat: now, ..s })
            &&& !is_expired(after, later)
        }),
{
}

/// Only one controller at a time: while one session holds the controller, a
/// request of another to enable routing changes nothing and never reaches the
/// backend.
pub proof fn law_one_controller_at_a_time(
    s: StateView,
    request: NetdRequest<Seq<Seq<char>>>,
    session: u64,
    now: Instant,
)
    requires
        is_taken(s, session),
        request is EnableRouting,
    ensures
        processed(s, request, session, now).0 == s,
        processed(s, request, session, now).1 is Reply,
        processed(s, request, session, now).1->Reply_0 is Error,
{
}

/// A request in the name of another session is refused and changes nothing.
pub proof fn law_foreign_sessions_are_refused(
    s: StateView,
    request: NetdRequest<Seq<Seq<char>>>,
    session: u64,
    now: Instant,
)
    requires
        (match request {
            NetdRequest::Handshake { .. } => false,
            NetdRequest::EnableRouting { session_id, .. } => session_id != session,
            NetdRequest::DisableRouting { session_id } => session_id != session,
            NetdRequest::Heartbeat { session_id, .. } => session_id != session,
        }),
    ensures
        processed(s, request, session, now) == (s, refusal(DaemonError::NotOwner)),
{
}

/// Routing that is enabled and then disabled leaves the daemon without a
/// controller, as it was before any.
pub proof fn law_disable_undoes_enable(
    s: StateView,
    session: u64,
    config: RoutingView,
    now: Instant,
)
    requires
        s.active_session == Some(session),
    ensures
        ({
            let enabled = after_enable(s, session, config, None, now).0;
            let disabled = after_disable(enabled, None).0;
            &&& enabled.routing_active
            &&& disabled == (DaemonState { last_heartbeat: now, ..initial(now) })
        }),
{
}

// ---------------------------------------------------------------------------
// Executable forms
// ---------------------------------------------------------------------------

impl DaemonState {
    /// The state of a daemon that just started.
    pub fn new(now: Instant) -> (r: DaemonState)
        ensures
            r@ == initial(now),
    {
        DaemonState {
            active_session: None,
            routing_active: false,
            last_heartbeat: now,
            routing_config: None,
        }
    }

    /// Whether the heartbeat of an active controller is overdue.
    pub fn watchdog_expired(&self, now: Instant) -> (r: bool)
        ensures
            r == is_expired(self@, now),
    {
        let quiet: u64 = Duration::from_secs(WATCHDOG_TIMEOUT_SECS).nanos - Duration::from_secs(
            WATCHDOG_POLL_SECS,
        ).nanos;
        self.routing_active && now.duration_since(self.last_heartbeat).nanos >= quiet
    }

    /// Gives the controller up.
    pub fn release_session(&mut self, session_id: u64)
        ensures
            final(self)@ == released(old(self)@, session_id),
    {
        if let Some(active) = self.active_session {
            if active == session_id {
                self.active_session = None;
            }
        }
    }

    /// Takes the controller, unless another session holds it.
    pub fn claim_controller(&mut self, session_id: u64, now: Instant) -> (r: Result<
        (),
        DaemonError,
    >)
        ensures
            (match r {
                Ok(_) => !is_taken(old(self)@, session_id) && final(self)@ == (DaemonState {
                    active_session: Some(session_id),
                    last_heartbeat: now,
                    ..old(self)@
                }),
                Err(e) => is_taken(old(self)@, session_id) && final(self)@ == old(self)@ && e@
                    == FaultView::AnotherController,
            }),
    {
        if let Some(active) = self.active_session {
            if active != session_id {
                return Err(DaemonError::AnotherController);
            }
        }
        self.active_session = Some(session_id);
        self.last_heartbeat = now;
        Ok(())
    }

    /// Forgets routing and controller after the backend disabled routing.
    pub fn clear_routing(&mut self)
        ensures
            final(self)@ == rolled_back(old(self)@),
    {
        self.routing_active = false;
        self.routing_config = None;
        self.active_session = None;
    }

    /// Whether the end of a session's connection calls for a rollback.
    pub fn disconnect_needs_rollback(&self, session_id: u64) -> (r: bool)
        ensures
            r == needs_rollback(self@, session_id),
    {
        match self.active_session {
            Some(active) => active == session_id && self.routing_active,
            None => false,
        }
    }
}

/// Refuses requests in the name of another session.
pub fn require_controller(request_session: u64, connection_session: u64) -> (r: Result<
    (),
    DaemonError,
>)
    ensures
        (match r {
            Ok(_) => request_session == connection_session,
            Err(e) => request_session != connection_session && e@ == FaultView::NotOwner,
        }),
{
    if request_session != connection_session {
        return Err(DaemonError::NotOwner);
    }
    Ok(())
}

fn refuse(e: DaemonError) -> (r: DaemonStep)
    ensures
        r@ == refusal(e@),
{
    DaemonStep::Reply(NetdResponse::Error(e.message()))
}

/// Takes a request of a session in.
pub fn process_request(
    state: &mut DaemonState,
    request: NetdRequest,
    session_id: u64,
    now: Instant,
) -> (r: DaemonStep)
    ensures
        (final(state)@, r@) == processed(old(state)@, request@, session_id, now),
{
    match request {
        NetdRequest::EnableRouting {
            session_id: request_session,
            tproxy_port,
            proxy_fwmark,
            table_id,
            dns_ipv4,
            bypass_subnets,
            bypass_subnets_v6,
            core_uid,
        } => {
            if let Err(e) = require_controller(request_session, session_id) {
                return refuse(e);
            }
            let mut config = match validate_config(
                tproxy_port,
                proxy_fwmark,
                table_id,
                dns_ipv4,
                bypass_subnets,
            ) {
                Ok(c) => c,
                Err(e) => return refuse(e),
            };
            assert(text::texts_of(bypass_subnets_v6@).len() == bypass_subnets_v6@.len());
            if bypass_subnets_v6.len() > 256 {
                return refuse(DaemonError::TooManySubnets);
            }
            match parse_subnets::<Ipv6Net>(&bypass_subnets_v6) {
                Ok(nets) => {
                    assert(models(nets@) =~= nets@.map_values(|n: Ipv6Net| n@));
                    config.bypass_subnets_v6 = nets;
                },
                Err(e) => return refuse(e),
            }
            config.core_uid = core_uid;
            if let Err(e) = state.claim_controller(session_id, now) {
                return refuse(e);
            }
            DaemonStep::EnableBackend(config)
        },
        NetdRequest::DisableRouting { session_id: request_session } => {
            if let Err(e) = require_controller(request_session, session_id) {
                return refuse(e);
            }
            DaemonStep::DisableBackend
        },
        NetdRequest::Heartbeat { session_id: request_session, sequence } => {
            if let Err(e) = require_controller(request_session, session_id) {
                return refuse(e);
            }
            state.last_heartbeat = now;
            DaemonStep::Reply(NetdResponse::HeartbeatAck { sequence })
        },
        NetdRequest::Handshake { .. } => refuse(DaemonError::HandshakeRepeated),
    }
}

/// Goes on after the backend was asked to enable routing.
pub fn backend_enabled(
    state: &mut DaemonState,
    session_id: u64,
    config: RoutingConfig,
    failure: Option<String>,
    now: Instant,
) -> (r: NetdResponse)
    ensures
        (final(state)@, r@) == after_enable(
            old(state)@,
            session_id,
            config@,
            text::text_of(failure),
            now,
        ),
{
    match failure {
        Some(e) => {
            state.release_session(session_id);
            NetdResponse::Error(e)
        },
        None => {
            state.routing_active = true;
            state.last_heartbeat = now;
            state.routing_config = Some(config);
            NetdResponse::RoutingEnabled
        },
    }
}

/// Goes on after the backend was asked to disable routing.
pub fn backend_disabled(state: &mut DaemonState, failure: Option<String>) -> (r: NetdResponse)
    ensures
        (final(state)@, r@) == after_disable(old(state)@, text::text_of(failure)),
{
    match failure {
        Some(e) => NetdResponse::Error(e),
        None => {
            state.clear_routing();
            NetdResponse::RoutingDisabled
        },
    }
}

/// Opens a session on the first request of a connection: it must be a handshake
/// of the same protocol version.
pub fn open_session(request: &NetdRequest, sessions: &mut SessionCounter) -> (r: Result<
    (u64, NetdResponse),
    DaemonError,
>)
    ensures
        (match r {
            Ok((session_id, response)) => request@ == (NetdRequest::<Seq<Seq<char>>>::Handshake {
                client_version: PROTOCOL_VERSION,
            }) && session_id == old(sessions).next && *final(sessions) == number_after(
                *old(sessions),
            ) && response@ == (NetdResponse::<Seq<char>>::HandshakeOk {
                daemon_version: PROTOCOL_VERSION,
                session_id,
            }),
            Err(e) => *final(sessions) == *old(sessions) && if request@ is Handshake {
                request@->client_version != PROTOCOL_VERSION && e@ == FaultView::VersionMismatch
            } else {
                e@ == FaultView::HandshakeRequired
            },
        }),
{
    match request {
        NetdRequest::Handshake { client_version } => if *client_version == PROTOCOL_VERSION {
            let session_id = sessions.next_session_id();
            Ok(
                (
                    session_id,
                    NetdResponse::HandshakeOk { daemon_version: PROTOCOL_VERSION, session_id },
                ),
            )
        } else {
            Err(DaemonError::VersionMismatch)
        },
        _ => Err(DaemonError::HandshakeRequired),
    }
}

/// Hands out session numbers.
pub struct SessionCounter {
    pub next: u64,
}

/// The counter after a number was handed out; after the largest comes zero.
pub open spec fn number_after(c: SessionCounter) -> SessionCounter {
    SessionCounter {
        next: if c.next == u64::MAX {
            0
        } else {
            (c.next + 1) as u64
        },
    }
}

impl SessionCounter {
    pub fn new() -> (r: SessionCounter)
        ensures
            r.next == 1,
    {
        SessionCounter { next: 1 }
    }

    /// The next number; after the largest comes zero.
    pub fn next_session_id(&mut self) -> (r: u64)
        ensures
            r == old(self).next,
            *final(self) == number_after(*old(self)),
    {
        let id = self.next;
        self.next = if id == u64::MAX {
            0
        } else {
            id + 1
        };
        id
    }
}

/// The user may talk to the daemon: root, or the one user that is configured.
pub open spec fn uid_verdict(uid: u32, configured: Option<Seq<char>>) -> Result<(), FaultView> {
    if uid == 0 {
        Ok(())
    } else {
        match configured {
            None => Err(DaemonError::AllowedUidMissing),
            Some(s) => match text::unsigned_number(s, 10, u32::MAX as nat) {
                None => Err(DaemonError::AllowedUidNotNumeric),
                Some(allowed) => if uid == allowed {
                    Ok(())
                } else {
                    Err(DaemonError::UidNotAuthorized)
                },
            },
        }
    }
}

/// Whether a user may talk to the daemon.
pub fn authorize_uid(uid: u32, configured: &Option<String>) -> (r: Result<(), DaemonError>)
    ensures
        (match r {
            Ok(_) => uid_verdict(uid, text::text_of(*configured)) == Ok::<(), FaultView>(()),
            Err(e) => uid_verdict(uid, text::text_of(*configured)) == Err::<(), _>(e@),
        }),
{
    if uid == 0 {
        return Ok(());
    }
    match configured {
        None => Err(DaemonError::AllowedUidMissing),
        Some(s) => match text::read_unsigned(&text::to_chars(s.as_str()), 10, u32::MAX as u64) {
            None => Err(DaemonError::AllowedUidNotNumeric),
            Some(allowed) => if uid as u64 == allowed {
                Ok(())
            } else {
                Err(DaemonError::UidNotAuthorized)
            },
        },
    }
}

} // verus!
