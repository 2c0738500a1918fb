//! What a proxy core can do, and the interface of a core adapter.
use crate::adapter::outbound::AdapterError;
use crate::ir::node::CanonicalNode;
use crate::json::Json;
use vstd::prelude::*;

verus! {

#[derive(Clone, Copy, Debug, PartialEq, Eq, Structural)]
pub enum CoreCapability {
    Vless,
    VlessReality,
    Vmess,
    Trojan,
    Shadowsocks,
    Hysteria2,
    Tuic,
    WireGuard,
    WebSocket,
    Grpc,
    HttpUpgrade,
    XHttp,
    Multiplexing,
}

/// A core, its version and the capabilities that it has, each listed once.
#[derive(Clone, Debug, PartialEq, Eq)]
pub struct CoreCapabilities {
    pub core_name: String,
    pub version: String,
    pub supported: Vec<CoreCapability>,
}

impl CoreCapabilities {
    /// No capability is listed twice.
    pub open spec fn wf(&self) -> bool {
        self.supported@.no_duplicates()
    }

    pub fn supports(&self, capability: CoreCapability) -> (r: bool)
        ensures
            r == self.supported@.contains(capability),
    {
        let mut i: usize = 0;
        while i < self.supported.len()
            invariant
                i <= self.supported@.len(),
                forall|k: int| 0 <= k < i ==> self.supported@[k] != capability,
            decreases self.supported@.len() - i,
        {
            if self.supported[i] == capability {
                return true;
            }
            i += 1;
        }
        false
    }
}

/// Turns canonical nodes into the configuration of one proxy core and reads what
/// the core's own program reports.
pub trait CoreAdapter {
    fn name(&self) -> &'static str;

    /// The capabilities of the core, from how its version command ended and what
    /// that command printed.
    fn probe_capabilities(&self, succeeded: bool, output: &[u8]) -> Result<
        CoreCapabilities,
        AdapterError,
    >;

    fn compile_outbound(&self, node: &CanonicalNode, capabilities: &CoreCapabilities) -> Result<
        Json,
        AdapterError,
    >;

    /// Whether the core accepts a configuration, from how its check command ended
    /// and what that command printed on its error stream.
    fn validate_config(&self, succeeded: bool, errors: &[u8]) -> Result<(), AdapterError>;
}

} // verus!
