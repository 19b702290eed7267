//! What the host is and how it is configured.

use crate::capability::CapabilityInfo;
use crate::hash::{keccak256, KeyPair, NodeId, Secret, H256};
use crate::node::{IpAddress, SocketAddress};
use crate::tokens::{ProtocolId, DEFAULT_PORT};
use vstd::prelude::*;

verus! {

/// How the host takes part in the network.
#[derive(Clone, Copy, Debug)]
pub struct NetworkConfiguration {
    /// The address that the host listens on.
    pub listen_address: SocketAddress,
    /// The address under which peers reach the host.
    pub public_address: SocketAddress,
    pub nat_enabled: bool,
    pub discovery_enabled: bool,
    /// Connect to required nodes only.
    pub pin: bool,
}

/// All interfaces and the default port, and no pinning.
pub open spec fn default_configuration() -> NetworkConfiguration {
    let any = SocketAddress { ip: IpAddress::V4([0, 0, 0, 0]), port: DEFAULT_PORT };
    NetworkConfiguration {
        listen_address: any,
        public_address: any,
        nat_enabled: true,
        discovery_enabled: true,
        pin: false,
    }
}

impl NetworkConfiguration {
    /// All interfaces and the default port, and no pinning.
    pub fn new() -> (config: NetworkConfiguration)
        ensures
            config == default_configuration(),
    {
        let any = SocketAddress { ip: IpAddress::V4([0, 0, 0, 0]), port: DEFAULT_PORT };
        NetworkConfiguration {
            listen_address: any,
            public_address: any,
            nat_enabled: true,
            discovery_enabled: true,
            pin: false,
        }
    }
}

/// Shared host information
pub struct HostInfo {
    /// Our private and public keys.
    pub keys: KeyPair,
    /// Current network configuration
    pub config: NetworkConfiguration,
    /// Connection nonce.
    pub nonce: H256,
    /// RLPx protocol version
    pub protocol_version: u32,
    /// Client identifier
    pub client_version: String,
    /// TCP connection port.
    pub listen_port: u16,
    /// Registered capabilities (handlers)
    pub capabilities: Vec<CapabilityInfo>,
}

/// The mathematical model of the host information.
pub struct HostInfoView {
    pub keys: KeyPair,
    pub config: NetworkConfiguration,
    pub nonce: Seq<u8>,
    pub protocol_version: u32,
    pub client_version: Seq<char>,
    pub listen_port: u16,
    pub capabilities: Seq<CapabilityInfo>,
}

impl View for HostInfo {
    type V = HostInfoView;

    open spec fn view(&self) -> HostInfoView {
        HostInfoView {
            keys: self.keys,
            config: self.config,
            nonce: self.nonce@,
            protocol_version: self.protocol_version,
            client_version: self.client_version@,
            listen_port: self.listen_port,
            capabilities: self.capabilities@,
        }
    }
}

/// The capabilities that a handler for some versions of a protocol brings.
pub open spec fn capabilities_of(protocol: ProtocolId, versions: Seq<u8>) -> Seq<CapabilityInfo> {
    versions.map_values(|version: u8| CapabilityInfo { protocol, version, packet_count: 0 })
}

/// The information of a host that was just created.
pub open spec fn initial_info(
    keys: KeyPair,
    config: NetworkConfiguration,
    nonce: Seq<u8>,
) -> HostInfoView {
    HostInfoView {
        keys,
        config,
        nonce,
        protocol_version: 4,
        client_version: "parity"@,
        listen_port: 0,
        capabilities: Seq::empty(),
    }
}

impl HostInfo {
    /// The information of a host that was just created.
    pub fn new(keys: KeyPair, config: NetworkConfiguration, nonce: H256) -> (info: HostInfo)
        ensures
            info@ == initial_info(keys, config, nonce@),
    {
        HostInfo {
            keys,
            config,
            nonce,
            protocol_version: 4,
            client_version: "parity".to_string(),
            listen_port: 0,
            capabilities: Vec::new(),
        }
    }

    /// Returns public key
    pub fn id(&self) -> (id: &NodeId)
        ensures
            *id == self.keys.public,
    {
        &self.keys.public
    }

    /// Returns secret key
    pub fn secret(&self) -> (secret: &Secret)
        ensures
            *secret == self.keys.secret,
    {
        &self.keys.secret
    }

    /// Increments and returns connection nonce. Each nonce is the digest of the one before.
    pub fn next_nonce(&mut self) -> (nonce: H256)
        ensures
            nonce@ == keccak256(old(self)@.nonce),
            final(self)@ == (HostInfoView { nonce: nonce@, ..old(self)@ }),
    {
        self.nonce = self.nonce.sha3();
        self.nonce
    }

    /// Adds a capability for each version of a protocol.
    pub fn add_capabilities(&mut self, protocol: ProtocolId, versions: &Vec<u8>)
        ensures
            final(self)@ == (HostInfoView {
                capabilities: old(self)@.capabilities + capabilities_of(protocol, versions@),
                ..old(self)@
            }),
    {
        let ghost before = self@;
        let mut i: usize = 0;
        assert(self@.capabilities =~= before.capabilities + capabilities_of(
            protocol,
            versions@.take(0),
        ));
        while i < versions.len()
            invariant
                i <= versions.len(),
                self@ == (HostInfoView {
                    capabilities: before.capabilities + capabilities_of(
                        protocol,
                        versions@.take(i as int),
                    ),
                    ..before
                }),
            decreases versions.len() - i,
        {
            self.capabilities.push(
                CapabilityInfo { protocol, version: versions[i], packet_count: 0 },
            );
            assert(self@.capabilities =~= before.capabilities + capabilities_of(
                protocol,
                versions@.take(i + 1),
            ));
            i += 1;
        }
        assert(versions@.take(i as int) =~= versions@);
    }
}

} // verus!
