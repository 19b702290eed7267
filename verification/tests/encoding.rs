use network_host::capability::CapabilityInfo;
use network_host::hash::{H256, H512, KeyPair};
use network_host::info::{HostInfo, NetworkConfiguration};
use network_host::node::{IpAddress, SocketAddress};

fn hex(text: &str) -> [u8; 32] {
    let mut bytes = [0u8; 32];
    for i in 0..32 {
        bytes[i] = u8::from_str_radix(&text[2 * i..2 * i + 2], 16).unwrap();
    }
    bytes
}

fn keys() -> KeyPair {
    KeyPair { secret: H256 { bytes: [7; 32] }, public: H512 { bytes: [9; 64] } }
}

#[test]
fn capability_is_a_list_of_protocol_and_version() {
    let capability = CapabilityInfo { protocol: "eth", version: 60, packet_count: 17 };
    assert_eq!(capability.encode(), vec![0xc5, 0x83, b'e', b't', b'h', 60]);
}

#[test]
fn capability_version_zero_is_empty_data() {
    let capability = CapabilityInfo { protocol: "e", version: 0, packet_count: 0 };
    assert_eq!(capability.encode(), vec![0xc2, b'e', 0x80]);
}

#[test]
fn capability_large_version_has_a_prefix() {
    let capability = CapabilityInfo { protocol: "", version: 200, packet_count: 0 };
    assert_eq!(capability.encode(), vec![0xc3, 0x80, 0x81, 200]);
}

#[test]
fn capability_long_protocol_has_long_prefixes() {
    let protocol = "aaaaaaaaaaaaaaaaaaaaaaaaaaaaaaaaaaaaaaaaaaaaaaaaaaaaaaaaaaaa";
    let capability = CapabilityInfo { protocol, version: 1, packet_count: 0 };
    let mut expected = vec![0xf8, 63, 0xb8, 60];
    expected.extend_from_slice(protocol.as_bytes());
    expected.push(1);
    assert_eq!(capability.encode(), expected);
}

#[test]
fn digest_is_keccak_256() {
    let zero = H256 { bytes: [0; 32] };
    assert_eq!(
        zero.sha3().bytes,
        hex("290decd9548b62a8d60345a988386fc84ba6bc95484008f6362f93160ef3e563"),
    );
}

#[test]
fn identifiers_are_compared_by_all_bytes() {
    let a = H512 { bytes: [1; 64] };
    let mut b = a;
    assert!(a.same_as(&b));
    b.bytes[63] = 2;
    assert!(!a.same_as(&b));
}

#[test]
fn nonces_are_chained_digests() {
    let mut info =
        HostInfo::new(keys(), NetworkConfiguration::new(), H256 { bytes: [0; 32] });
    let first = info.next_nonce();
    assert_eq!(
        first.bytes,
        hex("290decd9548b62a8d60345a988386fc84ba6bc95484008f6362f93160ef3e563"),
    );
    let second = info.next_nonce();
    assert_eq!(second, first.sha3());
    assert_eq!(info.nonce, second);
}

#[test]
fn new_info_has_the_defaults() {
    let info = HostInfo::new(keys(), NetworkConfiguration::new(), H256 { bytes: [3; 32] });
    assert_eq!(info.id().bytes, [9; 64]);
    assert_eq!(info.secret().bytes, [7; 32]);
    assert_eq!(info.protocol_version, 4);
    assert_eq!(info.client_version, "parity");
    assert_eq!(info.listen_port, 0);
    assert!(info.capabilities.is_empty());
    let any = SocketAddress { ip: IpAddress::V4([0, 0, 0, 0]), port: 30304 };
    assert_eq!(info.config.listen_address, any);
    assert_eq!(info.config.public_address, any);
    assert!(info.config.nat_enabled);
    assert!(info.config.discovery_enabled);
    assert!(!info.config.pin);
}

#[test]
fn each_version_is_a_capability() {
    let mut info = HostInfo::new(keys(), NetworkConfiguration::new(), H256 { bytes: [3; 32] });
    info.add_capabilities("eth", &vec![61, 62]);
    info.add_capabilities("shh", &vec![]);
    assert_eq!(
        info.capabilities,
        vec![
            CapabilityInfo { protocol: "eth", version: 61, packet_count: 0 },
            CapabilityInfo { protocol: "eth", version: 62, packet_count: 0 },
        ],
    );
}
