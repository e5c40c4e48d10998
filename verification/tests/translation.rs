use base64::Engine;
use wireguard_tunnel::address::{Endpoint, IpAddress, IpPrefix};
use wireguard_tunnel::config::{Config, ObfuscationSettings, Peer};
use wireguard_tunnel::translate::{convert_config_to_dbus, MULLVAD_INTERFACE_NAME};
use wireguard_tunnel::wire::{DeviceConfig, Record, Value, Variant, VariantMap};

fn k(s: &str) -> String {
    s.to_string()
}

fn v6(s: [u16; 8]) -> IpAddress {
    IpAddress::V6(s[0], s[1], s[2], s[3], s[4], s[5], s[6], s[7])
}

fn peer(n: u8) -> Peer {
    Peer {
        public_key: [n; 32],
        endpoint: Endpoint::new(IpAddress::V4(185, 213, 154, n), 51820),
        allowed_ips: vec![
            IpPrefix { address: IpAddress::V4(0, 0, 0, 0), prefix_len: 0 },
            IpPrefix { address: v6([0; 8]), prefix_len: 0 },
        ],
    }
}

fn config_v4() -> Config {
    Config {
        private_key: [1u8; 32],
        addresses: vec![IpPrefix::host(IpAddress::V4(10, 64, 0, 2))],
        mtu: 1380,
        fwmark: Some(0x6d6f6c65),
        peers: vec![peer(2)],
        obfuscation: None,
    }
}

fn config_dual() -> Config {
    let mut config = config_v4();
    config.addresses = vec![
        IpPrefix::host(v6([0xfc00, 0xbbbb, 0xbbbb, 0xbb01, 0, 0, 0, 2])),
        IpPrefix::host(IpAddress::V4(10, 64, 0, 2)),
        IpPrefix { address: v6([0xfc00, 0xbbbb, 0xbbbb, 0xbb01, 0, 0, 0, 3]), prefix_len: 64 },
    ];
    config
}

fn section<'a>(settings: &'a DeviceConfig, name: &str) -> &'a VariantMap {
    match settings.get(&k(name)) {
        Some(found) => found,
        None => panic!("no section {}", name),
    }
}

fn value<'a>(section: &'a VariantMap, name: &str) -> &'a Value {
    match section.get(&k(name)) {
        Some(Variant::Value(found)) => found,
        _ => panic!("no plain value {}", name),
    }
}

fn records<'a>(section: &'a VariantMap, name: &str) -> &'a Vec<Record> {
    match section.get(&k(name)) {
        Some(Variant::Records(found)) => found,
        _ => panic!("no records {}", name),
    }
}

fn keys_of(map: &VariantMap) -> Vec<String> {
    let mut keys: Vec<String> = Vec::new();
    for i in 0..map.len() {
        keys.push(map.entry(i).0.clone());
    }
    keys.sort();
    keys
}

fn sections_of(settings: &DeviceConfig) -> Vec<String> {
    let mut keys: Vec<String> = Vec::new();
    for i in 0..settings.len() {
        keys.push(settings.entry(i).0.clone());
    }
    keys.sort();
    keys
}

#[test]
fn interface_name_is_the_well_known_one() {
    assert_eq!(MULLVAD_INTERFACE_NAME, "wg0-mullvad");
}

#[test]
fn wireguard_section_holds_the_scalars() {
    let settings = convert_config_to_dbus(&config_v4());
    let wg = section(&settings, "wireguard");
    assert_eq!(value(wg, "mtu"), &Value::U32(1380));
    assert_eq!(value(wg, "fwmark"), &Value::U32(0x6d6f6c65));
    assert_eq!(value(wg, "peer-routes"), &Value::Bool(false));
    assert_eq!(value(wg, "private-key-flags"), &Value::U32(0));
    assert_eq!(
        value(wg, "private-key"),
        &Value::Str(k("AQEBAQEBAQEBAQEBAQEBAQEBAQEBAQEBAQEBAQEBAQE="))
    );
    assert_eq!(
        keys_of(wg),
        vec![k("fwmark"), k("mtu"), k("peer-routes"), k("peers"), k("private-key"), k("private-key-flags")]
    );
}

#[test]
fn mtu_is_widened_without_change() {
    let mut config = config_v4();
    config.mtu = 65535;
    let settings = convert_config_to_dbus(&config);
    assert_eq!(value(section(&settings, "wireguard"), "mtu"), &Value::U32(65535));
    config.mtu = 0;
    let settings = convert_config_to_dbus(&config);
    assert_eq!(value(section(&settings, "wireguard"), "mtu"), &Value::U32(0));
}

#[test]
fn fwmark_is_left_out_when_absent() {
    let mut config = config_v4();
    config.fwmark = None;
    let settings = convert_config_to_dbus(&config);
    let wg = section(&settings, "wireguard");
    assert!(wg.get(&k("fwmark")).is_none());
    assert!(!wg.contains_key(&k("fwmark")));
    assert_eq!(
        keys_of(wg),
        vec![k("mtu"), k("peer-routes"), k("peers"), k("private-key"), k("private-key-flags")]
    );
}

#[test]
fn fwmark_zero_is_sent_as_zero() {
    let mut config = config_v4();
    config.fwmark = Some(0);
    let settings = convert_config_to_dbus(&config);
    let wg = section(&settings, "wireguard");
    assert!(wg.contains_key(&k("fwmark")));
    assert_eq!(value(wg, "fwmark"), &Value::U32(0));
}

#[test]
fn connection_section_is_fixed() {
    let settings = convert_config_to_dbus(&config_v4());
    let connection = section(&settings, "connection");
    assert_eq!(value(connection, "type"), &Value::Str(k("wireguard")));
    assert_eq!(value(connection, "id"), &Value::Str(k("wg0-mullvad")));
    assert_eq!(value(connection, "interface-name"), &Value::Str(k("wg0-mullvad")));
    assert_eq!(value(connection, "autoconnect"), &Value::Bool(true));
    assert_eq!(keys_of(connection), vec![k("autoconnect"), k("id"), k("interface-name"), k("type")]);
}

#[test]
fn only_ipv4_addresses_give_no_ipv6_section() {
    let settings = convert_config_to_dbus(&config_v4());
    assert!(settings.get(&k("ipv6")).is_none());
    assert!(!settings.contains_key(&k("ipv6")));
    assert_eq!(sections_of(&settings), vec![k("connection"), k("ipv4"), k("wireguard")]);
    assert_eq!(settings.len(), 3);
}

#[test]
fn no_addresses_give_an_ipv4_section_without_addresses() {
    let mut config = config_v4();
    config.addresses = vec![];
    let settings = convert_config_to_dbus(&config);
    assert!(!settings.contains_key(&k("ipv6")));
    assert_eq!(records(section(&settings, "ipv4"), "address-data").len(), 0);
}

#[test]
fn only_ipv6_addresses_still_give_an_ipv4_section() {
    let mut config = config_v4();
    config.addresses = vec![IpPrefix::host(v6([0xfc00, 0, 0, 0, 0, 0, 0, 2]))];
    let settings = convert_config_to_dbus(&config);
    assert_eq!(sections_of(&settings), vec![k("connection"), k("ipv4"), k("ipv6"), k("wireguard")]);
    assert_eq!(records(section(&settings, "ipv4"), "address-data").len(), 0);
    assert_eq!(records(section(&settings, "ipv6"), "address-data").len(), 1);
}

#[test]
fn ipv4_section_holds_the_ipv4_addresses_and_flags() {
    let settings = convert_config_to_dbus(&config_dual());
    let ipv4 = section(&settings, "ipv4");
    assert_eq!(value(ipv4, "ignore-auto-routes"), &Value::Bool(true));
    assert_eq!(value(ipv4, "ignore-auto-dns"), &Value::Bool(true));
    assert_eq!(value(ipv4, "may-fail"), &Value::Bool(true));
    assert_eq!(value(ipv4, "method"), &Value::Str(k("manual")));
    assert_eq!(value(ipv4, "never-default"), &Value::Bool(true));
    let data = records(ipv4, "address-data");
    assert_eq!(data.len(), 1);
    assert_eq!(data[0].get(&k("address")), Some(&Value::Str(k("10.64.0.2"))));
    assert_eq!(data[0].get(&k("prefix")), Some(&Value::U32(32)));
    assert_eq!(data[0].len(), 2);
    assert_eq!(
        keys_of(ipv4),
        vec![
            k("address-data"),
            k("ignore-auto-dns"),
            k("ignore-auto-routes"),
            k("may-fail"),
            k("method"),
            k("never-default")
        ]
    );
}

#[test]
fn ipv6_section_holds_the_ipv6_addresses_in_order() {
    let settings = convert_config_to_dbus(&config_dual());
    let ipv6 = section(&settings, "ipv6");
    assert_eq!(value(ipv6, "ignore-auto-routes"), &Value::Bool(true));
    assert_eq!(value(ipv6, "ignore-auto-dns"), &Value::Bool(true));
    assert_eq!(value(ipv6, "may-fail"), &Value::Bool(true));
    assert_eq!(value(ipv6, "method"), &Value::Str(k("manual")));
    assert!(!ipv6.contains_key(&k("never-default")));
    let data = records(ipv6, "address-data");
    assert_eq!(data.len(), 2);
    assert_eq!(data[0].get(&k("address")), Some(&Value::Str(k("fc00:bbbb:bbbb:bb01::2"))));
    assert_eq!(data[0].get(&k("prefix")), Some(&Value::U32(128)));
    assert_eq!(data[1].get(&k("address")), Some(&Value::Str(k("fc00:bbbb:bbbb:bb01::3"))));
    assert_eq!(data[1].get(&k("prefix")), Some(&Value::U32(64)));
    assert_eq!(
        keys_of(ipv6),
        vec![k("address-data"), k("ignore-auto-dns"), k("ignore-auto-routes"), k("may-fail"), k("method")]
    );
}

#[test]
fn peers_keep_their_order_and_are_not_merged() {
    let mut config = config_v4();
    config.peers = vec![peer(9), peer(3), peer(9), peer(1)];
    let settings = convert_config_to_dbus(&config);
    let peers = records(section(&settings, "wireguard"), "peers");
    assert_eq!(peers.len(), 4);
    let order = [9u8, 3, 9, 1];
    for (record, n) in peers.iter().zip(order.iter()) {
        assert_eq!(record.get(&k("endpoint")), Some(&Value::Str(format!("185.213.154.{}:51820", n))));
        let key = base64::engine::general_purpose::STANDARD.encode([*n; 32]);
        assert_eq!(record.get(&k("public-key")), Some(&Value::Str(key)));
        assert_eq!(
            record.get(&k("allowed-ips")),
            Some(&Value::StrList(vec![k("0.0.0.0/0"), k("::/0")]))
        );
        assert_eq!(record.len(), 3);
    }
}

#[test]
fn no_peers_give_an_empty_list() {
    let mut config = config_v4();
    config.peers = vec![];
    assert!(!config.is_valid());
    let settings = convert_config_to_dbus(&config);
    assert_eq!(records(section(&settings, "wireguard"), "peers").len(), 0);
}

#[test]
fn translated_strings_parse_back_to_the_configuration() {
    let mut config = config_dual();
    config.private_key = [0xa5; 32];
    config.peers = vec![
        Peer {
            public_key: [0x11; 32],
            endpoint: Endpoint::new(IpAddress::V4(193, 138, 218, 130), 51820),
            allowed_ips: vec![
                IpPrefix { address: IpAddress::V4(10, 64, 0, 0), prefix_len: 10 },
                IpPrefix { address: IpAddress::V4(0, 0, 0, 0), prefix_len: 0 },
            ],
        },
        Peer {
            public_key: [0xfe; 32],
            endpoint: Endpoint::new(v6([0x2a03, 0x1b20, 5, 0xf011, 0, 0, 0, 0xa09f]), 443),
            allowed_ips: vec![IpPrefix { address: v6([0xfc00, 0xbbbb, 0, 0, 0, 0, 0, 0]), prefix_len: 32 }],
        },
    ];
    assert!(config.is_valid());
    let settings = convert_config_to_dbus(&config);
    let wg = section(&settings, "wireguard");
    let decode = |v: &Value| match v {
        Value::Str(s) => base64::engine::general_purpose::STANDARD.decode(s.as_bytes()).unwrap(),
        _ => panic!("not a string"),
    };
    assert_eq!(decode(value(wg, "private-key")), config.private_key.to_vec());
    let peers = records(wg, "peers");
    assert_eq!(peers.len(), config.peers.len());
    for (record, peer) in peers.iter().zip(config.peers.iter()) {
        assert_eq!(decode(record.get(&k("public-key")).unwrap()), peer.public_key.to_vec());
        match record.get(&k("endpoint")) {
            Some(Value::Str(s)) => {
                let (host, port) = s.rsplit_once(':').unwrap();
                assert_eq!(port.parse::<u16>().unwrap(), peer.endpoint.port);
                let host = host.trim_start_matches('[').trim_end_matches(']');
                let bits = if peer.endpoint.address.is_ipv4() { 32 } else { 128 };
                let back: ipnetwork::IpNetwork = format!("{}/{}", host, bits).parse().unwrap();
                assert_eq!(back.ip().to_string(), peer.endpoint.address.to_text());
            }
            _ => panic!("no endpoint"),
        }
        match record.get(&k("allowed-ips")) {
            Some(Value::StrList(list)) => {
                assert_eq!(list.len(), peer.allowed_ips.len());
                for (text, prefix) in list.iter().zip(peer.allowed_ips.iter()) {
                    let back: ipnetwork::IpNetwork = text.parse().unwrap();
                    assert_eq!(back.prefix(), prefix.prefix_len);
                    assert_eq!(back.ip().to_string(), prefix.address.to_text());
                }
            }
            _ => panic!("no allowed-ips"),
        }
    }
}

#[test]
fn configuration_validity() {
    assert!(config_v4().is_valid());
    assert!(config_dual().is_valid());
    let mut config = config_v4();
    config.peers[0].allowed_ips = vec![];
    assert!(!config.peers[0].is_valid());
    assert!(!config.is_valid());
    let mut config = config_v4();
    config.peers[0].allowed_ips[0].prefix_len = 33;
    assert!(!config.is_valid());
    let mut config = config_v4();
    config.addresses[0].prefix_len = 40;
    assert!(!config.is_valid());
    let mut config = config_v4();
    config.peers[0].endpoint.scope_id = 1;
    assert!(!config.is_valid());
    let mut config = config_v4();
    config.obfuscation = Some(ObfuscationSettings {
        client_machines: vec![k("machine")],
        max_padding_frac_bits: 0,
        max_blocking_frac_bits: 0,
    });
    assert!(config.is_valid());
}
