use wireguard_tunnel::address::{Endpoint, IpAddress, IpPrefix};
use wireguard_tunnel::config::{Config, ObfuscationSettings, Peer};
use wireguard_tunnel::nm_tunnel::{
    config_applied, ConnectionProfile, Error, KernelError, NetworkManagerTunnel, SetupAction,
    SetupEvent, Stage, StopAction, TunnelError,
};
use wireguard_tunnel::stats::{DeviceSnapshot, PeerAttribute, PeerSnapshot, Stats};
use wireguard_tunnel::wire::{Value, Variant};

fn config(mtu: u16) -> Config {
    Config {
        private_key: [1u8; 32],
        addresses: vec![IpPrefix::host(IpAddress::V4(10, 64, 0, 2))],
        mtu,
        fwmark: None,
        peers: vec![Peer {
            public_key: [2u8; 32],
            endpoint: Endpoint::new(IpAddress::V4(185, 213, 154, 68), 51820),
            allowed_ips: vec![IpPrefix { address: IpAddress::V4(0, 0, 0, 0), prefix_len: 0 }],
        }],
        obfuscation: None,
    }
}

fn snapshot(index: u32) -> DeviceSnapshot {
    DeviceSnapshot {
        index,
        name: "wg-test".to_string(),
        peers: vec![PeerSnapshot {
            attributes: vec![
                PeerAttribute::PublicKey([2u8; 32]),
                PeerAttribute::RxBytes(100),
                PeerAttribute::TxBytes(200),
            ],
        }],
    }
}

fn active(name: Option<&str>) -> NetworkManagerTunnel {
    let (tunnel, _) = NetworkManagerTunnel::new(&config(1380));
    let (tunnel, action) = tunnel.advance(SetupEvent::ProfileCreated(ConnectionProfile { id: 5 }));
    assert_eq!(action, SetupAction::QueryInterfaceName(ConnectionProfile { id: 5 }));
    let event = match name {
        Some(name) => SetupEvent::InterfaceNamed(name.to_string()),
        None => SetupEvent::InterfaceNameUnknown,
    };
    let (tunnel, action) = tunnel.advance(event);
    assert_eq!(action, SetupAction::ConnectChannel);
    let (tunnel, action) = tunnel.advance(SetupEvent::ChannelConnected);
    assert_eq!(action, SetupAction::Ready);
    tunnel
}

#[test]
fn new_tunnel_asks_for_the_translated_profile() {
    let (tunnel, settings) = NetworkManagerTunnel::new(&config(1400));
    assert_eq!(tunnel.current_stage(), Stage::Uninitialized);
    assert_eq!(tunnel.get_interface_name(), "wg0-mullvad");
    match settings.get(&"wireguard".to_string()).and_then(|s| s.get(&"mtu".to_string())) {
        Some(Variant::Value(Value::U32(mtu))) => assert_eq!(*mtu, 1400),
        _ => panic!("no mtu"),
    }
}

#[test]
fn setup_goes_through_every_stage() {
    let (tunnel, _) = NetworkManagerTunnel::new(&config(1380));
    let (tunnel, _) = tunnel.advance(SetupEvent::ProfileCreated(ConnectionProfile { id: 1 }));
    assert_eq!(tunnel.current_stage(), Stage::ProfileCreated);
    let (tunnel, _) = tunnel.advance(SetupEvent::InterfaceNamed("wg-test".to_string()));
    assert_eq!(tunnel.current_stage(), Stage::ChannelReady);
    assert_eq!(tunnel.get_interface_name(), "wg-test");
    let (tunnel, action) = tunnel.advance(SetupEvent::ChannelConnected);
    assert_eq!(action, SetupAction::Ready);
    assert_eq!(tunnel.current_stage(), Stage::Active);
    assert_eq!(tunnel.get_interface_name(), "wg-test");
}

#[test]
fn unreachable_service_aborts_with_a_transport_error() {
    let (tunnel, _) = NetworkManagerTunnel::new(&config(1380));
    let (mut tunnel, action) = tunnel.advance(SetupEvent::ServiceUnreachable);
    assert_eq!(action, SetupAction::Abort(KernelError::NetworkManager(Error::Dbus)));
    assert_eq!(tunnel.current_stage(), Stage::Stopped);
    assert_eq!(tunnel.stop(), StopAction::Nothing);
}

#[test]
fn rejected_profile_aborts_with_a_service_error() {
    let (tunnel, _) = NetworkManagerTunnel::new(&config(1380));
    let (mut tunnel, action) = tunnel.advance(SetupEvent::ProfileRejected);
    assert_eq!(action, SetupAction::Abort(KernelError::NetworkManager(Error::NetworkManager)));
    assert_eq!(tunnel.current_stage(), Stage::Stopped);
    assert_eq!(tunnel.stop(), StopAction::Nothing);
}

#[test]
fn unknown_interface_name_falls_back_to_the_well_known_one() {
    let tunnel = active(None);
    assert_eq!(tunnel.current_stage(), Stage::Active);
    assert_eq!(tunnel.get_interface_name(), "wg0-mullvad");
}

#[test]
fn failed_channel_aborts() {
    let (tunnel, _) = NetworkManagerTunnel::new(&config(1380));
    let (tunnel, _) = tunnel.advance(SetupEvent::ProfileCreated(ConnectionProfile { id: 1 }));
    let (tunnel, _) = tunnel.advance(SetupEvent::InterfaceNameUnknown);
    let (mut tunnel, action) = tunnel.advance(SetupEvent::ChannelFailed);
    assert_eq!(action, SetupAction::Abort(KernelError::Netlink));
    assert_eq!(tunnel.current_stage(), Stage::Stopped);
    assert!(tunnel.set_config(config(1380)).is_err());
}

#[test]
fn answers_out_of_turn_change_nothing() {
    let (tunnel, _) = NetworkManagerTunnel::new(&config(1380));
    let (tunnel, action) = tunnel.advance(SetupEvent::ChannelConnected);
    assert_eq!(action, SetupAction::Unexpected);
    assert_eq!(tunnel.current_stage(), Stage::Uninitialized);
    let (tunnel, action) = tunnel.advance(SetupEvent::InterfaceNamed("eth0".to_string()));
    assert_eq!(action, SetupAction::Unexpected);
    assert_eq!(tunnel.get_interface_name(), "wg0-mullvad");
    let (tunnel, _) = tunnel.advance(SetupEvent::ProfileCreated(ConnectionProfile { id: 1 }));
    let (tunnel, action) = tunnel.advance(SetupEvent::ProfileCreated(ConnectionProfile { id: 2 }));
    assert_eq!(action, SetupAction::Unexpected);
    assert_eq!(tunnel.current_stage(), Stage::ProfileCreated);
    let (tunnel, action) = tunnel.advance(SetupEvent::ServiceUnreachable);
    assert_eq!(action, SetupAction::Unexpected);
    let tunnel = {
        let (tunnel, _) = tunnel.advance(SetupEvent::InterfaceNameUnknown);
        let (tunnel, _) = tunnel.advance(SetupEvent::ChannelConnected);
        tunnel
    };
    let (mut tunnel, action) = tunnel.advance(SetupEvent::ChannelFailed);
    assert_eq!(action, SetupAction::Unexpected);
    assert_eq!(tunnel.current_stage(), Stage::Active);
    assert_eq!(tunnel.stop(), StopAction::RemoveProfile(ConnectionProfile { id: 1 }));
}

#[test]
fn stop_asks_for_removal_once() {
    let mut tunnel = active(Some("wg-test"));
    let action = tunnel.stop();
    assert_eq!(action, StopAction::RemoveProfile(ConnectionProfile { id: 5 }));
    assert_eq!(action.finish(Ok(())), Ok(()));
    assert_eq!(tunnel.current_stage(), Stage::Stopped);
    assert_eq!(tunnel.stop(), StopAction::Nothing);
}

#[test]
fn stop_after_failed_removal_succeeds_without_side_effects() {
    let mut tunnel = active(Some("wg-test"));
    let first = tunnel.stop();
    assert_eq!(
        first.finish(Err(Error::NetworkManager)),
        Err(TunnelError::StopWireguardError(Error::NetworkManager))
    );
    let second = tunnel.stop();
    assert_eq!(second, StopAction::Nothing);
    assert_eq!(second.finish(Ok(())), Ok(()));
    assert_eq!(second.finish(Err(Error::Dbus)), Ok(()));
    // every other operation still answers
    assert_eq!(tunnel.get_interface_name(), "wg-test");
    assert_eq!(tunnel.get_tunnel_stats(Some(&snapshot(7))).err(), Some(TunnelError::GetConfigError));
    assert_eq!(tunnel.set_config(config(1380)).err(), Some(TunnelError::SetConfigError));
    assert_eq!(
        tunnel.start_daita(ObfuscationSettings {
            client_machines: vec![],
            max_padding_frac_bits: 0,
            max_blocking_frac_bits: 0
        }),
        Err(TunnelError::DaitaNotSupported)
    );
    assert_eq!(tunnel.stop(), StopAction::Nothing);
}

#[test]
fn stop_before_setup_asks_for_nothing() {
    let (mut tunnel, _) = NetworkManagerTunnel::new(&config(1380));
    assert_eq!(tunnel.stop(), StopAction::Nothing);
    assert_eq!(tunnel.current_stage(), Stage::Stopped);
    let (tunnel, action) = tunnel.advance(SetupEvent::ProfileCreated(ConnectionProfile { id: 1 }));
    assert_eq!(action, SetupAction::Unexpected);
    assert_eq!(tunnel.current_stage(), Stage::Stopped);
}

#[test]
fn stop_during_setup_removes_the_profile() {
    let (tunnel, _) = NetworkManagerTunnel::new(&config(1380));
    let (mut tunnel, _) = tunnel.advance(SetupEvent::ProfileCreated(ConnectionProfile { id: 8 }));
    assert_eq!(tunnel.stop(), StopAction::RemoveProfile(ConnectionProfile { id: 8 }));
}

#[test]
fn start_daita_is_refused_and_changes_nothing() {
    let mut tunnel = active(Some("wg-test"));
    let before = tunnel.get_tunnel_stats(Some(&snapshot(7))).unwrap();
    let settings = ObfuscationSettings {
        client_machines: vec!["machine".to_string()],
        max_padding_frac_bits: 0x3fe0000000000000,
        max_blocking_frac_bits: 0,
    };
    assert_eq!(tunnel.start_daita(settings), Err(TunnelError::DaitaNotSupported));
    assert_eq!(tunnel.current_stage(), Stage::Active);
    assert_eq!(tunnel.get_interface_name(), "wg-test");
    let after = tunnel.get_tunnel_stats(Some(&snapshot(7))).unwrap();
    assert_eq!(after.len(), before.len());
    assert_eq!(after.get(&[2u8; 32]), before.get(&[2u8; 32]));
    assert_eq!(after.get(&[2u8; 32]), Some(&Stats { tx_bytes: 200, rx_bytes: 100 }));
    assert_eq!(tunnel.stop(), StopAction::RemoveProfile(ConnectionProfile { id: 5 }));
}

#[test]
fn stats_of_a_missing_device_are_a_lookup_miss() {
    let tunnel = active(Some("wg-test"));
    assert_eq!(tunnel.get_tunnel_stats(None).err(), Some(TunnelError::GetConfigError));
}

#[test]
fn stats_of_a_device_without_peers_are_empty() {
    let tunnel = active(Some("wg-test"));
    let device = DeviceSnapshot { index: 3, name: "wg-test".to_string(), peers: vec![] };
    let map = tunnel.get_tunnel_stats(Some(&device)).unwrap();
    assert!(map.is_empty());
}

#[test]
fn set_config_uses_the_index_of_the_fresh_lookup() {
    let mut tunnel = active(Some("wg-test"));
    // the device is seen with index 7
    let stats = tunnel.get_tunnel_stats(Some(&snapshot(7))).unwrap();
    assert_eq!(stats.len(), 1);
    // the interface is recreated with index 9 before the configuration is set
    let pending = match tunnel.set_config(config(1280)) {
        Ok(pending) => pending,
        Err(_) => panic!("an active tunnel takes a configuration"),
    };
    assert_eq!(pending.interface_name, "wg-test");
    assert_eq!(pending.config.mtu, 1280);
    match pending.resolved(Some(9)) {
        Ok(update) => {
            assert_eq!(update.index, 9);
            assert_eq!(update.config.mtu, 1280);
            assert_eq!(update.config.peers.len(), 1);
        }
        Err(_) => panic!("the lookup succeeded"),
    }
    // and every later call looks the index up again
    let pending = match tunnel.set_config(config(1300)) {
        Ok(pending) => pending,
        Err(_) => panic!("an active tunnel takes a configuration"),
    };
    assert_eq!(pending.interface_name, "wg-test");
    match pending.resolved(Some(11)) {
        Ok(update) => assert_eq!(update.index, 11),
        Err(_) => panic!("the lookup succeeded"),
    }
}

#[test]
fn set_config_fails_when_the_interface_is_gone() {
    let mut tunnel = active(Some("wg-test"));
    let pending = match tunnel.set_config(config(1280)) {
        Ok(pending) => pending,
        Err(_) => panic!("an active tunnel takes a configuration"),
    };
    assert_eq!(pending.resolved(None).err(), Some(TunnelError::SetConfigError));
}

#[test]
fn set_config_reports_what_the_kernel_said() {
    assert_eq!(config_applied(true), Ok(()));
    assert_eq!(config_applied(false), Err(TunnelError::SetConfigError));
}

#[test]
fn operations_before_the_tunnel_is_active_fail() {
    let (mut tunnel, _) = NetworkManagerTunnel::new(&config(1380));
    assert_eq!(tunnel.set_config(config(1380)).err(), Some(TunnelError::SetConfigError));
    assert_eq!(tunnel.get_tunnel_stats(Some(&snapshot(7))).err(), Some(TunnelError::GetConfigError));
}
