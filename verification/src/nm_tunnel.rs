//! The tunnel whose interface NetworkManager creates and removes, and
//! whose peers and counters go through netlink.
//!
//! Nothing here talks to NetworkManager or to the kernel. The tunnel says
//! what is to be asked of them next and takes their answers, so that every
//! decision is made here and every call is made by the caller.

use crate::config::{Config, ObfuscationSettings};
use crate::stats::{stats_of, DeviceSnapshot, Stats, StatsMap};
use crate::translate::{convert_config_to_dbus, device_config, MULLVAD_INTERFACE_NAME};
use crate::wire::DeviceConfig;
use vstd::prelude::*;

verus! {

/// What went wrong between the tunnel and NetworkManager.
#[derive(Clone, Copy, Debug, PartialEq, Eq, Structural)]
pub enum Error {
    /// The service could not be reached over D-Bus.
    Dbus,
    /// The service was reached and refused.
    NetworkManager,
}

/// Why no tunnel came to be.
#[derive(Clone, Copy, Debug, PartialEq, Eq, Structural)]
pub enum KernelError {
    /// NetworkManager did not create the interface.
    NetworkManager(Error),
    /// The netlink channel could not be set up.
    Netlink,
}

/// Why an operation on a tunnel failed.
#[derive(Clone, Copy, Debug, PartialEq, Eq, Structural)]
pub enum TunnelError {
    /// The profile of the tunnel could not be removed.
    StopWireguardError(Error),
    /// The device was not found.
    GetConfigError,
    /// The configuration was not applied.
    SetConfigError,
    /// This kind of tunnel cannot obfuscate its traffic.
    DaitaNotSupported,
}

/// The handle by which NetworkManager knows the profile it created.
#[derive(Clone, Copy, Debug, PartialEq, Eq, Structural)]
pub struct ConnectionProfile {
    pub id: u64,
}

/// How far a tunnel has come.
#[derive(Clone, Copy, Debug, PartialEq, Eq, Structural)]
pub enum Stage {
    Uninitialized,
    ProfileCreated,
    ChannelReady,
    Active,
    Stopped,
}

/// An answer from outside while the tunnel is set up.
#[derive(Clone, Debug)]
pub enum SetupEvent {
    /// NetworkManager could not be reached.
    ServiceUnreachable,
    /// NetworkManager refused to create the profile.
    ProfileRejected,
    /// NetworkManager created the profile.
    ProfileCreated(ConnectionProfile),
    /// NetworkManager named the interface of the profile.
    InterfaceNamed(String),
    /// NetworkManager did not name the interface.
    InterfaceNameUnknown,
    /// The netlink channel stands.
    ChannelConnected,
    /// The netlink channel could not be set up.
    ChannelFailed,
}

/// What is to be done next while the tunnel is set up.
#[derive(Clone, Copy, Debug, PartialEq, Eq, Structural)]
pub enum SetupAction {
    /// Ask NetworkManager for the name of the interface of the profile.
    QueryInterfaceName(ConnectionProfile),
    /// Set up the netlink channel.
    ConnectChannel,
    /// The tunnel is active; hand it out.
    Ready,
    /// Give up; there is no tunnel.
    Abort(KernelError),
    /// The answer fits no question that was asked; nothing changed.
    Unexpected,
}

/// What is to be done to stop a tunnel.
#[derive(Clone, Copy, Debug, PartialEq, Eq, Structural)]
pub enum StopAction {
    /// Ask NetworkManager to remove the profile.
    RemoveProfile(ConnectionProfile),
    /// There is no profile to remove.
    Nothing,
}

/// A configuration on its way to the device: the index of the interface is
/// to be looked up by name now.
pub struct PendingConfig {
    pub interface_name: String,
    pub config: Config,
}

/// A configuration and the index of the interface to apply it to.
pub struct DeviceUpdate {
    pub index: u32,
    pub config: Config,
}

/// A tunnel through NetworkManager. It keeps the name of its interface and
/// the handle of its profile, and never an interface index.
#[derive(Debug)]
pub struct NetworkManagerTunnel {
    stage: Stage,
    tunnel: Option<ConnectionProfile>,
    interface_name: String,
}

/// Where an answer leads while the tunnel is set up: the next stage, the
/// profile then held, and what to do next. A failure before the profile
/// exists or while the channel is set up ends the tunnel; a name that
/// NetworkManager does not give is no failure.
pub open spec fn setup_step(
    stage: Stage,
    profile: Option<ConnectionProfile>,
    event: SetupEvent,
) -> (Stage, Option<ConnectionProfile>, SetupAction) {
    match (stage, event) {
        (Stage::Uninitialized, SetupEvent::ServiceUnreachable) => (
            Stage::Stopped,
            None,
            SetupAction::Abort(KernelError::NetworkManager(Error::Dbus)),
        ),
        (Stage::Uninitialized, SetupEvent::ProfileRejected) => (
            Stage::Stopped,
            None,
            SetupAction::Abort(KernelError::NetworkManager(Error::NetworkManager)),
        ),
        (Stage::Uninitialized, SetupEvent::ProfileCreated(created)) => (
            Stage::ProfileCreated,
            Some(created),
            SetupAction::QueryInterfaceName(created),
        ),
        (Stage::ProfileCreated, SetupEvent::InterfaceNamed(_)) => (
            Stage::ChannelReady,
            profile,
            SetupAction::ConnectChannel,
        ),
        (Stage::ProfileCreated, SetupEvent::InterfaceNameUnknown) => (
            Stage::ChannelReady,
            profile,
            SetupAction::ConnectChannel,
        ),
        (Stage::ChannelReady, SetupEvent::ChannelConnected) => (
            Stage::Active,
            profile,
            SetupAction::Ready,
        ),
        (Stage::ChannelReady, SetupEvent::ChannelFailed) => (
            Stage::Stopped,
            None,
            SetupAction::Abort(KernelError::Netlink),
        ),
        _ => (stage, profile, SetupAction::Unexpected),
    }
}

/// The name of the interface after an answer: the name that NetworkManager
/// gave, the well-known name where it gave none, else the name as it was.
pub open spec fn setup_name(stage: Stage, name: Seq<char>, event: SetupEvent) -> Seq<char> {
    match (stage, event) {
        (Stage::ProfileCreated, SetupEvent::InterfaceNamed(given)) => given@,
        (Stage::ProfileCreated, SetupEvent::InterfaceNameUnknown) => MULLVAD_INTERFACE_NAME@,
        _ => name,
    }
}

/// What comes of stopping: the failure to remove the profile, or success.
pub open spec fn stop_outcome(action: StopAction, removal: Result<(), Error>) -> Result<
    (),
    TunnelError,
> {
    match (action, removal) {
        (StopAction::RemoveProfile(_), Err(error)) => Err(TunnelError::StopWireguardError(error)),
        _ => Ok(()),
    }
}

/// What a lookup of the device by name comes to: the counters of its
/// peers, or a miss where the tunnel is not active or the device was not
/// found.
pub open spec fn stats_outcome(stage: Stage, device: Option<DeviceSnapshot>) -> Result<
    Map<Seq<u8>, Stats>,
    TunnelError,
> {
    match (stage, device) {
        (Stage::Active, Some(found)) => Ok(stats_of(found.peers@)),
        _ => Err(TunnelError::GetConfigError),
    }
}

/// What setting a configuration comes to before it reaches the kernel: an
/// update for the index that the lookup by name gave, or a failure where
/// the tunnel is not active or the lookup gave none.
pub open spec fn update_outcome(stage: Stage, config: Config, index: Option<u32>) -> Result<
    DeviceUpdate,
    TunnelError,
> {
    match (stage, index) {
        (Stage::Active, Some(index)) => Ok(DeviceUpdate { index, config }),
        _ => Err(TunnelError::SetConfigError),
    }
}

impl StopAction {
    /// What the caller of `stop` is told, given what came of the removal.
    /// Where nothing was to be removed, `removal` does not matter.
    pub fn finish(self, removal: Result<(), Error>) -> (result: Result<(), TunnelError>)
        ensures
            result == stop_outcome(self, removal),
    {
        match self {
            StopAction::RemoveProfile(_) => match removal {
                Err(error) => Err(TunnelError::StopWireguardError(error)),
                Ok(()) => Ok(()),
            },
            StopAction::Nothing => Ok(()),
        }
    }
}

impl PendingConfig {
    /// Takes the answer to the lookup of the interface by name. The update
    /// goes to the index that this lookup gave, and to no other.
    pub fn resolved(self, index: Option<u32>) -> (result: Result<DeviceUpdate, TunnelError>)
        ensures
            result == update_outcome(Stage::Active, self.config, index),
    {
        match index {
            Some(index) => Ok(DeviceUpdate { index, config: self.config }),
            None => Err(TunnelError::SetConfigError),
        }
    }
}

/// What the caller of `set_config` is told, given whether the kernel took
/// the configuration.
pub fn config_applied(accepted: bool) -> (result: Result<(), TunnelError>)
    ensures
        result == if accepted {
            Ok::<(), TunnelError>(())
        } else {
            Err::<(), TunnelError>(TunnelError::SetConfigError)
        },
{
    if accepted {
        Ok(())
    } else {
        Err(TunnelError::SetConfigError)
    }
}

impl NetworkManagerTunnel {
    /// How far the tunnel has come.
    pub closed spec fn stage(self) -> Stage {
        self.stage
    }

    /// The profile that the tunnel holds.
    pub closed spec fn profile(self) -> Option<ConnectionProfile> {
        self.tunnel
    }

    /// The name of the interface.
    pub closed spec fn name(self) -> Seq<char> {
        self.interface_name@
    }

    /// The tunnel once it is stopped: it holds no profile.
    pub closed spec fn stopped(self) -> Self {
        NetworkManagerTunnel {
            stage: Stage::Stopped,
            tunnel: None,
            interface_name: self.interface_name,
        }
    }

    /// What a request for obfuscation comes to: the tunnel as it was, and
    /// a refusal.
    pub open spec fn daita_outcome(self, settings: ObfuscationSettings) -> (
        Self,
        Result<(), TunnelError>,
    ) {
        (self, Err(TunnelError::DaitaNotSupported))
    }

    /// What stopping the tunnel asks for.
    pub open spec fn stop_action(self) -> StopAction {
        match self.profile() {
            Some(profile) => StopAction::RemoveProfile(profile),
            None => StopAction::Nothing,
        }
    }

    /// A tunnel that is yet to be set up, and the settings of the profile
    /// that NetworkManager is to be asked for first.
    pub fn new(config: &Config) -> (made: (Self, DeviceConfig))
        ensures
            made.0.stage() == Stage::Uninitialized,
            made.0.profile() is None,
            made.0.name() == MULLVAD_INTERFACE_NAME@,
            made.1@ == device_config(*config),
    {
        let tunnel = NetworkManagerTunnel {
            stage: Stage::Uninitialized,
            tunnel: None,
            interface_name: MULLVAD_INTERFACE_NAME.to_owned(),
        };
        (tunnel, convert_config_to_dbus(config))
    }

    /// Takes an answer from outside and says what to do next.
    pub fn advance(self, event: SetupEvent) -> (next: (Self, SetupAction))
        ensures
            (next.0.stage(), next.0.profile(), next.1) == setup_step(
                self.stage(),
                self.profile(),
                event,
            ),
            next.0.name() == setup_name(self.stage(), self.name(), event),
    {
        match self.stage {
            Stage::Uninitialized => match event {
                SetupEvent::ServiceUnreachable => (
                    NetworkManagerTunnel {
                        stage: Stage::Stopped,
                        tunnel: None,
                        interface_name: self.interface_name,
                    },
                    SetupAction::Abort(KernelError::NetworkManager(Error::Dbus)),
                ),
                SetupEvent::ProfileRejected => (
                    NetworkManagerTunnel {
                        stage: Stage::Stopped,
                        tunnel: None,
                        interface_name: self.interface_name,
                    },
                    SetupAction::Abort(KernelError::NetworkManager(Error::NetworkManager)),
                ),
                SetupEvent::ProfileCreated(created) => (
                    NetworkManagerTunnel {
                        stage: Stage::ProfileCreated,
                        tunnel: Some(created),
                        interface_name: self.interface_name,
                    },
                    SetupAction::QueryInterfaceName(created),
                ),
                _ => (self, SetupAction::Unexpected),
            },
            Stage::ProfileCreated => match event {
                SetupEvent::InterfaceNamed(given) => (
                    NetworkManagerTunnel {
                        stage: Stage::ChannelReady,
                        tunnel: self.tunnel,
                        interface_name: given,
                    },
                    SetupAction::ConnectChannel,
                ),
                SetupEvent::InterfaceNameUnknown => (
                    NetworkManagerTunnel {
                        stage: Stage::ChannelReady,
                        tunnel: self.tunnel,
                        interface_name: MULLVAD_INTERFACE_NAME.to_owned(),
                    },
                    SetupAction::ConnectChannel,
                ),
                _ => (self, SetupAction::Unexpected),
            },
            Stage::ChannelReady => match event {
                SetupEvent::ChannelConnected => (
                    NetworkManagerTunnel {
                        stage: Stage::Active,
                        tunnel: self.tunnel,
                        interface_name: self.interface_name,
                    },
                    SetupAction::Ready,
                ),
                SetupEvent::ChannelFailed => (
                    NetworkManagerTunnel {
                        stage: Stage::Stopped,
                        tunnel: None,
                        interface_name: self.interface_name,
                    },
                    SetupAction::Abort(KernelError::Netlink),
                ),
                _ => (self, SetupAction::Unexpected),
            },
            _ => (self, SetupAction::Unexpected),
        }
    }

    /// How far the tunnel has come.
    pub fn current_stage(&self) -> (stage: Stage)
        ensures
            stage == self.stage(),
    {
        self.stage
    }

    /// The name of the interface: the one NetworkManager gave, or the
    /// well-known one.
    pub fn get_interface_name(&self) -> (name: String)
        ensures
            name@ == self.name(),
    {
        self.interface_name.clone()
    }

    /// Stops the tunnel and says what is left to do. The first call on a
    /// tunnel with a profile asks for its removal; every later call asks
    /// for nothing.
    pub fn stop(&mut self) -> (action: StopAction)
        ensures
            *final(self) == old(self).stopped(),
            final(self).stage() == Stage::Stopped,
            final(self).profile() is None,
            final(self).name() == old(self).name(),
            action == old(self).stop_action(),
    {
        let action = match self.tunnel {
            Some(profile) => StopAction::RemoveProfile(profile),
            None => StopAction::Nothing,
        };
        self.tunnel = None;
        self.stage = Stage::Stopped;
        action
    }

    /// Turns the kernel's answer to a lookup of the interface by name into
    /// counters. Asks for the lookup by `get_interface_name`. Fails where
    /// the tunnel is not active or the device was not found.
    pub fn get_tunnel_stats(&self, device: Option<&DeviceSnapshot>) -> (result: Result<
        StatsMap,
        TunnelError,
    >)
        ensures
            match result {
                Ok(map) => device is Some && stats_outcome(self.stage(), Some(*device.unwrap()))
                    == Ok::<Map<Seq<u8>, Stats>, TunnelError>(map@),
                Err(error) => (device is None || stats_outcome(
                    self.stage(),
                    Some(*device.unwrap()),
                ) is Err) && error == TunnelError::GetConfigError,
            },
    {
        match self.stage {
            Stage::Active => match device {
                Some(found) => Ok(Stats::parse_device_message(found)),
                None => Err(TunnelError::GetConfigError),
            },
            _ => Err(TunnelError::GetConfigError),
        }
    }

    /// Begins to replace the whole configuration of the device: the index
    /// of the interface is to be looked up by name, now and on every call.
    /// Fails where the tunnel is not active.
    pub fn set_config(&mut self, config: Config) -> (result: Result<PendingConfig, TunnelError>)
        ensures
            *final(self) == *old(self),
            match result {
                Ok(pending) => old(self).stage() == Stage::Active && pending.interface_name@
                    == old(self).name() && pending.config == config,
                Err(error) => error == TunnelError::SetConfigError && old(self).stage()
                    != Stage::Active,
            },
    {
        match self.stage {
            Stage::Active => Ok(
                PendingConfig { interface_name: self.interface_name.clone(), config },
            ),
            _ => Err(TunnelError::SetConfigError),
        }
    }

    /// Fails outright: this kind of tunnel cannot obfuscate its traffic.
    /// Nothing changes.
    pub fn start_daita(&mut self, settings: ObfuscationSettings) -> (result: Result<
        (),
        TunnelError,
    >)
        ensures
            (*final(self), result) == old(self).daita_outcome(settings),
            result == Err::<(), TunnelError>(TunnelError::DaitaNotSupported),
            *final(self) == *old(self),
    {
        Err(TunnelError::DaitaNotSupported)
    }
}

/// Stopping twice is stopping once: a stopped tunnel asks for nothing more,
/// stays as it is, and its caller is told of success whatever came of the
/// first removal.
pub proof fn lemma_stop_idempotent(tunnel: NetworkManagerTunnel, removal: Result<(), Error>)
    ensures
        tunnel.stopped().stop_action() == StopAction::Nothing,
        tunnel.stopped().stopped() == tunnel.stopped(),
        stop_outcome(tunnel.stopped().stop_action(), removal) == Ok::<(), TunnelError>(()),
{
}

/// A refused request for obfuscation changes nothing: the tunnel is as it
/// was, so the counters that a lookup gives afterwards are those that it
/// would have given before.
pub proof fn lemma_daita_changes_nothing(
    tunnel: NetworkManagerTunnel,
    settings: ObfuscationSettings,
    device: Option<DeviceSnapshot>,
)
    ensures
        tunnel.daita_outcome(settings).1 == Err::<(), TunnelError>(TunnelError::DaitaNotSupported),
        tunnel.daita_outcome(settings).0 == tunnel,
        stats_outcome(tunnel.daita_outcome(settings).0.stage(), device) == stats_outcome(
            tunnel.stage(),
            device,
        ),
{
}

/// The index that a configuration is applied to is the one that the lookup
/// of this very call gave. Whatever index was seen before, in a snapshot
/// or in an earlier call, plays no part.
pub proof fn lemma_index_is_looked_up_afresh(
    tunnel: NetworkManagerTunnel,
    seen: DeviceSnapshot,
    config: Config,
    fresh: u32,
)
    requires
        tunnel.stage() == Stage::Active,
    ensures
        stats_outcome(tunnel.stage(), Some(seen)) is Ok,
        update_outcome(tunnel.stage(), config, Some(fresh)) == Ok::<DeviceUpdate, TunnelError>(
            DeviceUpdate { index: fresh, config },
        ),
        update_outcome(tunnel.stage(), config, None) == Err::<DeviceUpdate, TunnelError>(
            TunnelError::SetConfigError,
        ),
{
}

/// While a tunnel is set up it holds a profile exactly from the creation of
/// the profile on, and a tunnel that was given up holds none.
pub proof fn lemma_setup_keeps_profile(
    stage: Stage,
    profile: Option<ConnectionProfile>,
    event: SetupEvent,
)
    requires
        (stage == Stage::ProfileCreated || stage == Stage::ChannelReady || stage == Stage::Active)
            <==> profile is Some,
    ensures
        ({
            let next = setup_step(stage, profile, event);
            &&& (next.0 == Stage::ProfileCreated || next.0 == Stage::ChannelReady || next.0
                == Stage::Active) <==> next.1 is Some
            &&& next.2 is Abort ==> next.0 == Stage::Stopped
            &&& next.2 == SetupAction::Ready <==> stage == Stage::ChannelReady && event
                == SetupEvent::ChannelConnected
        }),
{
}

} // verus!
