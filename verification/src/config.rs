//! What a tunnel is to be: its key, its addresses, its peers.

use crate::address::{Endpoint, IpAddress, IpPrefix};
use vstd::prelude::*;

verus! {

/// The other end of a tunnel.
#[derive(Clone)]
pub struct Peer {
    pub public_key: [u8; 32],
    pub endpoint: Endpoint,
    pub allowed_ips: Vec<IpPrefix>,
}

/// What a [`Peer`] holds.
pub struct PeerView {
    pub public_key: Seq<u8>,
    pub endpoint: Endpoint,
    pub allowed_ips: Seq<IpPrefix>,
}

impl View for Peer {
    type V = PeerView;

    open spec fn view(&self) -> PeerView {
        PeerView {
            public_key: self.public_key@,
            endpoint: self.endpoint,
            allowed_ips: self.allowed_ips@,
        }
    }
}

/// What each peer holds.
pub open spec fn peer_views(peers: Seq<Peer>) -> Seq<PeerView> {
    Seq::new(peers.len(), |i: int| peers[i]@)
}

/// Parameters of the traffic obfuscation that some backends offer. The two
/// fractions are carried as the bit patterns of their 64-bit floating-point
/// values.
#[derive(Clone, Debug)]
pub struct ObfuscationSettings {
    pub client_machines: Vec<String>,
    pub max_padding_frac_bits: u64,
    pub max_blocking_frac_bits: u64,
}

/// A tunnel, described apart from any backend.
#[derive(Clone)]
pub struct Config {
    pub private_key: [u8; 32],
    pub addresses: Vec<IpPrefix>,
    pub mtu: u16,
    pub fwmark: Option<u32>,
    pub peers: Vec<Peer>,
    pub obfuscation: Option<ObfuscationSettings>,
}

/// Every prefix is no longer than its address.
pub open spec fn all_prefixes_wf(prefixes: Seq<IpPrefix>) -> bool {
    forall|i: int| 0 <= i < prefixes.len() ==> (#[trigger] prefixes[i]).wf()
}

fn prefixes_valid(prefixes: &Vec<IpPrefix>) -> (b: bool)
    ensures
        b == all_prefixes_wf(prefixes@),
{
    let mut i: usize = 0;
    while i < prefixes.len()
        invariant
            i <= prefixes.len(),
            forall|j: int| 0 <= j < i ==> (#[trigger] prefixes@[j]).wf(),
        decreases prefixes.len() - i,
    {
        if !prefixes[i].is_valid() {
            return false;
        }
        i += 1;
    }
    true
}

impl IpPrefix {
    pub fn is_valid(&self) -> (b: bool)
        ensures
            b == self.wf(),
    {
        match self.address {
            IpAddress::V4(..) => self.prefix_len <= 32,
            IpAddress::V6(..) => self.prefix_len <= 128,
        }
    }
}

impl Endpoint {
    pub fn is_valid(&self) -> (b: bool)
        ensures
            b == self.wf(),
    {
        match self.address {
            IpAddress::V4(..) => self.scope_id == 0,
            IpAddress::V6(..) => true,
        }
    }
}

impl Peer {
    /// The peer may be sent at least one prefix, and its endpoint and
    /// prefixes are well formed.
    pub open spec fn wf(self) -> bool {
        &&& self.endpoint.wf()
        &&& self.allowed_ips@.len() > 0
        &&& all_prefixes_wf(self.allowed_ips@)
    }

    pub fn is_valid(&self) -> (b: bool)
        ensures
            b == self.wf(),
    {
        self.endpoint.is_valid() && self.allowed_ips.len() > 0 && prefixes_valid(
            &self.allowed_ips,
        )
    }
}

impl Config {
    /// There is at least one peer, and every peer and address is well
    /// formed.
    pub open spec fn wf(self) -> bool {
        &&& self.peers@.len() > 0
        &&& forall|i: int| 0 <= i < self.peers@.len() ==> (#[trigger] self.peers@[i]).wf()
        &&& all_prefixes_wf(self.addresses@)
    }

    pub fn is_valid(&self) -> (b: bool)
        ensures
            b == self.wf(),
    {
        if self.peers.len() == 0 || !prefixes_valid(&self.addresses) {
            return false;
        }
        let mut i: usize = 0;
        while i < self.peers.len()
            invariant
                i <= self.peers.len(),
                forall|j: int| 0 <= j < i ==> (#[trigger] self.peers@[j]).wf(),
            decreases self.peers.len() - i,
        {
            if !self.peers[i].is_valid() {
                return false;
            }
            i += 1;
        }
        true
    }
}

} // verus!
