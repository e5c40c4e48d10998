//! Traffic counters of the peers of a device, as the kernel reports them.

use crate::assoc::AssocMap;
use vstd::prelude::*;

verus! {

/// One attribute of a peer in the kernel's answer.
#[derive(Clone, Copy, Debug, PartialEq, Eq)]
pub enum PeerAttribute {
    PublicKey([u8; 32]),
    RxBytes(u64),
    TxBytes(u64),
    Other,
}

/// The attributes of one peer, in the order of the answer.
#[derive(Clone, Debug)]
pub struct PeerSnapshot {
    pub attributes: Vec<PeerAttribute>,
}

/// The kernel's answer to a lookup of a device by name.
#[derive(Clone, Debug)]
pub struct DeviceSnapshot {
    pub index: u32,
    pub name: String,
    pub peers: Vec<PeerSnapshot>,
}

/// The bytes sent to and received from one peer.
#[derive(Clone, Copy, Debug, PartialEq, Eq, Structural)]
pub struct Stats {
    pub tx_bytes: u64,
    pub rx_bytes: u64,
}

impl View for Stats {
    type V = Stats;

    open spec fn view(&self) -> Stats {
        *self
    }
}

/// Counters by public key.
pub type StatsMap = AssocMap<[u8; 32], Stats>;

/// The key that the last key attribute gives.
pub open spec fn last_key(attributes: Seq<PeerAttribute>) -> Option<Seq<u8>>
    decreases attributes.len(),
{
    if attributes.len() == 0 {
        None
    } else {
        match attributes.last() {
            PeerAttribute::PublicKey(key) => Some(key@),
            _ => last_key(attributes.drop_last()),
        }
    }
}

/// The count that the last attribute of sent bytes gives; zero without one.
pub open spec fn last_tx(attributes: Seq<PeerAttribute>) -> u64
    decreases attributes.len(),
{
    if attributes.len() == 0 {
        0
    } else {
        match attributes.last() {
            PeerAttribute::TxBytes(n) => n,
            _ => last_tx(attributes.drop_last()),
        }
    }
}

/// The count that the last attribute of received bytes gives; zero without
/// one.
pub open spec fn last_rx(attributes: Seq<PeerAttribute>) -> u64
    decreases attributes.len(),
{
    if attributes.len() == 0 {
        0
    } else {
        match attributes.last() {
            PeerAttribute::RxBytes(n) => n,
            _ => last_rx(attributes.drop_last()),
        }
    }
}

/// The counters of the peers that have a key, as the kernel gave them. Of
/// two peers with one key the later counts.
pub open spec fn stats_of(peers: Seq<PeerSnapshot>) -> Map<Seq<u8>, Stats>
    decreases peers.len(),
{
    if peers.len() == 0 {
        Map::empty()
    } else {
        let before = stats_of(peers.drop_last());
        let attributes = peers.last().attributes@;
        match last_key(attributes) {
            Some(key) => before.insert(
                key,
                Stats { tx_bytes: last_tx(attributes), rx_bytes: last_rx(attributes) },
            ),
            None => before,
        }
    }
}

impl Stats {
    /// The counters of each peer of `device`. A device without peers gives
    /// the empty map.
    pub fn parse_device_message(device: &DeviceSnapshot) -> (map: StatsMap)
        ensures
            map@ == stats_of(device.peers@),
            device.peers@.len() == 0 ==> map@ == Map::<Seq<u8>, Stats>::empty(),
    {
        let mut map: StatsMap = AssocMap::new();
        let mut i: usize = 0;
        assert(device.peers@.take(0) =~= Seq::empty());
        while i < device.peers.len()
            invariant
                i <= device.peers.len(),
                map@ == stats_of(device.peers@.take(i as int)),
            decreases device.peers.len() - i,
        {
            let attributes = &device.peers[i].attributes;
            let mut tx_bytes: u64 = 0;
            let mut rx_bytes: u64 = 0;
            let mut pub_key: Option<[u8; 32]> = None;
            let mut j: usize = 0;
            assert(attributes@.take(0) =~= Seq::empty());
            while j < attributes.len()
                invariant
                    j <= attributes.len(),
                    tx_bytes == last_tx(attributes@.take(j as int)),
                    rx_bytes == last_rx(attributes@.take(j as int)),
                    match pub_key {
                        Some(key) => last_key(attributes@.take(j as int)) == Some(key@),
                        None => last_key(attributes@.take(j as int)) is None,
                    },
                decreases attributes.len() - j,
            {
                proof {
                    assert(attributes@.take(j + 1).drop_last() =~= attributes@.take(j as int));
                    assert(attributes@.take(j + 1).last() == attributes@[j as int]);
                }
                match attributes[j] {
                    PeerAttribute::TxBytes(bytes) => {
                        tx_bytes = bytes;
                    },
                    PeerAttribute::RxBytes(bytes) => {
                        rx_bytes = bytes;
                    },
                    PeerAttribute::PublicKey(key) => {
                        pub_key = Some(key);
                    },
                    PeerAttribute::Other => {},
                }
                j += 1;
            }
            proof {
                assert(attributes@.take(attributes@.len() as int) =~= attributes@);
                assert(device.peers@.take(i + 1).drop_last() =~= device.peers@.take(i as int));
                assert(device.peers@.take(i + 1).last() == device.peers@[i as int]);
            }
            if let Some(key) = pub_key {
                map.insert(key, Stats { tx_bytes, rx_bytes });
            }
            i += 1;
        }
        assert(device.peers@.take(device.peers@.len() as int) =~= device.peers@);
        map
    }
}

} // verus!
