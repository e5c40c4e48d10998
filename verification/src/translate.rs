//! From a tunnel's configuration to the settings of the NetworkManager
//! connection that creates it.

use crate::address::IpPrefix;
use crate::assoc::AssocMap;
use crate::base64::{base64_bytes, base64_text, encode, lemma_base64_round_trip};
use crate::config::{peer_views, Config, Peer, PeerView};
use crate::parse::{
    lemma_endpoint_round_trip, lemma_prefix_round_trip, parse_endpoint, parse_prefix,
};
use crate::wire::{
    record_views, texts, DeviceConfig, DeviceConfigView, Record, Value, ValueView, Variant,
    VariantMap, VariantView,
};
use vstd::prelude::*;

verus! {

/// The name of the interface, which is also the name of the connection.
pub const MULLVAD_INTERFACE_NAME: &'static str = "wg0-mullvad";

pub open spec fn str_setting(s: Seq<char>) -> VariantView {
    VariantView::Value(ValueView::Str(s))
}

pub open spec fn u32_setting(n: u32) -> VariantView {
    VariantView::Value(ValueView::U32(n))
}

pub open spec fn bool_setting(b: bool) -> VariantView {
    VariantView::Value(ValueView::Bool(b))
}

/// The text of each prefix.
pub open spec fn prefix_texts(prefixes: Seq<IpPrefix>) -> Seq<Seq<char>> {
    Seq::new(prefixes.len(), |i: int| prefixes[i].text())
}

/// The record of one peer: the prefixes it may be sent, where it is
/// reached, and its key in Base64.
pub open spec fn peer_record(peer: Peer) -> Map<Seq<char>, ValueView> {
    Map::<Seq<char>, ValueView>::empty().insert(
        "allowed-ips"@,
        ValueView::StrList(prefix_texts(peer.allowed_ips@)),
    ).insert("endpoint"@, ValueView::Str(peer.endpoint.text())).insert(
        "public-key"@,
        ValueView::Str(base64_text(peer.public_key@)),
    )
}

/// The record of each peer, in the order of the peers.
pub open spec fn peer_records(peers: Seq<Peer>) -> Seq<Map<Seq<char>, ValueView>> {
    Seq::new(peers.len(), |i: int| peer_record(peers[i]))
}

/// The section `wireguard`. It has no `fwmark` where the configuration has
/// none; routes of peers are left to others; the private key is given in
/// the settings themselves, so the flags of the key are zero.
pub open spec fn wireguard_section(config: Config) -> Map<Seq<char>, VariantView> {
    let first = Map::<Seq<char>, VariantView>::empty().insert(
        "mtu"@,
        u32_setting(config.mtu as u32),
    );
    let marked = match config.fwmark {
        Some(fwmark) => first.insert("fwmark"@, u32_setting(fwmark)),
        None => first,
    };
    marked.insert("peer-routes"@, bool_setting(false)).insert(
        "private-key"@,
        str_setting(base64_text(config.private_key@)),
    ).insert("private-key-flags"@, u32_setting(0)).insert(
        "peers"@,
        VariantView::Records(peer_records(config.peers@)),
    )
}

/// The section `connection`.
pub open spec fn connection_section() -> Map<Seq<char>, VariantView> {
    Map::<Seq<char>, VariantView>::empty().insert("type"@, str_setting("wireguard"@)).insert(
        "id"@,
        str_setting(MULLVAD_INTERFACE_NAME@),
    ).insert("interface-name"@, str_setting(MULLVAD_INTERFACE_NAME@)).insert(
        "autoconnect"@,
        bool_setting(true),
    )
}

/// The record of one address of the interface.
pub open spec fn address_record(prefix: IpPrefix) -> Map<Seq<char>, ValueView> {
    Map::<Seq<char>, ValueView>::empty().insert(
        "address"@,
        ValueView::Str(prefix.address.text()),
    ).insert("prefix"@, ValueView::U32(prefix.prefix_len as u32))
}

/// The records of the addresses of one family, in the order of the
/// addresses.
pub open spec fn family_records(addresses: Seq<IpPrefix>, v4: bool) -> Seq<
    Map<Seq<char>, ValueView>,
>
    decreases addresses.len(),
{
    if addresses.len() == 0 {
        Seq::empty()
    } else {
        let before = family_records(addresses.drop_last(), v4);
        if addresses.last().address.is_v4() == v4 {
            before.push(address_record(addresses.last()))
        } else {
            before
        }
    }
}

/// The section `ipv4`.
pub open spec fn ipv4_section(config: Config) -> Map<Seq<char>, VariantView> {
    Map::<Seq<char>, VariantView>::empty().insert(
        "address-data"@,
        VariantView::Records(family_records(config.addresses@, true)),
    ).insert("ignore-auto-routes"@, bool_setting(true)).insert(
        "ignore-auto-dns"@,
        bool_setting(true),
    ).insert("may-fail"@, bool_setting(true)).insert("method"@, str_setting("manual"@)).insert(
        "never-default"@,
        bool_setting(true),
    )
}

/// The section `ipv6`.
pub open spec fn ipv6_section(config: Config) -> Map<Seq<char>, VariantView> {
    Map::<Seq<char>, VariantView>::empty().insert("method"@, str_setting("manual"@)).insert(
        "address-data"@,
        VariantView::Records(family_records(config.addresses@, false)),
    ).insert("ignore-auto-routes"@, bool_setting(true)).insert(
        "ignore-auto-dns"@,
        bool_setting(true),
    ).insert("may-fail"@, bool_setting(true))
}

/// The settings of the connection for `config`. There is a section `ipv6`
/// only where the configuration has an IPv6 address.
pub open spec fn device_config(config: Config) -> DeviceConfigView {
    let first = Map::<Seq<char>, Map<Seq<char>, VariantView>>::empty().insert(
        "ipv4"@,
        ipv4_section(config),
    );
    let both = if family_records(config.addresses@, false).len() > 0 {
        first.insert("ipv6"@, ipv6_section(config))
    } else {
        first
    };
    both.insert("wireguard"@, wireguard_section(config)).insert(
        "connection"@,
        connection_section(),
    )
}

fn key(s: &str) -> (k: String)
    ensures
        k@ == s@,
{
    s.to_owned()
}

fn str_variant(s: &str) -> (v: Variant)
    ensures
        v@ == str_setting(s@),
{
    Variant::Value(Value::Str(s.to_owned()))
}

fn prefix_texts_of(prefixes: &Vec<IpPrefix>) -> (out: Vec<String>)
    ensures
        texts(out@) == prefix_texts(prefixes@),
{
    let mut out: Vec<String> = Vec::new();
    let mut i: usize = 0;
    while i < prefixes.len()
        invariant
            i <= prefixes.len(),
            out@.len() == i,
            forall|j: int| 0 <= j < i ==> (#[trigger] out@[j])@ == prefixes@[j].text(),
        decreases prefixes.len() - i,
    {
        out.push(prefixes[i].to_text());
        i += 1;
    }
    assert(texts(out@) =~= prefix_texts(prefixes@));
    out
}

fn peer_record_of(peer: &Peer) -> (record: Record)
    ensures
        record@ == peer_record(*peer),
{
    let mut record: Record = AssocMap::new();
    record.insert(key("allowed-ips"), Value::StrList(prefix_texts_of(&peer.allowed_ips)));
    record.insert(key("endpoint"), Value::Str(peer.endpoint.to_text()));
    record.insert(key("public-key"), Value::Str(encode(peer.public_key.as_slice())));
    record
}

fn peer_records_of(peers: &Vec<Peer>) -> (records: Vec<Record>)
    ensures
        record_views(records@) == peer_records(peers@),
{
    let mut records: Vec<Record> = Vec::new();
    let mut i: usize = 0;
    while i < peers.len()
        invariant
            i <= peers.len(),
            records@.len() == i,
            forall|j: int| 0 <= j < i ==> (#[trigger] records@[j])@ == peer_record(peers@[j]),
        decreases peers.len() - i,
    {
        records.push(peer_record_of(&peers[i]));
        i += 1;
    }
    assert(record_views(records@) =~= peer_records(peers@));
    records
}

fn address_record_of(prefix: &IpPrefix) -> (record: Record)
    ensures
        record@ == address_record(*prefix),
{
    let mut record: Record = AssocMap::new();
    record.insert(key("address"), Value::Str(prefix.address.to_text()));
    record.insert(key("prefix"), Value::U32(prefix.prefix_len as u32));
    record
}

fn family_records_of(addresses: &Vec<IpPrefix>, v4: bool) -> (records: Vec<Record>)
    ensures
        record_views(records@) == family_records(addresses@, v4),
{
    let mut records: Vec<Record> = Vec::new();
    let mut i: usize = 0;
    assert(record_views(records@) =~= family_records(addresses@.take(0), v4));
    while i < addresses.len()
        invariant
            i <= addresses.len(),
            record_views(records@) == family_records(addresses@.take(i as int), v4),
        decreases addresses.len() - i,
    {
        let ghost before = records@;
        proof {
            assert(addresses@.take(i + 1).drop_last() =~= addresses@.take(i as int));
        }
        if addresses[i].is_ipv4() == v4 {
            records.push(address_record_of(&addresses[i]));
            assert(record_views(records@) =~= record_views(before).push(
                address_record(addresses@[i as int]),
            ));
        }
        i += 1;
    }
    assert(addresses@.take(addresses@.len() as int) =~= addresses@);
    records
}

/// The settings of the NetworkManager connection that creates the tunnel
/// that `config` describes.
pub fn convert_config_to_dbus(config: &Config) -> (settings: DeviceConfig)
    ensures
        settings@ == device_config(*config),
{
    let mut wireguard_config: VariantMap = AssocMap::new();
    wireguard_config.insert(key("mtu"), Variant::Value(Value::U32(config.mtu as u32)));
    if let Some(fwmark) = config.fwmark {
        wireguard_config.insert(key("fwmark"), Variant::Value(Value::U32(fwmark)));
    }
    wireguard_config.insert(key("peer-routes"), Variant::Value(Value::Bool(false)));
    wireguard_config.insert(
        key("private-key"),
        Variant::Value(Value::Str(encode(config.private_key.as_slice()))),
    );
    wireguard_config.insert(key("private-key-flags"), Variant::Value(Value::U32(0)));
    wireguard_config.insert(key("peers"), Variant::Records(peer_records_of(&config.peers)));

    let mut connection_config: VariantMap = AssocMap::new();
    connection_config.insert(key("type"), str_variant("wireguard"));
    connection_config.insert(key("id"), str_variant(MULLVAD_INTERFACE_NAME));
    connection_config.insert(key("interface-name"), str_variant(MULLVAD_INTERFACE_NAME));
    connection_config.insert(key("autoconnect"), Variant::Value(Value::Bool(true)));

    let ipv4_addrs = family_records_of(&config.addresses, true);
    let ipv6_addrs = family_records_of(&config.addresses, false);
    let any_ipv6 = ipv6_addrs.len() > 0;

    let mut ipv4_config: VariantMap = AssocMap::new();
    ipv4_config.insert(key("address-data"), Variant::Records(ipv4_addrs));
    ipv4_config.insert(key("ignore-auto-routes"), Variant::Value(Value::Bool(true)));
    ipv4_config.insert(key("ignore-auto-dns"), Variant::Value(Value::Bool(true)));
    ipv4_config.insert(key("may-fail"), Variant::Value(Value::Bool(true)));
    ipv4_config.insert(key("method"), str_variant("manual"));
    ipv4_config.insert(key("never-default"), Variant::Value(Value::Bool(true)));

    let mut settings: DeviceConfig = AssocMap::new();
    settings.insert(key("ipv4"), ipv4_config);
    if any_ipv6 {
        let mut ipv6_config: VariantMap = AssocMap::new();
        ipv6_config.insert(key("method"), str_variant("manual"));
        ipv6_config.insert(key("address-data"), Variant::Records(ipv6_addrs));
        ipv6_config.insert(key("ignore-auto-routes"), Variant::Value(Value::Bool(true)));
        ipv6_config.insert(key("ignore-auto-dns"), Variant::Value(Value::Bool(true)));
        ipv6_config.insert(key("may-fail"), Variant::Value(Value::Bool(true)));
        settings.insert(key("ipv6"), ipv6_config);
    }
    settings.insert(key("wireguard"), wireguard_config);
    settings.insert(key("connection"), connection_config);
    settings
}

/// The prefixes that the texts write, where each writes one.
pub open spec fn read_prefixes(list: Seq<Seq<char>>) -> Option<Seq<IpPrefix>> {
    if forall|j: int| 0 <= j < list.len() ==> parse_prefix(#[trigger] list[j]) is Some {
        Some(Seq::new(list.len(), |j: int| parse_prefix(list[j]).unwrap()))
    } else {
        None
    }
}

/// The peer that a record of the settings describes.
pub open spec fn read_peer(record: Map<Seq<char>, ValueView>) -> Option<PeerView> {
    if record.contains_key("public-key"@) && record.contains_key("endpoint"@)
        && record.contains_key("allowed-ips"@) {
        match (record["public-key"@], record["endpoint"@], record["allowed-ips"@]) {
            (ValueView::Str(key), ValueView::Str(endpoint), ValueView::StrList(list)) => match (
                base64_bytes(key),
                parse_endpoint(endpoint),
                read_prefixes(list),
            ) {
                (Some(public_key), Some(endpoint), Some(allowed_ips)) => Some(
                    PeerView { public_key, endpoint, allowed_ips },
                ),
                _ => None,
            },
            _ => None,
        }
    } else {
        None
    }
}

/// The peers that the settings describe, in their order.
pub open spec fn read_peers(settings: DeviceConfigView) -> Option<Seq<PeerView>> {
    if settings.contains_key("wireguard"@) && settings["wireguard"@].contains_key("peers"@) {
        match settings["wireguard"@]["peers"@] {
            VariantView::Records(records) => if forall|i: int|
                0 <= i < records.len() ==> read_peer(#[trigger] records[i]) is Some {
                Some(Seq::new(records.len(), |i: int| read_peer(records[i]).unwrap()))
            } else {
                None
            },
            _ => None,
        }
    } else {
        None
    }
}

/// The private key that the settings hold.
pub open spec fn read_private_key(settings: DeviceConfigView) -> Option<Seq<u8>> {
    if settings.contains_key("wireguard"@) && settings["wireguard"@].contains_key(
        "private-key"@,
    ) {
        match settings["wireguard"@]["private-key"@] {
            VariantView::Value(ValueView::Str(key)) => base64_bytes(key),
            _ => None,
        }
    } else {
        None
    }
}

/// The keys of a peer's record differ from each other.
proof fn lemma_peer_keys()
    ensures
        "allowed-ips"@ != "endpoint"@,
        "allowed-ips"@ != "public-key"@,
        "endpoint"@ != "public-key"@,
{
    reveal_strlit("allowed-ips");
    reveal_strlit("endpoint");
    reveal_strlit("public-key");
    assert("allowed-ips"@.len() == 11);
    assert("endpoint"@.len() == 8);
    assert("public-key"@.len() == 10);
}

/// The keys of the section `wireguard` differ from each other.
proof fn lemma_wireguard_keys()
    ensures
        "fwmark"@ != "mtu"@,
        "fwmark"@ != "peer-routes"@,
        "fwmark"@ != "private-key"@,
        "fwmark"@ != "private-key-flags"@,
        "fwmark"@ != "peers"@,
        "private-key"@ != "private-key-flags"@,
        "private-key"@ != "peers"@,
{
    reveal_strlit("mtu");
    reveal_strlit("fwmark");
    reveal_strlit("peer-routes");
    reveal_strlit("private-key");
    reveal_strlit("private-key-flags");
    reveal_strlit("peers");
    assert("mtu"@.len() == 3);
    assert("fwmark"@.len() == 6);
    assert("peer-routes"@.len() == 11);
    assert("private-key"@.len() == 11);
    assert("private-key-flags"@.len() == 17);
    assert("peers"@.len() == 5);
}

/// The names of the sections differ from each other.
proof fn lemma_section_names()
    ensures
        "ipv4"@ != "ipv6"@,
        "ipv4"@ != "wireguard"@,
        "ipv4"@ != "connection"@,
        "ipv6"@ != "wireguard"@,
        "ipv6"@ != "connection"@,
        "wireguard"@ != "connection"@,
{
    reveal_strlit("ipv4");
    reveal_strlit("ipv6");
    reveal_strlit("wireguard");
    reveal_strlit("connection");
    assert("ipv4"@.len() == 4);
    assert("ipv6"@.len() == 4);
    assert("wireguard"@.len() == 9);
    assert("connection"@.len() == 10);
    assert("ipv4"@[3] != "ipv6"@[3]);
}

/// There are records of a family exactly where an address is of it.
proof fn lemma_family_records_len(addresses: Seq<IpPrefix>, v4: bool)
    ensures
        family_records(addresses, v4).len() > 0 <==> exists|i: int|
            0 <= i < addresses.len() && (#[trigger] addresses[i]).address.is_v4() == v4,
    decreases addresses.len(),
{
    if addresses.len() > 0 {
        let init = addresses.drop_last();
        lemma_family_records_len(init, v4);
        if family_records(init, v4).len() > 0 {
            let i = choose|i: int|
                0 <= i < init.len() && (#[trigger] init[i]).address.is_v4() == v4;
            assert(addresses[i] == init[i]);
        }
        if exists|i: int|
            0 <= i < addresses.len() && (#[trigger] addresses[i]).address.is_v4() == v4 {
            let i = choose|i: int|
                0 <= i < addresses.len() && (#[trigger] addresses[i]).address.is_v4() == v4;
            if i < addresses.len() - 1 {
                assert(init[i] == addresses[i]);
            }
        }
    }
}

/// Reading a peer's record gives back the peer.
pub proof fn lemma_peer_round_trip(peer: Peer)
    requires
        peer.wf(),
    ensures
        read_peer(peer_record(peer)) == Some(peer@),
{
    lemma_peer_keys();
    lemma_base64_round_trip(peer.public_key@);
    lemma_endpoint_round_trip(peer.endpoint);
    let list = prefix_texts(peer.allowed_ips@);
    assert forall|j: int| 0 <= j < list.len() implies parse_prefix(#[trigger] list[j]) == Some(
        peer.allowed_ips@[j],
    ) by {
        lemma_prefix_round_trip(peer.allowed_ips@[j]);
    }
    assert(Seq::new(list.len(), |j: int| parse_prefix(list[j]).unwrap()) =~= peer.allowed_ips@);
}

/// Reading the settings that a configuration was translated to gives back
/// its private key and, in their order, its peers: the key of each, its
/// endpoint and the prefixes it may be sent.
pub proof fn lemma_settings_round_trip(config: Config)
    requires
        config.wf(),
    ensures
        read_private_key(device_config(config)) == Some(config.private_key@),
        read_peers(device_config(config)) == Some(peer_views(config.peers@)),
{
    lemma_section_names();
    lemma_wireguard_keys();
    lemma_base64_round_trip(config.private_key@);
    let settings = device_config(config);
    assert(settings["wireguard"@] == wireguard_section(config));
    let records = peer_records(config.peers@);
    assert forall|i: int| 0 <= i < records.len() implies read_peer(#[trigger] records[i])
        == Some(config.peers@[i]@) by {
        lemma_peer_round_trip(config.peers@[i]);
    }
    assert(Seq::new(records.len(), |i: int| read_peer(records[i]).unwrap()) =~= peer_views(
        config.peers@,
    ));
}

/// The settings always have a section `ipv4`, and a section `ipv6` exactly
/// where the configuration has an IPv6 address; that section then lists
/// those addresses.
pub proof fn lemma_family_section_omission(config: Config)
    ensures
        device_config(config).contains_key("ipv4"@),
        device_config(config).contains_key("ipv6"@) <==> exists|i: int|
            0 <= i < config.addresses@.len() && !(#[trigger] config.addresses@[i]).address.is_v4(),
        device_config(config).contains_key("ipv6"@) ==> device_config(config)["ipv6"@]
            == ipv6_section(config),
{
    lemma_section_names();
    lemma_family_records_len(config.addresses@, false);
}

/// The section `wireguard` has a key `fwmark` exactly where the
/// configuration has a mark, and then holds that mark, be it zero.
pub proof fn lemma_fwmark_omission(config: Config)
    ensures
        device_config(config).contains_key("wireguard"@),
        device_config(config)["wireguard"@].contains_key("fwmark"@) <==> config.fwmark is Some,
        config.fwmark matches Some(fwmark) ==> device_config(config)["wireguard"@]["fwmark"@]
            == u32_setting(fwmark),
{
    lemma_section_names();
    lemma_wireguard_keys();
    assert(device_config(config)["wireguard"@] == wireguard_section(config));
}

} // verus!
