use ubitix::common::{MapEntry, Mapping, State};
use ubitix::network::Network;
use ubitix::subnet::{AllocationError, SubnetCalculator};

fn net(text: &str) -> Network {
    Network::parse(text).expect("a network in CIDR notation")
}

fn nets(texts: &[&str]) -> Vec<Network> {
    texts.iter().map(|text| net(text)).collect()
}

fn entry(public: &str, private: &str) -> MapEntry {
    MapEntry { public: net(public), private: net(private) }
}

fn entries_of(mapping: &Mapping) -> Vec<MapEntry> {
    (0..mapping.len()).map(|i| mapping.entry(i)).collect()
}

#[test]
fn parse_reads_address_and_length() {
    let network = net("2001:db8:1234::/60");
    assert_eq!(network.addr, 0x2001_0db8_1234_0000_0000_0000_0000_0000u128);
    assert_eq!(network.len, 60);
    assert_eq!(net("::/0"), Network { addr: 0, len: 0 });
    assert_eq!(net("fd00:a::1/128").addr, 0xfd00_000a_0000_0000_0000_0000_0000_0001u128);
}

#[test]
fn parse_keeps_host_bits() {
    let network = net("2001:db8::1/64");
    assert_eq!(network.addr, 0x2001_0db8_0000_0000_0000_0000_0000_0001u128);
    assert_ne!(network, net("2001:db8::/64"));
}

#[test]
fn parse_refuses_what_is_no_network() {
    assert_eq!(Network::parse(""), None);
    assert_eq!(Network::parse("2001:db8::"), None);
    assert_eq!(Network::parse("2001:db8::/129"), None);
    assert_eq!(Network::parse("192.168.0.0/24"), None);
    assert_eq!(Network::parse("2001:db8::/64 "), None);
    assert_eq!(Network::parse("prefix"), None);
}

#[test]
fn new_checks_the_length() {
    assert_eq!(Network::new(7, 128), Some(Network { addr: 7, len: 128 }));
    assert_eq!(Network::new(7, 129), None);
    assert_eq!(Network::new(0, 0), Some(Network { addr: 0, len: 0 }));
}

#[test]
fn to_text_writes_cidr_notation() {
    let network = Network { addr: 0x2001_0db8_1234_000f_0000_0000_0000_0000, len: 64 };
    assert_eq!(network.to_text(), "2001:db8:1234:f::/64");
    assert_eq!(Network { addr: 0, len: 0 }.to_text(), "::/0");
    assert_eq!(net("fd00:a::/64").to_text(), "fd00:a::/64");
}

#[test]
fn network_and_broadcast_address() {
    let network = net("2001:db8:1234:5678:9abc::1/60");
    assert_eq!(network.network_addr(), 0x2001_0db8_1234_5670_0000_0000_0000_0000u128);
    assert_eq!(network.broadcast_addr(), 0x2001_0db8_1234_567f_ffff_ffff_ffff_ffffu128);
    let all = Network { addr: 5, len: 0 };
    assert_eq!(all.network_addr(), 0);
    assert_eq!(all.broadcast_addr(), u128::MAX);
    let host = Network { addr: 5, len: 128 };
    assert_eq!(host.network_addr(), 5);
    assert_eq!(host.broadcast_addr(), 5);
}

#[test]
fn contains_net_compares_blocks() {
    let prefix = net("2001:db8:1234::/60");
    assert!(prefix.contains_net(&net("2001:db8:1234:f::/64")));
    assert!(prefix.contains_net(&net("2001:db8:1234::/60")));
    assert!(prefix.contains_net(&net("2001:db8:1234:3::1/128")));
    assert!(!prefix.contains_net(&net("2001:db8:1234:10::/64")));
    assert!(!prefix.contains_net(&net("2001:db8:1234::/56")));
    assert!(net("::/0").contains_net(&prefix));
}

#[test]
fn subnet_total_is_a_power_of_two() {
    assert_eq!(net("2001:db8::/64").subnet_total(), 1);
    assert_eq!(net("2001:db8::/60").subnet_total(), 16);
    assert_eq!(net("2001:db8::/56").subnet_total(), 256);
    assert_eq!(net("::/0").subnet_total(), 1u128 << 64);
}

#[test]
fn top_subnet_counts_down_from_the_highest() {
    let prefix = net("2001:db8:1234::/60");
    assert_eq!(prefix.top_subnet(0), net("2001:db8:1234:f::/64"));
    assert_eq!(prefix.top_subnet(1), net("2001:db8:1234:e::/64"));
    assert_eq!(prefix.top_subnet(15), net("2001:db8:1234::/64"));
}

#[test]
fn top_subnet_agrees_with_ipnet() {
    for text in ["2001:db8:1234::/60", "2001:db8:ab00::/56", "fd12:3456:789a:1::7/64", "2a02:8070:7ff::/52"] {
        let prefix = net(text);
        let theirs: ipnet::Ipv6Net = text.parse().unwrap();
        let mut listed: Vec<ipnet::Ipv6Net> = theirs.subnets(64).unwrap().collect();
        listed.reverse();
        assert_eq!(listed.len() as u128, prefix.subnet_total());
        for (i, subnet) in listed.iter().enumerate() {
            let ours = prefix.top_subnet(i);
            assert_eq!(ours.addr, u128::from(subnet.addr()));
            assert_eq!(ours.len, subnet.prefix_len());
        }
    }
}

#[test]
fn allocates_the_two_highest_subnets_of_a_slash_60() {
    let prefix = net("2001:db8:1234::/60");
    let private = nets(&["fd00:a::/64", "fd00:b::/64"]);
    let mapping = SubnetCalculator::calc(&prefix, &private).unwrap();
    assert_eq!(
        entries_of(&mapping),
        vec![
            entry("2001:db8:1234:f::/64", "fd00:a::/64"),
            entry("2001:db8:1234:e::/64", "fd00:b::/64"),
        ]
    );
    assert_eq!(mapping.get(&net("2001:db8:1234:f::/64")), Some(net("fd00:a::/64")));
    assert_eq!(mapping.get(&net("2001:db8:1234:e::/64")), Some(net("fd00:b::/64")));
    assert_eq!(mapping.get(&net("2001:db8:1234:d::/64")), None);
}

#[test]
fn allocation_stays_inside_the_prefix() {
    let prefix = net("2001:db8:ab00::/56");
    let private = nets(&["fd00:1::/64", "fd00:2::/64", "fd00:3::/64", "fd00:4::/64", "fd00:5::/64"]);
    let mapping = SubnetCalculator::calc(&prefix, &private).unwrap();
    assert!(mapping.len() <= private.len());
    for item in entries_of(&mapping) {
        assert_eq!(item.public.len, 64);
        assert!(prefix.contains_net(&item.public));
    }
}

#[test]
fn allocation_of_no_networks_is_empty() {
    let mapping = SubnetCalculator::calc(&net("2001:db8::/56"), &Vec::new()).unwrap();
    assert!(mapping.is_empty());
    assert_eq!(mapping.len(), 0);
}

#[test]
fn allocation_in_a_single_subnet() {
    let mapping = SubnetCalculator::calc(&net("2001:db8:0:7::99/64"), &nets(&["fd00:a::/64"])).unwrap();
    assert_eq!(entries_of(&mapping), vec![entry("2001:db8:0:7::/64", "fd00:a::/64")]);
}

#[test]
fn allocation_uses_every_subnet_when_the_list_is_as_long() {
    let mapping =
        SubnetCalculator::calc(&net("2001:db8::/63"), &nets(&["fd00:a::/64", "fd00:b::/64"])).unwrap();
    assert_eq!(
        entries_of(&mapping),
        vec![entry("2001:db8:0:1::/64", "fd00:a::/64"), entry("2001:db8::/64", "fd00:b::/64")]
    );
}

#[test]
fn allocation_from_the_whole_address_space() {
    let mapping = SubnetCalculator::calc(&net("::/0"), &nets(&["fd00:a::/64", "fd00:b::/64"])).unwrap();
    assert_eq!(
        entries_of(&mapping),
        vec![
            entry("ffff:ffff:ffff:ffff::/64", "fd00:a::/64"),
            entry("ffff:ffff:ffff:fffe::/64", "fd00:b::/64"),
        ]
    );
}

#[test]
fn a_private_network_that_is_no_slash_64_is_passed_over() {
    let prefix = net("2001:db8:1234::/60");
    let private = nets(&["fd00:a::/64", "fd00:b::/48", "fd00:c::/64", "fd00:d::/65"]);
    let mapping = SubnetCalculator::calc(&prefix, &private).unwrap();
    assert_eq!(
        entries_of(&mapping),
        vec![
            entry("2001:db8:1234:f::/64", "fd00:a::/64"),
            entry("2001:db8:1234:d::/64", "fd00:c::/64"),
        ]
    );
}

#[test]
fn a_prefix_longer_than_64_is_too_long() {
    let private = nets(&["fd00:a::/64"]);
    assert_eq!(
        SubnetCalculator::calc(&net("2001:db8::/65"), &private),
        Err(AllocationError::PrefixTooLong)
    );
    assert_eq!(
        SubnetCalculator::calc(&net("2001:db8::1/128"), &Vec::new()),
        Err(AllocationError::PrefixTooLong)
    );
    assert_eq!(
        SubnetCalculator::calc(&Network { addr: 0, len: 200 }, &private),
        Err(AllocationError::PrefixTooLong)
    );
}

#[test]
fn too_many_networks_for_the_prefix() {
    let private = nets(&["fd00:a::/64", "fd00:b::/64", "fd00:c::/64"]);
    assert_eq!(
        SubnetCalculator::calc(&net("2001:db8::/63"), &private),
        Err(AllocationError::InsufficientSubnets { required: 3, available: 2 })
    );
    assert_eq!(
        SubnetCalculator::calc(&net("2001:db8::/64"), &private),
        Err(AllocationError::InsufficientSubnets { required: 3, available: 1 })
    );
}

#[test]
fn networks_that_would_be_passed_over_still_count() {
    let private = nets(&["fd00:a::/48", "fd00:b::/48"]);
    assert_eq!(
        SubnetCalculator::calc(&net("2001:db8::/64"), &private),
        Err(AllocationError::InsufficientSubnets { required: 2, available: 1 })
    );
}

#[test]
fn allocation_is_repeatable() {
    let prefix = net("2001:db8:ab00::/56");
    let private = nets(&["fd00:1::/64", "fd00:2::/63", "fd00:3::/64"]);
    let first = SubnetCalculator::calc(&prefix, &private);
    let second = SubnetCalculator::calc(&prefix, &private);
    assert_eq!(first, second);
    assert_eq!(entries_of(&first.unwrap()).len(), 2);
}

#[test]
fn a_longer_list_keeps_the_earlier_pairs() {
    let prefix = net("2001:db8:ab00::/56");
    let short = SubnetCalculator::calc(&prefix, &nets(&["fd00:1::/64", "fd00:2::/64"])).unwrap();
    let long =
        SubnetCalculator::calc(&prefix, &nets(&["fd00:1::/64", "fd00:2::/64", "fd00:3::/64"])).unwrap();
    assert_eq!(entries_of(&short)[..], entries_of(&long)[..2]);
    assert_eq!(long.entry(2), entry("2001:db8:ab00:fd::/64", "fd00:3::/64"));
}

#[test]
fn mapping_from_entries_refuses_a_repeated_public_subnet() {
    let a = entry("2001:db8:0:1::/64", "fd00:a::/64");
    let b = entry("2001:db8:0:2::/64", "fd00:a::/64");
    let again = entry("2001:db8:0:1::/64", "fd00:c::/64");
    let mapping = Mapping::from_entries(vec![a, b]).unwrap();
    assert_eq!(entries_of(&mapping), vec![a, b]);
    assert_eq!(Mapping::from_entries(vec![a, b, again]), None);
    assert_eq!(Mapping::from_entries(Vec::new()), Some(Mapping::new()));
}

#[test]
fn mapping_from_entries_refuses_a_length_above_128() {
    let bad = MapEntry { public: Network { addr: 1, len: 129 }, private: net("fd00:a::/64") };
    assert_eq!(Mapping::from_entries(vec![bad]), None);
    let worse = MapEntry { public: net("2001:db8::/64"), private: Network { addr: 1, len: 255 } };
    assert_eq!(Mapping::from_entries(vec![worse]), None);
}

#[test]
fn mapping_clone_keeps_the_entries() {
    let mapping =
        SubnetCalculator::calc(&net("2001:db8::/60"), &nets(&["fd00:a::/64", "fd00:b::/64"])).unwrap();
    let copy = mapping.clone();
    assert_eq!(copy, mapping);
    assert_eq!(entries_of(&copy), entries_of(&mapping));
}

#[test]
fn default_state_is_unset() {
    let state = State::default();
    assert_eq!(state.prefix, Network { addr: 0, len: 0 });
    assert!(state.mapping.is_empty());
    let other = State::new(net("2001:db8::/56"), Mapping::new());
    assert_eq!(other.prefix, net("2001:db8::/56"));
}
