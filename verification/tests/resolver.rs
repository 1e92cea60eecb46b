use dynv6_update::address::Ipv6Address;
use dynv6_update::resolver::{
    interface_ipv6, ipv6_from_interface_addr, resolve, EntryAddress, Enumeration,
    InterfaceAddressEntry, ResolutionError,
};

fn entry(name: &str, address: EntryAddress) -> InterfaceAddressEntry {
    InterfaceAddressEntry { interface_name: name.to_string(), address }
}

fn v6(name: &str, segments: [u16; 8]) -> InterfaceAddressEntry {
    entry(name, EntryAddress::Inet6(Ipv6Address::new(segments)))
}

const LINK_LOCAL_1: [u16; 8] = [0xfe80, 0, 0, 0, 0, 0, 0, 1];
const LINK_LOCAL_2: [u16; 8] = [0xfe80, 0xffff, 0, 0, 0, 0, 0, 0xabcd];
const GLOBAL_5: [u16; 8] = [0x2001, 0xdb8, 0, 0, 0, 0, 0, 5];
const GLOBAL_9: [u16; 8] = [0x2001, 0xdb8, 0, 0, 0, 0, 0, 9];
const GLOBAL_7: [u16; 8] = [0x2001, 0xdb8, 0, 0, 0, 0, 0, 7];

#[test]
fn link_local_only_interface_has_no_suitable_address() {
    let entries = vec![v6("eth0", LINK_LOCAL_1)];
    assert_eq!(
        interface_ipv6(&entries, "eth0"),
        Err(ResolutionError::NoSuitableAddress("eth0".to_string()))
    );
    let entries = vec![v6("eth0", LINK_LOCAL_2)];
    assert_eq!(
        interface_ipv6(&entries, "eth0"),
        Err(ResolutionError::NoSuitableAddress("eth0".to_string()))
    );
    let entries = vec![v6("eth0", LINK_LOCAL_1), v6("eth0", LINK_LOCAL_2)];
    assert_eq!(
        interface_ipv6(&entries, "eth0"),
        Err(ResolutionError::NoSuitableAddress("eth0".to_string()))
    );
}

#[test]
fn first_global_address_is_selected() {
    let entries = vec![v6("eth0", LINK_LOCAL_1), v6("eth0", GLOBAL_5), v6("eth0", GLOBAL_9)];
    assert_eq!(interface_ipv6(&entries, "eth0"), Ok(Ipv6Address::new(GLOBAL_5)));
}

#[test]
fn enumeration_order_decides() {
    let entries = vec![v6("eth0", GLOBAL_9), v6("eth0", GLOBAL_5)];
    assert_eq!(interface_ipv6(&entries, "eth0"), Ok(Ipv6Address::new(GLOBAL_9)));
}

#[test]
fn other_interfaces_are_ignored() {
    let entries = vec![v6("eth0", GLOBAL_5), v6("eth1", GLOBAL_7), v6("eth0", GLOBAL_9)];
    assert_eq!(interface_ipv6(&entries, "eth1"), Ok(Ipv6Address::new(GLOBAL_7)));
    assert_eq!(interface_ipv6(&entries, "eth0"), Ok(Ipv6Address::new(GLOBAL_5)));
}

#[test]
fn address_of_another_interface_is_never_returned() {
    let entries = vec![v6("eth0", GLOBAL_5), v6("eth1", LINK_LOCAL_1)];
    assert_eq!(
        interface_ipv6(&entries, "eth1"),
        Err(ResolutionError::NoSuitableAddress("eth1".to_string()))
    );
}

#[test]
fn unknown_interface_is_not_found() {
    let entries = vec![v6("eth0", GLOBAL_5), v6("eth1", GLOBAL_7)];
    let res = interface_ipv6(&entries, "wlan0");
    assert_eq!(res, Err(ResolutionError::InterfaceNotFound("wlan0".to_string())));
    assert_ne!(res, Err(ResolutionError::NoSuitableAddress("wlan0".to_string())));
}

#[test]
fn empty_enumeration_finds_no_interface() {
    let entries: Vec<InterfaceAddressEntry> = Vec::new();
    assert_eq!(
        interface_ipv6(&entries, "eth0"),
        Err(ResolutionError::InterfaceNotFound("eth0".to_string()))
    );
}

#[test]
fn interface_names_match_exactly() {
    let entries = vec![v6("eth0", GLOBAL_5)];
    assert_eq!(
        interface_ipv6(&entries, "Eth0"),
        Err(ResolutionError::InterfaceNotFound("Eth0".to_string()))
    );
    assert_eq!(
        interface_ipv6(&entries, "eth"),
        Err(ResolutionError::InterfaceNotFound("eth".to_string()))
    );
    assert_eq!(
        interface_ipv6(&entries, "eth00"),
        Err(ResolutionError::InterfaceNotFound("eth00".to_string()))
    );
}

#[test]
fn entries_of_other_families_are_skipped() {
    let entries = vec![
        entry("eth0", EntryAddress::Other),
        entry("eth0", EntryAddress::Absent),
        v6("eth0", GLOBAL_5),
    ];
    assert_eq!(interface_ipv6(&entries, "eth0"), Ok(Ipv6Address::new(GLOBAL_5)));
}

#[test]
fn interface_without_ipv6_has_no_suitable_address() {
    let entries = vec![entry("eth0", EntryAddress::Other), entry("eth0", EntryAddress::Absent)];
    assert_eq!(
        interface_ipv6(&entries, "eth0"),
        Err(ResolutionError::NoSuitableAddress("eth0".to_string()))
    );
}

#[test]
fn unique_local_address_is_selected() {
    let ula = [0xfd00, 0, 0, 0, 0, 0, 0, 1];
    let entries = vec![v6("eth0", LINK_LOCAL_1), v6("eth0", ula), v6("eth0", GLOBAL_5)];
    assert_eq!(interface_ipv6(&entries, "eth0"), Ok(Ipv6Address::new(ula)));
}

#[test]
fn ipv6_is_taken_from_inet6_entries_only() {
    assert_eq!(
        ipv6_from_interface_addr(&v6("eth0", GLOBAL_5)),
        Some(Ipv6Address::new(GLOBAL_5))
    );
    assert_eq!(
        ipv6_from_interface_addr(&v6("eth0", LINK_LOCAL_1)),
        Some(Ipv6Address::new(LINK_LOCAL_1))
    );
    assert_eq!(ipv6_from_interface_addr(&entry("eth0", EntryAddress::Other)), None);
    assert_eq!(ipv6_from_interface_addr(&entry("eth0", EntryAddress::Absent)), None);
}

#[test]
fn failed_enumeration_is_reported_with_its_error_number() {
    assert_eq!(
        resolve(&Enumeration::Failed(12), "eth0"),
        Err(ResolutionError::EnumerationFailed(12))
    );
    assert_ne!(
        resolve(&Enumeration::Failed(12), "eth0"),
        Err(ResolutionError::InterfaceNotFound("eth0".to_string()))
    );
}

#[test]
fn listed_entries_are_resolved() {
    let listed = Enumeration::Listed(vec![
        v6("lo", [0, 0, 0, 0, 0, 0, 0, 1]),
        v6("eth0", LINK_LOCAL_1),
        v6("eth0", GLOBAL_5),
    ]);
    assert_eq!(resolve(&listed, "eth0"), Ok(Ipv6Address::new(GLOBAL_5)));
    assert_eq!(resolve(&listed, "lo"), Ok(Ipv6Address::new([0, 0, 0, 0, 0, 0, 0, 1])));
    assert_eq!(
        resolve(&listed, "eth1"),
        Err(ResolutionError::InterfaceNotFound("eth1".to_string()))
    );
    assert_eq!(
        resolve(&Enumeration::Listed(Vec::new()), "eth0"),
        Err(ResolutionError::InterfaceNotFound("eth0".to_string()))
    );
}
