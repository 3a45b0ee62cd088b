use nipart::base::{BaseInterface, InterfaceIp, InterfaceState, InterfaceType};
use nipart::iface::{Interface, LinuxBridgeInterface, OvsBridgeInterface, OvsInterface};
use nipart::ifaces::Interfaces;
use nipart::ifaces_clean::find_unknown_type_port;

fn base(name: &str, t: InterfaceType) -> BaseInterface {
    BaseInterface::new(name.to_string(), t)
}

fn plain(name: &str, t: InterfaceType) -> Interface {
    Interface::from_base(base(name, t))
}

fn bridge(name: &str, ports: &[&str]) -> Interface {
    Interface::LinuxBridge(LinuxBridgeInterface {
        base: base(name, InterfaceType::LinuxBridge),
        ports: Some(ports.iter().map(|p| p.to_string()).collect()),
    })
}

fn names(v: &Vec<Interface>) -> Vec<String> {
    v.iter().map(|i| i.name().to_string()).collect()
}

#[test]
fn push_keeps_partitions_and_replaces_same_identity() {
    let mut ifaces = Interfaces::new();
    assert!(ifaces.is_empty());
    ifaces.push(plain("eth0", InterfaceType::Ethernet));
    ifaces.push(plain("ovsbr0", InterfaceType::OvsBridge));
    ifaces.push(plain("eth1", InterfaceType::Ethernet));
    ifaces.push(plain("eth0", InterfaceType::WifiCfg));
    let mut again = plain("eth0", InterfaceType::Tun);
    again.base_iface_mut().state = InterfaceState::Down;
    ifaces.push(again);
    assert!(!ifaces.is_empty());
    assert_eq!(names(ifaces.kernel_ifaces()), vec!["eth0", "eth1"]);
    assert_eq!(names(ifaces.user_ifaces()), vec!["ovsbr0", "eth0"]);
    assert_eq!(names(&ifaces.to_vec()), vec!["eth0", "eth1", "ovsbr0", "eth0"]);
    assert_eq!(ifaces.kernel_ifaces()[0].iface_type(), InterfaceType::Tun);
    assert!(ifaces.kernel_ifaces()[0].is_down());
}

#[test]
fn get_iface_looks_in_the_partition_of_the_kind() {
    let mut ifaces = Interfaces::new();
    ifaces.push(plain("eth0", InterfaceType::Ethernet));
    ifaces.push(plain("both", InterfaceType::Tun));
    ifaces.push(plain("both", InterfaceType::OvsBridge));
    ifaces.push(plain("prof", InterfaceType::WifiCfg));
    assert_eq!(ifaces.get_iface("eth0", InterfaceType::Vlan).unwrap().iface_type(), InterfaceType::Ethernet);
    assert_eq!(ifaces.get_iface("both", InterfaceType::Unknown).unwrap().iface_type(), InterfaceType::Tun);
    assert_eq!(ifaces.get_iface("both", InterfaceType::OvsBridge).unwrap().iface_type(), InterfaceType::OvsBridge);
    assert_eq!(ifaces.get_iface("prof", InterfaceType::Unknown).unwrap().iface_type(), InterfaceType::WifiCfg);
    assert!(ifaces.get_iface("both", InterfaceType::WifiCfg).is_none());
    assert!(ifaces.get_iface("prof", InterfaceType::Ethernet).is_none());
    assert!(ifaces.get_iface("nope", InterfaceType::Unknown).is_none());
}

#[test]
fn update_merges_and_appends() {
    let mut cur = Interfaces::new();
    let mut eth0 = plain("eth0", InterfaceType::Ethernet);
    eth0.base_iface_mut().mac_address = Some("aa".to_string());
    cur.push(eth0);
    cur.push(plain("eth1", InterfaceType::Ethernet));
    let mut other = Interfaces::new();
    let mut upd = plain("eth0", InterfaceType::Ethernet);
    upd.base_iface_mut().state = InterfaceState::Down;
    upd.base_iface_mut().ipv4 = Some(InterfaceIp::new_disabled());
    other.push(plain("br0", InterfaceType::LinuxBridge));
    other.push(upd);
    other.push(plain("ovsbr0", InterfaceType::OvsBridge));
    cur.update(&other);
    assert_eq!(names(cur.kernel_ifaces()), vec!["eth0", "eth1", "br0"]);
    assert_eq!(names(cur.user_ifaces()), vec!["ovsbr0"]);
    let e = cur.get_iface("eth0", InterfaceType::Ethernet).unwrap();
    assert!(e.is_down());
    assert_eq!(e.base_iface().mac_address.as_deref(), Some("aa"));
    assert_eq!(e.base_iface().ipv4, Some(InterfaceIp::new_disabled()));
}

#[test]
fn update_builds_ovs_interface_on_tun_device() {
    let mut cur = Interfaces::new();
    let mut tun = plain("ovs0", InterfaceType::Tun);
    tun.base_iface_mut().mac_address = Some("aa:bb".to_string());
    tun.base_iface_mut().state = InterfaceState::Down;
    cur.push(tun);
    let mut other = Interfaces::new();
    let mut b = base("ovs0", InterfaceType::OvsInterface);
    b.controller = Some("ovsbr0".to_string());
    b.controller_type = Some(InterfaceType::OvsBridge);
    other.push(Interface::OvsInterface(OvsInterface { base: b, patch_peer: Some("peer1".to_string()) }));
    cur.update(&other);
    assert_eq!(cur.kernel_ifaces().len(), 1);
    let got = &cur.kernel_ifaces()[0];
    assert_eq!(got.iface_type(), InterfaceType::OvsInterface);
    assert!(got.is_up());
    assert_eq!(got.base_iface().mac_address.as_deref(), Some("aa:bb"));
    assert_eq!(got.base_iface().controller.as_deref(), Some("ovsbr0"));
    assert_eq!(got.base_iface().controller_type, Some(InterfaceType::OvsBridge));
    match got {
        Interface::OvsInterface(o) => assert_eq!(o.patch_peer.as_deref(), Some("peer1")),
        _ => panic!("not an OVS interface"),
    }
}

#[test]
fn has_up_ovs_iface_finds_ovs_kinds() {
    let mut ifaces = Interfaces::new();
    ifaces.push(plain("eth0", InterfaceType::Ethernet));
    assert!(!ifaces.has_up_ovs_iface());
    ifaces.push(plain("ovs0", InterfaceType::OvsInterface));
    assert!(ifaces.has_up_ovs_iface());
    let mut only_bridge = Interfaces::new();
    only_bridge.push(plain("ovsbr0", InterfaceType::OvsBridge));
    assert!(only_bridge.has_up_ovs_iface());
}

#[test]
fn unknown_type_ports_are_found_and_removed() {
    let mut ifaces = Interfaces::new();
    ifaces.push(plain("eth1", InterfaceType::Ethernet));
    ifaces.push(plain("mystery", InterfaceType::Unknown));
    ifaces.push(bridge("br0", &["eth1", "gone", "mystery", "eth1"]));
    ifaces.push(Interface::OvsBridge(OvsBridgeInterface {
        base: base("ovsbr0", InterfaceType::OvsBridge),
        ports: Some(vec!["nowhere".to_string(), "br0".to_string()]),
    }));
    let br = ifaces.get_iface("br0", InterfaceType::LinuxBridge).unwrap().clone();
    assert_eq!(find_unknown_type_port(&br, &ifaces), vec!["gone", "mystery"]);
    assert!(find_unknown_type_port(&plain("eth1", InterfaceType::Ethernet), &ifaces).is_empty());
    ifaces.remove_unknown_type_port();
    assert_eq!(
        ifaces.get_iface("br0", InterfaceType::LinuxBridge).unwrap().ports(),
        Some(&vec!["eth1".to_string(), "eth1".to_string()])
    );
    assert_eq!(
        ifaces.get_iface("ovsbr0", InterfaceType::OvsBridge).unwrap().ports(),
        Some(&vec!["br0".to_string()])
    );
    assert_eq!(names(ifaces.kernel_ifaces()), vec!["eth1", "mystery", "br0"]);
}

#[test]
fn ignored_interfaces_are_taken_out() {
    let mut ifaces = Interfaces::new();
    ifaces.push(plain("eth0", InterfaceType::Ethernet));
    ifaces.push(plain("eth1", InterfaceType::Ethernet));
    ifaces.push(plain("eth0", InterfaceType::OvsBridge));
    ifaces.push(plain("prof", InterfaceType::WifiCfg));
    ifaces.remove_ignored_ifaces(&vec![
        ("eth0".to_string(), InterfaceType::Vlan),
        ("prof".to_string(), InterfaceType::OvsBridge),
        ("eth1".to_string(), InterfaceType::WifiCfg),
    ]);
    assert_eq!(names(ifaces.kernel_ifaces()), vec!["eth1"]);
    assert_eq!(names(ifaces.user_ifaces()), vec!["eth0", "prof"]);
    ifaces.remove_ignored_ifaces(&vec![("eth0".to_string(), InterfaceType::OvsBridge)]);
    assert_eq!(names(ifaces.user_ifaces()), vec!["prof"]);
}

#[test]
fn collection_clone_is_equal() {
    let mut ifaces = Interfaces::new();
    ifaces.push(bridge("br0", &["a"]));
    ifaces.push(plain("prof", InterfaceType::WifiCfg));
    let copy = ifaces.clone();
    assert_eq!(copy.to_vec(), ifaces.to_vec());
}
