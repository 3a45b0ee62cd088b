use nipart::base::{BaseInterface, ChangeContext, InterfaceIp, InterfaceState, InterfaceType};
use nipart::error::ErrorKind;
use nipart::iface::{
    BondInterface, EthernetInterface, Interface, OvsInterface, VlanInterface, WifiCfgInterface,
    WifiConfig,
};
use nipart::json::{JsonObject, JsonValue};
use nipart::trigger::InterfaceTrigger;

fn base(name: &str, t: InterfaceType) -> BaseInterface {
    BaseInterface::new(name.to_string(), t)
}

fn full_eth() -> Interface {
    let mut b = base("eth0", InterfaceType::Ethernet);
    b.state = InterfaceState::Down;
    b.controller = Some("br0".to_string());
    b.controller_type = Some(InterfaceType::LinuxBridge);
    b.mac_address = Some("00:11:22:33:44:55".to_string());
    b.ipv4 = Some(InterfaceIp {
        enabled: Some(true),
        dhcp: Some(false),
        addresses: Some(vec!["192.0.2.1/24".to_string()]),
    });
    b.ipv6 = Some(InterfaceIp::new_disabled());
    b.up_trigger = Some(InterfaceTrigger::WifiUp(Box::new("home".to_string())));
    b.down_trigger = Some(InterfaceTrigger::Never);
    b.up_priority = 10;
    Interface::Ethernet(EthernetInterface {
        base: b,
        veth_peer: Some("eth0p".to_string()),
        sr_iov_vfs: Some(vec!["eth0v0".to_string(), "eth0v1".to_string()]),
    })
}

#[test]
fn type_and_state_names() {
    let all = [
        (InterfaceType::Bond, "bond"),
        (InterfaceType::LinuxBridge, "linux-bridge"),
        (InterfaceType::Ethernet, "ethernet"),
        (InterfaceType::Veth, "veth"),
        (InterfaceType::Vlan, "vlan"),
        (InterfaceType::Tun, "tun"),
        (InterfaceType::WifiPhy, "wifi-phy"),
        (InterfaceType::WifiCfg, "wifi-cfg"),
        (InterfaceType::OvsBridge, "ovs-bridge"),
        (InterfaceType::OvsInterface, "ovs-interface"),
        (InterfaceType::Unknown, "unknown"),
    ];
    for (t, name) in all {
        assert_eq!(t.as_str(), name);
        assert_eq!(InterfaceType::from_name(&name.to_string()), Some(t));
    }
    assert_eq!(InterfaceType::from_name(&"bridge".to_string()), None);
    for (s, name) in [
        (InterfaceState::Up, "up"),
        (InterfaceState::Down, "down"),
        (InterfaceState::Absent, "absent"),
    ] {
        assert_eq!(s.as_str(), name);
        assert_eq!(InterfaceState::from_name(&name.to_string()), Some(s));
    }
    assert_eq!(InterfaceState::from_name(&"UP".to_string()), None);
    assert!(InterfaceType::OvsBridge.is_userspace());
    assert!(InterfaceType::WifiCfg.is_userspace());
    assert!(!InterfaceType::OvsInterface.is_userspace());
    assert!(!InterfaceType::Ethernet.is_userspace());
}

#[test]
fn interface_value_holds_what_is_set() {
    let v = full_eth().to_value();
    assert_eq!(
        v.render(),
        "{\"controller\":\"br0\",\"controller-type\":\"linux-bridge\",\
         \"down-trigger\":\"never\",\
         \"ipv4\":{\"address\":[\"192.0.2.1/24\"],\"dhcp\":false,\"enabled\":true},\
         \"ipv6\":{\"enabled\":false},\"mac-address\":\"00:11:22:33:44:55\",\
         \"name\":\"eth0\",\"sr-iov-vfs\":[\"eth0v0\",\"eth0v1\"],\"state\":\"down\",\
         \"type\":\"ethernet\",\"up-priority\":10,\"up-trigger\":{\"wifi-up\":\"home\"},\
         \"veth-peer\":\"eth0p\"}"
    );
    let plain = Interface::from_base(base("br0", InterfaceType::LinuxBridge));
    assert_eq!(
        plain.to_value().render(),
        "{\"name\":\"br0\",\"state\":\"up\",\"type\":\"linux-bridge\"}"
    );
}

#[test]
fn interface_value_leads_back_to_interface() {
    let ifaces = vec![
        full_eth(),
        Interface::from_base(base("tun0", InterfaceType::Tun)),
        Interface::from_base(base("x", InterfaceType::Unknown)),
        Interface::Vlan(VlanInterface {
            base: base("eth0.5", InterfaceType::Vlan),
            vlan_base_iface: Some("eth0".to_string()),
            vlan_id: Some(5),
        }),
        Interface::Bond(BondInterface {
            base: base("bond0", InterfaceType::Bond),
            ports: Some(vec!["eth1".to_string(), "eth2".to_string()]),
        }),
        Interface::OvsInterface(OvsInterface {
            base: base("ovs0", InterfaceType::OvsInterface),
            patch_peer: Some("ovs1".to_string()),
        }),
        Interface::WifiCfg(WifiCfgInterface {
            base: base("home-wifi", InterfaceType::WifiCfg),
            wifi: Some(WifiConfig { ssid: Some("home".to_string()), base_iface: None }),
        }),
    ];
    for i in ifaces {
        let back = Interface::from_value(&i.to_value()).unwrap();
        assert_eq!(back, i);
    }
}

#[test]
fn change_context_is_no_part_of_the_value() {
    let mut i = full_eth();
    let plain = i.to_value();
    i.include_diff_context(&Interface::from_base(base("eth0", InterfaceType::Ethernet)));
    assert_eq!(
        i.base_iface().context,
        Some(ChangeContext { current_state: InterfaceState::Up, desired_state: None })
    );
    assert!(i.to_value().same(&plain));
    let back = Interface::from_value(&i.to_value()).unwrap();
    assert_eq!(back.base_iface().context, None);
}

fn obj(entries: Vec<(&str, JsonValue)>) -> JsonValue {
    let mut o = JsonObject::new();
    for (k, v) in entries {
        o.insert(k.to_string(), v);
    }
    JsonValue::Object(o)
}

fn text(s: &str) -> JsonValue {
    JsonValue::Text(s.to_string())
}

#[test]
fn malformed_interface_values_are_refused() {
    let bad = vec![
        JsonValue::Null,
        text("eth0"),
        obj(vec![("type", text("ethernet"))]),
        obj(vec![("name", text("eth0"))]),
        obj(vec![("name", text("eth0")), ("type", text("nonsense"))]),
        obj(vec![("name", text("eth0")), ("type", text("ethernet")), ("state", text("sideways"))]),
        obj(vec![("name", text("eth0")), ("type", text("ethernet")), ("mtu", JsonValue::Number(1))]),
        obj(vec![("name", text("eth0")), ("type", text("ethernet")), ("ports", JsonValue::Array(vec![]))]),
        obj(vec![("name", text("eth0")), ("type", text("ethernet")), ("up-priority", JsonValue::Number(-1))]),
        obj(vec![("name", text("eth0")), ("type", text("ethernet")), ("up-priority", JsonValue::Number(4294967296))]),
        obj(vec![("name", text("b")), ("type", text("bond")), ("ports", JsonValue::Array(vec![JsonValue::Number(1)]))]),
        obj(vec![("name", text("v")), ("type", text("vlan")), ("vlan-id", JsonValue::Number(65536))]),
        obj(vec![("name", text("eth0")), ("type", text("ethernet")), ("ipv4", obj(vec![("enabled", text("yes"))]))]),
        obj(vec![("name", text("eth0")), ("type", text("ethernet")), ("ipv4", obj(vec![("bogus", JsonValue::Null)]))]),
        obj(vec![("name", text("eth0")), ("type", text("ethernet")), ("up-trigger", text("sometimes"))]),
        obj(vec![("name", text("w")), ("type", text("wifi-cfg")), ("wifi", obj(vec![("ssid", JsonValue::Number(1))]))]),
    ];
    for v in bad {
        let e = Interface::from_value(&v).unwrap_err();
        assert_eq!(e.kind(), ErrorKind::StructuralError, "{}", v.render());
        assert_eq!(e.msg(), "The value does not hold a well-formed interface");
    }
}

#[test]
fn null_counts_as_missing_and_state_defaults_to_up() {
    let v = obj(vec![
        ("name", text("eth0")),
        ("type", text("ethernet")),
        ("ipv4", JsonValue::Null),
        ("mac-address", JsonValue::Null),
        ("veth-peer", JsonValue::Null),
        ("up-priority", JsonValue::Number(4294967295)),
    ]);
    let i = Interface::from_value(&v).unwrap();
    assert_eq!(i, Interface::from_base(base("eth0", InterfaceType::Ethernet)));
    assert_eq!(i.base_iface().state, InterfaceState::Up);
    assert_eq!(i.base_iface().up_priority, u32::MAX);
}

#[test]
fn predicates_follow_kind_and_state() {
    let eth = Interface::from_base(base("eth0", InterfaceType::Ethernet));
    let br = Interface::from_base(base("br0", InterfaceType::LinuxBridge));
    let phy = Interface::from_base(base("wlan0", InterfaceType::WifiPhy));
    let cfg = Interface::from_base(base("home", InterfaceType::WifiCfg));
    let ovsbr = Interface::from_base(base("ovsbr0", InterfaceType::OvsBridge));
    let veth = Interface::from_base(base("veth0", InterfaceType::Veth));
    assert!(!eth.is_virtual() && !phy.is_virtual() && !veth.is_virtual());
    assert!(br.is_virtual() && cfg.is_virtual() && ovsbr.is_virtual());
    assert!(br.is_controller() && ovsbr.is_controller() && !eth.is_controller());
    assert!(cfg.is_userspace() && ovsbr.is_userspace() && !br.is_userspace());
    assert!(eth.is_up() && !eth.is_down() && !eth.is_absent());
    assert!(matches!(veth, Interface::Ethernet(_)));
    assert_eq!(eth.name(), "eth0");
    assert_eq!(veth.iface_type(), InterfaceType::Veth);
    assert!(br.ports().is_none());
    let only = full_eth().clone_name_type_only();
    assert_eq!(only, Interface::from_base(base("eth0", InterfaceType::Ethernet)));
}

#[test]
fn update_lays_set_fields_over() {
    let mut cur = full_eth();
    let mut upd = base("ignored-name", InterfaceType::Ethernet);
    upd.state = InterfaceState::Up;
    upd.mac_address = Some("aa:bb".to_string());
    upd.ipv4 = Some(InterfaceIp { enabled: None, dhcp: Some(true), addresses: None });
    upd.up_priority = 3;
    let other = Interface::Ethernet(EthernetInterface {
        base: upd,
        veth_peer: None,
        sr_iov_vfs: Some(vec![]),
    });
    cur.update(&other);
    let b = cur.base_iface();
    assert_eq!(b.name, "eth0");
    assert_eq!(b.state, InterfaceState::Up);
    assert_eq!(b.mac_address.as_deref(), Some("aa:bb"));
    assert_eq!(b.controller.as_deref(), Some("br0"));
    assert_eq!(
        b.ipv4,
        Some(InterfaceIp {
            enabled: Some(true),
            dhcp: Some(true),
            addresses: Some(vec!["192.0.2.1/24".to_string()]),
        })
    );
    assert_eq!(b.ipv6, Some(InterfaceIp::new_disabled()));
    assert_eq!(b.up_priority, 3);
    match &cur {
        Interface::Ethernet(e) => {
            assert_eq!(e.veth_peer.as_deref(), Some("eth0p"));
            assert_eq!(e.sr_iov_vfs, Some(vec![]));
        }
        _ => panic!("kind changed"),
    }
    let before = cur.clone();
    cur.update(&Interface::Bond(BondInterface {
        base: base("x", InterfaceType::Bond),
        ports: Some(vec!["p".to_string()]),
    }));
    match (&cur, &before) {
        (Interface::Ethernet(a), Interface::Ethernet(b)) => {
            assert_eq!(a.veth_peer, b.veth_peer);
            assert_eq!(a.sr_iov_vfs, b.sr_iov_vfs);
        }
        _ => panic!("kind changed"),
    }
}

#[test]
fn sanitize_clears_disabled_families_and_is_idempotent() {
    let mut i = full_eth();
    i.base_iface_mut().ipv4 = Some(InterfaceIp {
        enabled: Some(false),
        dhcp: Some(true),
        addresses: Some(vec!["192.0.2.1/24".to_string()]),
    });
    assert!(i.sanitize(true).is_ok());
    assert_eq!(i.base_iface().ipv4, Some(InterfaceIp::new_disabled()));
    let once = i.clone();
    assert!(i.sanitize(false).is_ok());
    assert_eq!(i, once);
    i.sanitize_desired_for_verify();
    assert_eq!(i.base_iface().up_trigger, None);
    assert_eq!(i.base_iface().down_trigger, None);
    assert_eq!(i.base_iface().up_priority, u32::MAX);
    let twice = i.clone();
    i.sanitize_current_for_verify();
    assert_eq!(i, twice);
}

#[test]
fn wildcard_wifi_up_not_is_refused_when_desired() {
    let mut i = full_eth();
    i.base_iface_mut().down_trigger = Some(InterfaceTrigger::WifiUpNot(Box::new("*".to_string())));
    let before = i.clone();
    let e = i.sanitize(true).unwrap_err();
    assert_eq!(e.kind(), ErrorKind::InvalidArgument);
    assert_eq!(e.msg(), "The trigger wifi-up-not does not take the SSID *, use never instead");
    assert_eq!(i, before);
    assert!(i.sanitize(false).is_ok());
    let mut ok = full_eth();
    ok.base_iface_mut().up_trigger = Some(InterfaceTrigger::WifiUpNot(Box::new("home".to_string())));
    assert!(ok.sanitize(true).is_ok());
}

#[test]
fn remove_port_takes_every_occurrence() {
    let mut b = Interface::Bond(BondInterface {
        base: base("bond0", InterfaceType::Bond),
        ports: Some(vec!["a".to_string(), "b".to_string(), "a".to_string()]),
    });
    b.remove_port("a");
    assert_eq!(b.ports(), Some(&vec!["b".to_string()]));
    b.remove_port("zzz");
    assert_eq!(b.ports(), Some(&vec!["b".to_string()]));
    let mut e = full_eth();
    let before = e.clone();
    e.remove_port("eth0v0");
    assert_eq!(e, before);
}

#[test]
fn verify_reports_what_is_not_met() {
    let mut des = Interface::from_base(base("eth0", InterfaceType::Ethernet));
    des.base_iface_mut().mac_address = Some("aa".to_string());
    des.base_iface_mut().ipv4 = Some(InterfaceIp { enabled: Some(true), dhcp: Some(true), addresses: None });
    let mut cur = des.clone();
    cur.base_iface_mut().ipv4 = Some(InterfaceIp {
        enabled: Some(true),
        dhcp: Some(false),
        addresses: Some(vec!["192.0.2.1/24".to_string()]),
    });
    cur.base_iface_mut().controller = Some("br0".to_string());
    let e = des.verify(&cur).unwrap_err();
    assert_eq!(e.kind(), ErrorKind::VerificationError);
    assert_eq!(
        e.msg(),
        "Verification failure: interface eth0/ethernet desire '{\"ipv4\":{\"dhcp\":true}}', current '{\"ipv4\":{\"dhcp\":false}}'"
    );
    cur.base_iface_mut().ipv4 = Some(InterfaceIp {
        enabled: Some(true),
        dhcp: Some(true),
        addresses: Some(vec!["192.0.2.1/24".to_string()]),
    });
    assert!(des.verify(&cur).is_ok());
    assert!(!full_eth().sriov_is_enabled() == false);
    assert!(!des.sriov_is_enabled());
}
