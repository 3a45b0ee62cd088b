use nipart::base::{BaseInterface, ChangeContext, InterfaceIp, InterfaceState, InterfaceType};
use nipart::error::ErrorKind;
use nipart::iface::{
    EthernetInterface, Interface, LinuxBridgeInterface, OvsBridgeInterface, OvsInterface,
};
use nipart::ifaces::Interfaces;
use nipart::merged::{MergedInterface, MergedInterfaces};
use nipart::revert::is_no_op;
use nipart::trigger::InterfaceTrigger;
use nipart::verify::verify_desire_absent_but_found_in_current;

fn base(name: &str, t: InterfaceType) -> BaseInterface {
    BaseInterface::new(name.to_string(), t)
}

fn plain(name: &str, t: InterfaceType) -> Interface {
    Interface::from_base(base(name, t))
}

fn with_state(name: &str, t: InterfaceType, s: InterfaceState) -> Interface {
    let mut i = plain(name, t);
    i.base_iface_mut().state = s;
    i
}

fn ifaces(v: Vec<Interface>) -> Interfaces {
    let mut r = Interfaces::new();
    for i in v {
        r.push(i);
    }
    r
}

fn merge(desired: Vec<Interface>, current: Vec<Interface>) -> MergedInterfaces {
    MergedInterfaces::new(ifaces(desired), ifaces(current), vec![], false).unwrap()
}

#[test]
fn record_needs_desired_or_current() {
    let e = MergedInterface::new(None, None).unwrap_err();
    assert_eq!(e.kind(), ErrorKind::Bug);
}

#[test]
fn record_of_desired_and_current() {
    let mut des = plain("eth0", InterfaceType::Ethernet);
    des.base_iface_mut().ipv4 = Some(InterfaceIp {
        enabled: Some(false),
        dhcp: Some(true),
        addresses: None,
    });
    des.base_iface_mut().up_trigger = Some(InterfaceTrigger::Always);
    des.base_iface_mut().up_priority = 5;
    let mut cur = plain("eth0", InterfaceType::Ethernet);
    cur.base_iface_mut().mac_address = Some("aa".to_string());
    let m = MergedInterface::new(Some(des.clone()), Some(cur.clone())).unwrap();
    assert!(m.is_desired() && m.is_changed() && !m.is_absent());
    assert_eq!(m.desired, Some(des.clone()));
    assert_eq!(m.current, Some(cur.clone()));
    let apply = m.for_apply.clone().unwrap();
    assert_eq!(apply.base_iface().ipv4, Some(InterfaceIp::new_disabled()));
    assert_eq!(apply.base_iface().up_trigger, Some(InterfaceTrigger::Always));
    let verify = m.for_verify.clone().unwrap();
    assert_eq!(verify.base_iface().up_trigger, None);
    assert_eq!(verify.base_iface().up_priority, u32::MAX);
    assert_eq!(verify.base_iface().ipv4, Some(InterfaceIp::new_disabled()));
    assert_eq!(m.merged.base_iface().mac_address.as_deref(), Some("aa"));
    assert_eq!(m.merged.base_iface().up_priority, 5);
    let only_cur = MergedInterface::new(None, Some(cur.clone())).unwrap();
    assert!(!only_cur.is_desired() && !only_cur.is_changed());
    assert_eq!(only_cur.merged, cur);
    assert!(only_cur.for_apply.is_none() && only_cur.for_verify.is_none());
    let only_des = MergedInterface::new(Some(des.clone()), None).unwrap();
    assert!(only_des.is_changed());
    assert_eq!(only_des.merged, des);
}

#[test]
fn physical_down_expects_nothing() {
    let m = MergedInterface::new(
        Some(with_state("eth1", InterfaceType::Ethernet, InterfaceState::Down)),
        Some(plain("eth1", InterfaceType::Ethernet)),
    )
    .unwrap();
    assert!(m.for_apply.is_some());
    assert!(m.for_verify.is_none());
    let v = MergedInterface::new(
        Some(with_state("br0", InterfaceType::LinuxBridge, InterfaceState::Down)),
        None,
    )
    .unwrap();
    assert!(v.for_verify.is_some());
}

#[test]
fn ovs_interface_on_tun_is_built_on_the_device() {
    let mut tun = plain("ovs0", InterfaceType::Tun);
    tun.base_iface_mut().mac_address = Some("aa:bb".to_string());
    let mut b = base("ovs0", InterfaceType::OvsInterface);
    b.controller = Some("ovsbr0".to_string());
    let des = Interface::OvsInterface(OvsInterface { base: b, patch_peer: None });
    let m = MergedInterface::new(Some(des), Some(tun)).unwrap();
    let apply = m.for_apply.unwrap();
    assert_eq!(apply.iface_type(), InterfaceType::OvsInterface);
    assert_eq!(apply.base_iface().mac_address.as_deref(), Some("aa:bb"));
    assert_eq!(apply.base_iface().controller.as_deref(), Some("ovsbr0"));
    assert_eq!(m.merged.iface_type(), InterfaceType::OvsInterface);
}

#[test]
fn merge_orders_observed_first_then_new() {
    let m = merge(
        vec![
            plain("new1", InterfaceType::LinuxBridge),
            plain("eth1", InterfaceType::Ethernet),
            plain("prof", InterfaceType::WifiCfg),
        ],
        vec![
            plain("eth0", InterfaceType::Ethernet),
            plain("eth1", InterfaceType::Ethernet),
            plain("ovsbr0", InterfaceType::OvsBridge),
        ],
    );
    let k: Vec<(String, bool, bool)> = m
        .kernel_ifaces
        .iter()
        .map(|r| (r.merged.name().to_string(), r.desired.is_some(), r.current.is_some()))
        .collect();
    assert_eq!(
        k,
        vec![
            ("eth0".to_string(), false, true),
            ("eth1".to_string(), true, true),
            ("new1".to_string(), true, false),
        ]
    );
    let u: Vec<(String, bool, bool)> = m
        .user_ifaces
        .iter()
        .map(|r| (r.merged.name().to_string(), r.desired.is_some(), r.current.is_some()))
        .collect();
    assert_eq!(u, vec![("ovsbr0".to_string(), false, true), ("prof".to_string(), true, false)]);
    assert_eq!(m.to_vec().len(), 5);
}

#[test]
fn merge_refuses_invalid_trigger_and_skips_ignored() {
    let mut bad = plain("eth0", InterfaceType::Ethernet);
    bad.base_iface_mut().up_trigger = Some(InterfaceTrigger::WifiUpNot(Box::new("*".to_string())));
    let e = MergedInterfaces::new(ifaces(vec![bad.clone()]), Interfaces::new(), vec![], false)
        .unwrap_err();
    assert_eq!(e.kind(), ErrorKind::InvalidArgument);
    let m = MergedInterfaces::new(
        ifaces(vec![bad]),
        ifaces(vec![plain("eth0", InterfaceType::Ethernet), plain("eth1", InterfaceType::Ethernet)]),
        vec![("eth0".to_string(), InterfaceType::Ethernet)],
        true,
    )
    .unwrap();
    assert_eq!(m.kernel_ifaces.len(), 1);
    assert_eq!(m.kernel_ifaces[0].merged.name(), "eth1");
    assert!(m.allow_extra_ovs_patch_ports);
    assert_eq!(m.ignored_ifaces, vec![("eth0".to_string(), InterfaceType::Ethernet)]);
}

#[test]
fn gen_diff_states_only_changes() {
    let mut des = plain("eth0", InterfaceType::Ethernet);
    des.base_iface_mut().ipv4 = Some(InterfaceIp {
        enabled: Some(true),
        dhcp: Some(true),
        addresses: None,
    });
    des.base_iface_mut().mac_address = Some("aa".to_string());
    let mut cur = plain("eth0", InterfaceType::Ethernet);
    cur.base_iface_mut().state = InterfaceState::Down;
    cur.base_iface_mut().ipv4 = Some(InterfaceIp {
        enabled: Some(true),
        dhcp: Some(false),
        addresses: Some(vec!["192.0.2.1/24".to_string()]),
    });
    cur.base_iface_mut().mac_address = Some("aa".to_string());
    let fresh = plain("br0", InterfaceType::LinuxBridge);
    let same = plain("eth1", InterfaceType::Ethernet);
    let m = merge(
        vec![des, fresh.clone(), same.clone()],
        vec![cur, same, plain("eth2", InterfaceType::Ethernet)],
    );
    let diff = m.gen_diff().unwrap();
    let all = diff.to_vec();
    assert_eq!(all.len(), 2);
    let d = &all[0];
    assert_eq!(d.name(), "eth0");
    assert_eq!(
        d.to_value().render(),
        "{\"ipv4\":{\"dhcp\":true},\"name\":\"eth0\",\"state\":\"up\",\"type\":\"ethernet\"}"
    );
    assert_eq!(
        d.base_iface().context,
        Some(ChangeContext { current_state: InterfaceState::Down, desired_state: None })
    );
    assert_eq!(all[1], fresh);
}

#[test]
fn gen_diff_is_empty_once_applied() {
    let mut des = plain("eth0", InterfaceType::Ethernet);
    des.base_iface_mut().ipv4 = Some(InterfaceIp {
        enabled: Some(true),
        dhcp: Some(true),
        addresses: None,
    });
    let mut cur = plain("eth0", InterfaceType::Ethernet);
    cur.base_iface_mut().mac_address = Some("aa".to_string());
    let first = merge(vec![des.clone()], vec![cur.clone()]).gen_diff().unwrap();
    assert_eq!(first.to_vec().len(), 1);
    let mut after = cur.clone();
    after.update(&first.to_vec()[0]);
    let second = merge(vec![des], vec![after]).gen_diff().unwrap();
    assert!(second.is_empty());
}

#[test]
fn revert_of_new_interface_takes_it_away() {
    let m = MergedInterface::new(Some(plain("br0", InterfaceType::LinuxBridge)), None).unwrap();
    let r = m.generate_revert().unwrap().unwrap();
    assert_eq!(r, with_state("br0", InterfaceType::LinuxBridge, InterfaceState::Absent));
    let none = MergedInterface::new(None, Some(plain("eth0", InterfaceType::Ethernet))).unwrap();
    assert!(none.generate_revert().unwrap().is_none());
}

#[test]
fn revert_restores_what_current_held() {
    let mut des = plain("eth0", InterfaceType::Ethernet);
    des.base_iface_mut().ipv4 = Some(InterfaceIp {
        enabled: Some(true),
        dhcp: Some(true),
        addresses: None,
    });
    des.base_iface_mut().mac_address = Some("bb".to_string());
    let mut cur = plain("eth0", InterfaceType::Ethernet);
    cur.base_iface_mut().state = InterfaceState::Down;
    cur.base_iface_mut().ipv4 = Some(InterfaceIp {
        enabled: Some(true),
        dhcp: Some(false),
        addresses: Some(vec!["192.0.2.1/24".to_string()]),
    });
    cur.base_iface_mut().controller = Some("br0".to_string());
    let m = MergedInterface::new(Some(des.clone()), Some(cur.clone())).unwrap();
    let r = m.generate_revert().unwrap().unwrap();
    assert_eq!(
        r.to_value().render(),
        "{\"ipv4\":{\"dhcp\":false,\"enabled\":true},\"name\":\"eth0\",\"state\":\"down\",\"type\":\"ethernet\"}"
    );
    assert_eq!(
        r.base_iface().context,
        Some(ChangeContext {
            current_state: InterfaceState::Down,
            desired_state: Some(InterfaceState::Up),
        })
    );
    let mut applied = cur.clone();
    applied.update(&des);
    applied.update(&r);
    assert_eq!(applied.base_iface().state, cur.base_iface().state);
    assert_eq!(applied.base_iface().ipv4, cur.base_iface().ipv4);
    assert_eq!(applied.base_iface().controller, cur.base_iface().controller);
}

#[test]
fn revert_of_no_change_is_none() {
    let mut cur = plain("eth0", InterfaceType::Ethernet);
    cur.base_iface_mut().ipv4 = Some(InterfaceIp {
        enabled: Some(true),
        dhcp: Some(false),
        addresses: Some(vec!["192.0.2.1/24".to_string()]),
    });
    cur.base_iface_mut().mac_address = Some("aa".to_string());
    let same = MergedInterface::new(Some(cur.clone()), Some(cur.clone())).unwrap();
    assert!(same.generate_revert().unwrap().is_none());
    let mut part = plain("eth0", InterfaceType::Ethernet);
    part.base_iface_mut().mac_address = Some("aa".to_string());
    let subset = MergedInterface::new(Some(part.clone()), Some(cur.clone())).unwrap();
    assert!(subset.generate_revert().unwrap().is_none());
    assert!(is_no_op(&part, &part.clone()));
    assert!(!is_no_op(&part, &cur));
}

#[test]
fn revert_of_removal_is_current_in_full() {
    let mut cur = plain("br0", InterfaceType::LinuxBridge);
    cur.base_iface_mut().mac_address = Some("aa".to_string());
    let des = with_state("br0", InterfaceType::LinuxBridge, InterfaceState::Absent);
    let m = MergedInterface::new(Some(des.clone()), Some(cur.clone())).unwrap();
    assert_eq!(m.generate_revert().unwrap(), Some(cur.clone()));
    assert_eq!(des.generate_revert(&cur).unwrap(), cur);
}

#[test]
fn verify_fails_for_virtual_interface_that_is_still_there() {
    let m = merge(
        vec![with_state("br0", InterfaceType::LinuxBridge, InterfaceState::Absent)],
        vec![plain("br0", InterfaceType::LinuxBridge)],
    );
    let observed = ifaces(vec![plain("br0", InterfaceType::LinuxBridge)]);
    let e = m.verify(&observed).unwrap_err();
    assert_eq!(e.kind(), ErrorKind::VerificationError);
    assert_eq!(
        e.msg(),
        "Absent/Down interface br0/linux-bridge still found as {\"name\":\"br0\",\"state\":\"up\",\"type\":\"linux-bridge\"}"
    );
    assert!(m.verify(&Interfaces::new()).is_ok());
    let down = merge(
        vec![with_state("br0", InterfaceType::LinuxBridge, InterfaceState::Down)],
        vec![plain("br0", InterfaceType::LinuxBridge)],
    );
    assert!(down.verify(&observed).is_err());
}

#[test]
fn verify_passes_for_physical_interface_taken_down() {
    let m = merge(
        vec![with_state("eth1", InterfaceType::Ethernet, InterfaceState::Down)],
        vec![plain("eth1", InterfaceType::Ethernet)],
    );
    let observed = ifaces(vec![plain("eth1", InterfaceType::Ethernet)]);
    assert!(m.verify(&observed).is_ok());
    let gone = merge(
        vec![with_state("eth1", InterfaceType::Ethernet, InterfaceState::Absent)],
        vec![plain("eth1", InterfaceType::Ethernet)],
    );
    assert!(gone.verify(&observed).is_ok());
}

#[test]
fn verify_needs_up_interface_to_be_found_and_met() {
    let mut des = plain("eth0", InterfaceType::Ethernet);
    des.base_iface_mut().mac_address = Some("aa".to_string());
    des.base_iface_mut().up_trigger = Some(InterfaceTrigger::Always);
    des.base_iface_mut().up_priority = 1;
    let m = merge(vec![des.clone()], vec![]);
    let e = m.verify(&Interfaces::new()).unwrap_err();
    assert_eq!(e.kind(), ErrorKind::VerificationError);
    assert_eq!(e.msg(), "Failed to find desired interface eth0 ethernet");
    let mut cur = plain("eth0", InterfaceType::Ethernet);
    cur.base_iface_mut().mac_address = Some("bb".to_string());
    let e = m.verify(&ifaces(vec![cur.clone()])).unwrap_err();
    assert_eq!(
        e.msg(),
        "Verification failure: interface eth0/ethernet desire '{\"mac-address\":\"aa\"}', current '{\"mac-address\":\"bb\"}'"
    );
    cur.base_iface_mut().mac_address = Some("aa".to_string());
    cur.base_iface_mut().controller = Some("extra".to_string());
    assert!(m.verify(&ifaces(vec![cur])).is_ok());
}

#[test]
fn verify_checks_virtual_functions() {
    let des = Interface::Ethernet(EthernetInterface {
        base: base("eth0", InterfaceType::Ethernet),
        veth_peer: None,
        sr_iov_vfs: Some(vec!["eth0v0".to_string(), "eth0v1".to_string()]),
    });
    let m = merge(vec![des.clone()], vec![]);
    let e = m
        .verify(&ifaces(vec![des.clone(), plain("eth0v0", InterfaceType::Ethernet)]))
        .unwrap_err();
    assert_eq!(e.kind(), ErrorKind::VerificationError);
    assert_eq!(e.msg(), "SR-IOV VF interface eth0v1 of eth0 not found in current state");
    assert!(m
        .verify(&ifaces(vec![
            des,
            plain("eth0v0", InterfaceType::Ethernet),
            plain("eth0v1", InterfaceType::Ethernet),
        ]))
        .is_ok());
}

#[test]
fn verify_ignores_unknown_ports_and_ignored_interfaces() {
    let des = Interface::LinuxBridge(LinuxBridgeInterface {
        base: base("br0", InterfaceType::LinuxBridge),
        ports: Some(vec!["eth1".to_string()]),
    });
    let observed_bridge = Interface::LinuxBridge(LinuxBridgeInterface {
        base: base("br0", InterfaceType::LinuxBridge),
        ports: Some(vec!["eth1".to_string(), "ghost".to_string()]),
    });
    let m = merge(vec![des.clone()], vec![]);
    let observed = ifaces(vec![observed_bridge.clone(), plain("eth1", InterfaceType::Ethernet)]);
    assert!(m.verify(&observed).is_ok());
    let with_real_extra = ifaces(vec![
        observed_bridge,
        plain("eth1", InterfaceType::Ethernet),
        plain("ghost", InterfaceType::Ethernet),
    ]);
    assert!(m.verify(&with_real_extra).is_err());
    let ignoring = MergedInterfaces::new(
        ifaces(vec![des, with_state("gone", InterfaceType::LinuxBridge, InterfaceState::Absent)]),
        Interfaces::new(),
        vec![("gone".to_string(), InterfaceType::LinuxBridge)],
        false,
    )
    .unwrap();
    let still = ifaces(vec![
        Interface::LinuxBridge(LinuxBridgeInterface {
            base: base("br0", InterfaceType::LinuxBridge),
            ports: Some(vec!["eth1".to_string()]),
        }),
        plain("eth1", InterfaceType::Ethernet),
        plain("gone", InterfaceType::LinuxBridge),
    ]);
    assert!(ignoring.verify(&still).is_ok());
}

#[test]
fn extra_patch_ports_are_tolerated_by_policy() {
    let des = Interface::OvsBridge(OvsBridgeInterface {
        base: base("ovsbr0", InterfaceType::OvsBridge),
        ports: Some(vec!["ovs0".to_string()]),
    });
    let observed = ifaces(vec![
        Interface::OvsBridge(OvsBridgeInterface {
            base: base("ovsbr0", InterfaceType::OvsBridge),
            ports: Some(vec!["ovs0".to_string(), "patch0".to_string()]),
        }),
        plain("ovs0", InterfaceType::OvsInterface),
        Interface::OvsInterface(OvsInterface {
            base: base("patch0", InterfaceType::OvsInterface),
            patch_peer: Some("patch1".to_string()),
        }),
    ]);
    let strict =
        MergedInterfaces::new(ifaces(vec![des.clone()]), Interfaces::new(), vec![], false).unwrap();
    assert!(strict.verify(&observed).is_err());
    let tolerant =
        MergedInterfaces::new(ifaces(vec![des]), Interfaces::new(), vec![], true).unwrap();
    assert!(tolerant.verify(&observed).is_ok());
    let mut prepared = observed.clone();
    tolerant.process_allow_extra_ovs_patch_ports_for_verify(&mut prepared);
    assert_eq!(
        prepared.get_iface("ovsbr0", InterfaceType::OvsBridge).unwrap().ports(),
        Some(&vec!["ovs0".to_string()])
    );
}

#[test]
fn absent_but_found_is_an_error_only_for_software() {
    let des = with_state("br0", InterfaceType::LinuxBridge, InterfaceState::Absent);
    assert!(verify_desire_absent_but_found_in_current(&des, &plain("br0", InterfaceType::LinuxBridge)).is_err());
    assert!(verify_desire_absent_but_found_in_current(
        &des,
        &with_state("br0", InterfaceType::LinuxBridge, InterfaceState::Absent)
    )
    .is_ok());
    assert!(verify_desire_absent_but_found_in_current(&des, &plain("eth0", InterfaceType::Ethernet)).is_ok());
}

#[test]
fn uncontrolled_fields_are_left_out_of_verification() {
    let mut des = plain("eth0", InterfaceType::Ethernet);
    des.base_iface_mut().mac_address = Some("aa".to_string());
    des.base_iface_mut().controller = Some("br0".to_string());
    let mut cur = plain("eth0", InterfaceType::Ethernet);
    cur.base_iface_mut().mac_address = Some("bb".to_string());
    cur.base_iface_mut().controller = Some("br0".to_string());
    let observed = ifaces(vec![cur]);
    let mut m = merge(vec![des], vec![]);
    assert!(m.uncontrolled_fields.is_empty());
    assert!(m.verify(&observed).is_err());
    m.uncontrolled_fields = vec![nipart::iface_ops::BaseField::MacAddress];
    assert!(m.verify(&observed).is_ok());
    let mut prepared = observed.clone();
    prepared.sanitize_for_verify(&vec![
        nipart::iface_ops::BaseField::Controller,
        nipart::iface_ops::BaseField::Ipv4,
        nipart::iface_ops::BaseField::Ipv6,
    ]);
    let got = prepared.get_iface("eth0", InterfaceType::Ethernet).unwrap();
    assert_eq!(got.base_iface().controller, None);
    assert_eq!(got.base_iface().mac_address.as_deref(), Some("bb"));
}
