use nipart::base::{BaseInterface, InterfaceState, InterfaceType};
use nipart::dns::{DnsClientState, DnsState, MergedDnsState};
use nipart::error::ErrorKind;
use nipart::iface::{EthernetInterface, Interface, VlanInterface, WifiCfgInterface, WifiConfig};
use nipart::ifaces::Interfaces;
use nipart::merged::{MergedInterface, MergedInterfaces};
use nipart::monitor::{setup_monitor_commands, wifi_monitor_is_needed, NipartMonitorCmd};
use nipart::nispor_conf::{
    iface_confs, nipart_iface_to_np, nipart_iface_type_to_np, split_address, NisporIfaceState,
    NisporIfaceType, NisporVlanConf,
};
use nipart::plugin_common::{NipartPluginCommonEvent, NipartPluginInfo};
use nipart::state::{MergedNetworkState, NetworkState, NmstateApplyOption};
use nipart::trigger::{InterfaceTrigger, InterfaceTriggerCarrier};

fn base(name: &str, t: InterfaceType) -> BaseInterface {
    BaseInterface::new(name.to_string(), t)
}

fn plain(name: &str, t: InterfaceType) -> Interface {
    Interface::from_base(base(name, t))
}

fn state(v: Vec<Interface>) -> NetworkState {
    let mut r = NetworkState::new();
    for i in v {
        r.ifaces.push(i);
    }
    r
}

fn carrier() -> InterfaceTrigger {
    InterfaceTrigger::Carrier(Box::new(InterfaceTriggerCarrier::default()))
}

fn strs(v: &[&str]) -> Vec<String> {
    v.iter().map(|s| s.to_string()).collect()
}

#[test]
fn wifi_monitor_is_needed_for_profiles_and_wifi_triggers() {
    assert!(!wifi_monitor_is_needed(&state(vec![plain("eth0", InterfaceType::Ethernet)])));
    let prof = Interface::WifiCfg(WifiCfgInterface {
        base: base("p", InterfaceType::WifiCfg),
        wifi: Some(WifiConfig { ssid: Some("home".to_string()), base_iface: None }),
    });
    assert!(wifi_monitor_is_needed(&state(vec![plain("eth0", InterfaceType::Ethernet), prof.clone()])));
    let mut gone = prof.clone();
    gone.base_iface_mut().state = InterfaceState::Absent;
    assert!(!wifi_monitor_is_needed(&state(vec![gone])));
    let no_ssid = Interface::WifiCfg(WifiCfgInterface {
        base: base("p", InterfaceType::WifiCfg),
        wifi: Some(WifiConfig { ssid: None, base_iface: None }),
    });
    assert!(!wifi_monitor_is_needed(&state(vec![no_ssid])));
    let mut up = plain("eth0", InterfaceType::Ethernet);
    up.base_iface_mut().up_trigger = Some(InterfaceTrigger::WifiUp(Box::new("x".to_string())));
    assert!(wifi_monitor_is_needed(&state(vec![up])));
    let mut down = plain("eth0", InterfaceType::Ethernet);
    down.base_iface_mut().down_trigger = Some(InterfaceTrigger::WifiDown(Box::new("x".to_string())));
    assert!(wifi_monitor_is_needed(&state(vec![down])));
    let mut c = plain("eth0", InterfaceType::Ethernet);
    c.base_iface_mut().down_trigger = Some(carrier());
    assert!(!wifi_monitor_is_needed(&state(vec![c])));
}

#[test]
fn monitor_commands_follow_the_instructions() {
    let mut watched_up = plain("eth0", InterfaceType::Ethernet);
    watched_up.base_iface_mut().up_trigger = Some(carrier());
    let mut watched_down = plain("eth1", InterfaceType::Ethernet);
    watched_down.base_iface_mut().down_trigger = Some(carrier());
    let mut gone = plain("br0", InterfaceType::LinuxBridge);
    gone.base_iface_mut().state = InterfaceState::Absent;
    gone.base_iface_mut().up_trigger = Some(carrier());
    let desired = state(vec![watched_up, gone, plain("eth2", InterfaceType::Ethernet), watched_down]);
    let current = state(vec![plain("eth9", InterfaceType::Ethernet)]);
    let merged = MergedNetworkState::new(desired, current, NmstateApplyOption::new().skip_verify()).unwrap();
    assert!(merged.option.skip_verify);
    let cmds = setup_monitor_commands(&merged, &state(vec![]));
    assert_eq!(
        cmds,
        vec![
            NipartMonitorCmd::DisableWifiMonitor,
            NipartMonitorCmd::AddIface("eth0".to_string()),
            NipartMonitorCmd::DelIface("br0".to_string()),
            NipartMonitorCmd::AddIface("eth1".to_string()),
        ]
    );
    let mut wifi = plain("vpn", InterfaceType::Tun);
    wifi.base_iface_mut().up_trigger = Some(InterfaceTrigger::WifiUp(Box::new("home".to_string())));
    let empty = MergedNetworkState::new(state(vec![]), state(vec![]), NmstateApplyOption::new()).unwrap();
    assert_eq!(
        setup_monitor_commands(&empty, &state(vec![wifi])),
        vec![NipartMonitorCmd::EnableWifiMonitor]
    );
}

#[test]
fn network_state_emptiness() {
    let mut s = NetworkState::new();
    assert!(s.is_empty());
    s.dns = Some(DnsState { config: None });
    assert!(!s.is_empty());
    assert!(!state(vec![plain("eth0", InterfaceType::Ethernet)]).is_empty());
    assert!(!NmstateApplyOption::new().skip_verify);
}

fn dns(server: Option<&[&str]>, search: Option<&[&str]>, options: Option<&[&str]>) -> DnsState {
    DnsState {
        config: Some(DnsClientState {
            server: server.map(strs),
            search: search.map(strs),
            options: options.map(strs),
        }),
    }
}

#[test]
fn dns_merge_takes_asked_lists_else_observed() {
    let m = MergedDnsState::new(
        Some(dns(Some(&["1.1.1.1"]), None, None)),
        dns(Some(&["8.8.8.8"]), Some(&["example.org"]), None),
    );
    assert_eq!(m.servers, strs(&["1.1.1.1"]));
    assert_eq!(m.searches, strs(&["example.org"]));
    assert!(m.options.is_empty());
    assert!(m.is_changed());
    let same = MergedDnsState::new(None, dns(Some(&["8.8.8.8"]), None, None));
    assert!(!same.is_changed());
}

#[test]
fn dns_verify_reports_each_mismatch() {
    let m = MergedDnsState::new(
        Some(dns(Some(&["1.1.1.1", "2.2.2.2"]), Some(&["a.org"]), Some(&["rotate", "debug"]))),
        DnsState { config: None },
    );
    assert!(m
        .verify(&dns(Some(&["1.1.1.1", "", "2.2.2.2"]), Some(&["a.org"]), Some(&["debug", "rotate"])))
        .is_ok());
    let e = m.verify(&DnsState { config: None }).unwrap_err();
    assert_eq!(e.kind(), ErrorKind::VerificationError);
    assert_eq!(e.msg(), "Current DNS config is empty");
    let e = m
        .verify(&dns(Some(&["2.2.2.2", "1.1.1.1"]), Some(&["a.org"]), Some(&["rotate", "debug"])))
        .unwrap_err();
    assert_eq!(
        e.msg(),
        "Failed to apply DNS config: desire name servers '1.1.1.1 2.2.2.2', got '2.2.2.2 1.1.1.1'"
    );
    let e = m
        .verify(&dns(Some(&["1.1.1.1", "2.2.2.2"]), None, Some(&["rotate", "debug"])))
        .unwrap_err();
    assert_eq!(e.msg(), "Failed to apply DNS config: desire searches 'a.org', got ''");
    let e = m
        .verify(&dns(Some(&["1.1.1.1", "2.2.2.2"]), Some(&["a.org"]), Some(&["rotate", "rotate"])))
        .unwrap_err();
    assert_eq!(e.kind(), ErrorKind::VerificationError);
    assert_eq!(
        e.msg(),
        "Failed to apply DNS config: desire options 'debug rotate', got 'rotate rotate'"
    );
    let unchanged = MergedDnsState::new(None, dns(Some(&["8.8.8.8"]), None, None));
    assert!(unchanged.verify(&DnsState { config: None }).is_ok());
    let cleared = MergedDnsState::new(
        Some(dns(Some(&[]), None, None)),
        dns(Some(&["8.8.8.8"]), None, None),
    );
    assert!(cleared.verify(&dns(None, None, None)).is_ok());
}

#[test]
fn dns_sanitize_drops_empty_texts() {
    let mut d = dns(Some(&["", "1.1.1.1", ""]), Some(&["", "a.org"]), Some(&["", "x"]));
    assert!(d.sanitize().is_ok());
    assert_eq!(d, dns(Some(&["1.1.1.1"]), Some(&["a.org"]), Some(&["", "x"])));
}

#[test]
fn backend_kinds() {
    assert_eq!(nipart_iface_type_to_np(&InterfaceType::LinuxBridge), NisporIfaceType::Bridge);
    assert_eq!(nipart_iface_type_to_np(&InterfaceType::Bond), NisporIfaceType::Bond);
    assert_eq!(nipart_iface_type_to_np(&InterfaceType::Ethernet), NisporIfaceType::Ethernet);
    assert_eq!(nipart_iface_type_to_np(&InterfaceType::Veth), NisporIfaceType::Veth);
    assert_eq!(nipart_iface_type_to_np(&InterfaceType::Vlan), NisporIfaceType::Vlan);
    assert_eq!(nipart_iface_type_to_np(&InterfaceType::Tun), NisporIfaceType::Unknown);
    assert_eq!(nipart_iface_type_to_np(&InterfaceType::WifiPhy), NisporIfaceType::Unknown);
}

#[test]
fn backend_instruction_of_interface() {
    let mut b = base("eth0", InterfaceType::Ethernet);
    b.mac_address = Some("aa".to_string());
    b.ipv4 = Some(nipart::base::InterfaceIp {
        enabled: Some(true),
        dhcp: None,
        addresses: Some(strs(&["192.0.2.1/24"])),
    });
    b.ipv6 = Some(nipart::base::InterfaceIp::new_disabled());
    let eth = Interface::Ethernet(EthernetInterface {
        base: b,
        veth_peer: Some("peer0".to_string()),
        sr_iov_vfs: None,
    });
    let c = nipart_iface_to_np(&eth).unwrap();
    assert_eq!(c.name, "eth0");
    assert_eq!(c.iface_type, Some(NisporIfaceType::Veth));
    assert_eq!(c.state, NisporIfaceState::Up);
    assert_eq!(c.ipv4, Some(strs(&["192.0.2.1/24"])));
    assert_eq!(c.ipv6, Some(vec![]));
    assert_eq!(c.mac_address.as_deref(), Some("aa"));
    assert_eq!(c.veth_peer.as_deref(), Some("peer0"));
    assert_eq!(c.vlan, None);
    let mut port = base("eth1", InterfaceType::Ethernet);
    port.controller = Some("br0".to_string());
    let c = nipart_iface_to_np(&Interface::from_base(port)).unwrap();
    assert_eq!(c.controller.as_deref(), Some("br0"));
    assert_eq!(c.ipv4, None);
    assert_eq!(c.ipv6, None);
    let vlan = Interface::Vlan(VlanInterface {
        base: base("eth0.7", InterfaceType::Vlan),
        vlan_base_iface: Some("eth0".to_string()),
        vlan_id: Some(7),
    });
    let c = nipart_iface_to_np(&vlan).unwrap();
    assert_eq!(c.vlan, Some(NisporVlanConf { vlan_id: 7, base_iface: "eth0".to_string() }));
    let mut gone = base("br0", InterfaceType::LinuxBridge);
    gone.state = InterfaceState::Absent;
    gone.mac_address = Some("aa".to_string());
    let c = nipart_iface_to_np(&Interface::from_base(gone)).unwrap();
    assert_eq!(c.state, NisporIfaceState::Absent);
    assert_eq!(c.iface_type, Some(NisporIfaceType::Bridge));
    assert_eq!(c.mac_address, None);
}

fn merged(desired: Vec<Interface>, current: Vec<Interface>) -> MergedInterfaces {
    let mut d = Interfaces::new();
    for i in desired {
        d.push(i);
    }
    let mut c = Interfaces::new();
    for i in current {
        c.push(i);
    }
    MergedInterfaces::new(d, c, vec![], false).unwrap()
}

fn with_priority(name: &str, t: InterfaceType, p: u32) -> Interface {
    let mut i = plain(name, t);
    i.base_iface_mut().up_priority = p;
    i
}

#[test]
fn changed_records_are_applied_by_priority_then_name() {
    let m = merged(
        vec![
            with_priority("zeta", InterfaceType::Ethernet, 5),
            with_priority("beta", InterfaceType::Ethernet, u32::MAX),
            with_priority("alpha", InterfaceType::Ethernet, u32::MAX),
            with_priority("gamma", InterfaceType::LinuxBridge, 5),
            with_priority("first", InterfaceType::Ethernet, 0),
            with_priority("Beta", InterfaceType::Ethernet, u32::MAX),
            with_priority("alp", InterfaceType::Ethernet, u32::MAX),
        ],
        vec![plain("unchanged", InterfaceType::Ethernet)],
    );
    let order: Vec<String> =
        m.changed_in_apply_order().iter().map(|r| r.merged.name().to_string()).collect();
    assert_eq!(order, vec!["first", "gamma", "zeta", "Beta", "alp", "alpha", "beta"]);
}

#[test]
fn backend_gets_known_kinds_that_are_not_gone() {
    let mut gone = plain("br0", InterfaceType::LinuxBridge);
    gone.base_iface_mut().state = InterfaceState::Absent;
    let m = merged(
        vec![plain("eth0", InterfaceType::Ethernet), gone, plain("odd", InterfaceType::Unknown)],
        vec![plain("br0", InterfaceType::LinuxBridge)],
    );
    let records = m.changed_in_apply_order();
    let confs = iface_confs(&records);
    assert_eq!(confs.len(), 1);
    assert_eq!(confs[0].name, "eth0");
    assert_eq!(confs[0].state, NisporIfaceState::Up);
}

#[test]
fn one_end_of_a_veth_pair_is_enough_to_delete() {
    let veth = |name: &str, peer: &str| {
        Interface::Ethernet(EthernetInterface {
            base: base(name, InterfaceType::Veth),
            veth_peer: Some(peer.to_string()),
            sr_iov_vfs: None,
        })
    };
    let absent = |name: &str, t: InterfaceType| {
        let mut i = plain(name, t);
        i.base_iface_mut().state = InterfaceState::Absent;
        i
    };
    let m = merged(
        vec![
            absent("veth1", InterfaceType::Veth),
            absent("veth0", InterfaceType::Veth),
            absent("br0", InterfaceType::LinuxBridge),
            plain("eth0", InterfaceType::Ethernet),
        ],
        vec![veth("veth0", "veth1"), veth("veth1", "veth0"), plain("br0", InterfaceType::LinuxBridge)],
    );
    let confs = m.absent_iface_confs();
    let names: Vec<&str> = confs.iter().map(|c| c.name.as_str()).collect();
    assert_eq!(names, vec!["veth0", "br0"]);
    assert!(confs.iter().all(|c| c.state == NisporIfaceState::Absent));
    assert_eq!(confs[0].iface_type, Some(NisporIfaceType::Veth));
}

#[test]
fn plugin_events_compare_and_clone() {
    let info = NipartPluginInfo { name: "nispor".to_string(), version: "1.0".to_string() };
    let reply = NipartPluginCommonEvent::QueryPluginInfoReply(info.clone());
    assert_eq!(reply.clone(), reply);
    assert_ne!(reply, NipartPluginCommonEvent::QueryPluginInfo);
    assert_ne!(NipartPluginCommonEvent::Quit, NipartPluginCommonEvent::QueryPluginInfo);
    assert_ne!(
        reply,
        NipartPluginCommonEvent::QueryPluginInfoReply(NipartPluginInfo {
            name: "other".to_string(),
            version: "1.0".to_string(),
        })
    );
    let _ = MergedInterface::new(None, Some(plain("eth0", InterfaceType::Ethernet))).unwrap();
}

#[test]
fn address_texts_are_split_at_the_first_slash() {
    assert_eq!(split_address("192.0.2.1/24"), Some(("192.0.2.1".to_string(), 24)));
    assert_eq!(split_address("2001:db8::1/128"), Some(("2001:db8::1".to_string(), 128)));
    assert_eq!(split_address("/0"), Some((String::new(), 0)));
    assert_eq!(split_address("a/255"), Some(("a".to_string(), 255)));
    assert_eq!(split_address("a/007"), Some(("a".to_string(), 7)));
    assert_eq!(split_address("a/256"), None);
    assert_eq!(split_address("a/99999999999999999999"), None);
    assert_eq!(split_address("a/"), None);
    assert_eq!(split_address("a/+5"), None);
    assert_eq!(split_address("a/2x"), None);
    assert_eq!(split_address("a/1/2"), None);
    assert_eq!(split_address("192.0.2.1"), None);
    assert_eq!(split_address(""), None);
}
