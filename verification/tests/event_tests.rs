use nipart::base::{BaseInterface, InterfaceIp, InterfaceState, InterfaceType};
use nipart::event::{
    is_event_matches, is_trigger_matches, link_event_desired_state, wifi_cfg_to_wifi_phy,
    NipartLinkEvent,
};
use nipart::iface::{Interface, WifiCfgInterface, WifiConfig, WifiPhyInterface};
use nipart::ifaces::Interfaces;
use nipart::trigger::{InterfaceTrigger, InterfaceTriggerCarrier};

fn base(name: &str, t: InterfaceType) -> BaseInterface {
    BaseInterface::new(name.to_string(), t)
}

fn plain(name: &str, t: InterfaceType) -> Interface {
    Interface::from_base(base(name, t))
}

fn phy(name: &str, ssid: Option<&str>) -> Interface {
    Interface::WifiPhy(WifiPhyInterface {
        base: base(name, InterfaceType::WifiPhy),
        wifi: Some(WifiConfig { ssid: ssid.map(|s| s.to_string()), base_iface: None }),
    })
}

fn profile(name: &str, ssid: &str, parent: Option<&str>) -> Interface {
    Interface::WifiCfg(WifiCfgInterface {
        base: base(name, InterfaceType::WifiCfg),
        wifi: Some(WifiConfig {
            ssid: Some(ssid.to_string()),
            base_iface: parent.map(|s| s.to_string()),
        }),
    })
}

fn ifaces(v: Vec<Interface>) -> Interfaces {
    let mut r = Interfaces::new();
    for i in v {
        r.push(i);
    }
    r
}

fn event(name: &str, t: InterfaceType, is_up: bool, ssid: Option<&str>) -> NipartLinkEvent {
    NipartLinkEvent::new(name.to_string(), 3, t, is_up, ssid.map(|s| s.to_string()))
}

fn carrier() -> InterfaceTrigger {
    InterfaceTrigger::Carrier(Box::new(InterfaceTriggerCarrier::default()))
}

#[test]
fn new_event_holds_what_it_is_given() {
    let e = event("wlan0", InterfaceType::WifiPhy, true, Some("home"));
    assert_eq!(e.iface_name, "wlan0");
    assert_eq!(e.iface_index, 3);
    assert_eq!(e.iface_type, InterfaceType::WifiPhy);
    assert!(e.is_up);
    assert_eq!(e.ssid.as_deref(), Some("home"));
    assert!(e.time_stamp <= std::time::SystemTime::now());
}

#[test]
fn wifi_profile_down_event_rebinds_profile() {
    let saved = ifaces(vec![profile("home-wifi", "home", None)]);
    let current = ifaces(vec![phy("wlan0", Some("home"))]);
    let e = event("wlan0", InterfaceType::WifiPhy, false, None);
    let delta = link_event_desired_state(e, &saved, &current);
    let all = delta.to_vec();
    assert_eq!(all.len(), 2);
    let purge = &all[0];
    assert_eq!(purge.name(), "wlan0");
    assert_eq!(purge.iface_type(), InterfaceType::WifiPhy);
    assert!(purge.is_up());
    assert_eq!(purge.base_iface().ipv4, Some(InterfaceIp::new_disabled()));
    assert_eq!(purge.base_iface().ipv6, Some(InterfaceIp::new_disabled()));
    let rebound = &all[1];
    assert_eq!(rebound.name(), "home-wifi");
    assert_eq!(rebound.iface_type(), InterfaceType::WifiCfg);
    assert!(rebound.is_up());
    assert_eq!(rebound.parent().map(|s| s.as_str()), Some("wlan0"));
    assert_eq!(rebound.ssid().map(|s| s.as_str()), Some("home"));
    assert_eq!(rebound.base_iface().down_trigger, None);
    assert_eq!(rebound.base_iface().ipv4, Some(InterfaceIp::new_disabled()));
    assert_eq!(rebound.base_iface().ipv6, Some(InterfaceIp::new_disabled()));
}

#[test]
fn carrier_down_keeps_interface_up_without_addresses() {
    let mut eth0 = plain("eth0", InterfaceType::Ethernet);
    eth0.base_iface_mut().down_trigger = Some(carrier());
    eth0.base_iface_mut().ipv4 = Some(InterfaceIp {
        enabled: Some(true),
        dhcp: Some(true),
        addresses: None,
    });
    let saved = ifaces(vec![eth0, plain("eth1", InterfaceType::Ethernet)]);
    let current = ifaces(vec![plain("eth0", InterfaceType::Ethernet)]);
    let delta = link_event_desired_state(
        event("eth0", InterfaceType::Ethernet, false, None),
        &saved,
        &current,
    );
    let all = delta.to_vec();
    assert_eq!(all.len(), 1);
    assert_eq!(all[0].name(), "eth0");
    assert_eq!(all[0].base_iface().state, InterfaceState::Up);
    assert_eq!(all[0].base_iface().ipv4, Some(InterfaceIp::new_disabled()));
    assert_eq!(all[0].base_iface().ipv6, Some(InterfaceIp::new_disabled()));
    assert_eq!(all[0].base_iface().down_trigger, None);
}

#[test]
fn down_trigger_takes_software_away_and_hardware_down() {
    let mut br = plain("br0", InterfaceType::LinuxBridge);
    br.base_iface_mut().down_trigger = Some(InterfaceTrigger::WifiDown(Box::new("home".to_string())));
    let mut eth = plain("eth1", InterfaceType::Ethernet);
    eth.base_iface_mut().down_trigger = Some(InterfaceTrigger::WifiDown(Box::new("home".to_string())));
    let saved = ifaces(vec![br, eth]);
    let current = ifaces(vec![phy("wlan0", None)]);
    let delta = link_event_desired_state(
        event("wlan1", InterfaceType::Ethernet, false, None),
        &saved,
        &current,
    );
    let all = delta.to_vec();
    assert_eq!(all.len(), 2);
    assert_eq!(all[0].base_iface().state, InterfaceState::Absent);
    assert_eq!(all[1].base_iface().state, InterfaceState::Down);
}

#[test]
fn wifi_up_trigger_fires_once() {
    let mut eth = plain("vpn0", InterfaceType::Tun);
    eth.base_iface_mut().state = InterfaceState::Down;
    eth.base_iface_mut().up_trigger = Some(InterfaceTrigger::WifiUp(Box::new("home".to_string())));
    let saved = ifaces(vec![eth]);
    let current = ifaces(vec![phy("wlan0", Some("home"))]);
    let first = link_event_desired_state(
        event("wlan0", InterfaceType::WifiPhy, true, Some("home")),
        &saved,
        &current,
    );
    let all = first.to_vec();
    assert_eq!(all.len(), 1);
    assert_eq!(all[0].name(), "vpn0");
    assert_eq!(all[0].base_iface().up_trigger, None);
    assert!(all[0].is_up());
    let mut saved_after = saved.clone();
    saved_after.update(&first);
    let mut spent = saved_after.get_iface("vpn0", InterfaceType::Tun).unwrap().clone();
    spent.base_iface_mut().up_trigger = None;
    let second = link_event_desired_state(
        event("wlan0", InterfaceType::WifiPhy, true, Some("home")),
        &ifaces(vec![spent.clone()]),
        &current,
    );
    assert!(second.is_empty());
    assert!(!is_event_matches(
        &event("wlan0", InterfaceType::WifiPhy, true, Some("home")),
        &spent,
        &current
    ));
    let other = link_event_desired_state(
        event("wlan0", InterfaceType::WifiPhy, true, Some("work")),
        &saved,
        &current,
    );
    assert!(other.is_empty());
}

#[test]
fn wifi_down_trigger_needs_no_device_on_the_network() {
    let trigger = InterfaceTrigger::WifiDown(Box::new("home".to_string()));
    let saved = plain("vpn0", InterfaceType::Tun);
    let e = event("wlan0", InterfaceType::WifiPhy, false, Some("home"));
    let two = ifaces(vec![phy("wlan0", None), phy("wlan1", Some("home"))]);
    assert!(!is_trigger_matches(&e, &trigger, &saved, &two));
    let none = ifaces(vec![phy("wlan0", None), phy("wlan1", Some("work"))]);
    assert!(is_trigger_matches(&e, &trigger, &saved, &none));
    assert!(is_trigger_matches(&e, &trigger, &saved, &Interfaces::new()));
    let not_phy = ifaces(vec![profile("p", "home", None)]);
    assert!(is_trigger_matches(&e, &trigger, &saved, &not_phy));
}

#[test]
fn other_triggers_match_as_described() {
    let cur = Interfaces::new();
    let saved = plain("eth0", InterfaceType::Ethernet);
    let up_home = event("wlan0", InterfaceType::WifiPhy, true, Some("home"));
    let down = event("eth0", InterfaceType::Ethernet, false, None);
    assert!(!is_trigger_matches(&up_home, &InterfaceTrigger::Never, &saved, &cur));
    assert!(!is_trigger_matches(&up_home, &InterfaceTrigger::Always, &saved, &cur));
    assert!(is_trigger_matches(&down, &carrier(), &saved, &cur));
    assert!(!is_trigger_matches(&up_home, &carrier(), &saved, &cur));
    assert!(!is_trigger_matches(
        &event("eth0", InterfaceType::Vlan, true, None),
        &carrier(),
        &saved,
        &cur
    ));
    let wifi_up = InterfaceTrigger::WifiUp(Box::new("home".to_string()));
    assert!(is_trigger_matches(&up_home, &wifi_up, &saved, &cur));
    assert!(!is_trigger_matches(&down, &wifi_up, &saved, &cur));
    assert!(!is_trigger_matches(
        &event("wlan0", InterfaceType::WifiPhy, false, Some("home")),
        &wifi_up,
        &saved,
        &cur
    ));
    let not_home = InterfaceTrigger::WifiUpNot(Box::new("home".to_string()));
    assert!(!is_trigger_matches(&up_home, &not_home, &saved, &cur));
    assert!(is_trigger_matches(
        &event("wlan0", InterfaceType::WifiPhy, true, Some("work")),
        &not_home,
        &saved,
        &cur
    ));
    assert!(!is_trigger_matches(
        &event("wlan0", InterfaceType::WifiPhy, true, None),
        &not_home,
        &saved,
        &cur
    ));
    assert!(!is_trigger_matches(
        &event("eth0", InterfaceType::Ethernet, true, None),
        &not_home,
        &saved,
        &cur
    ));
    assert!(!is_trigger_matches(
        &event("wlan0", InterfaceType::WifiPhy, false, Some("work")),
        &not_home,
        &saved,
        &cur
    ));
}

#[test]
fn wifi_up_wildcard_fires_on_any_network() {
    let cur = Interfaces::new();
    let saved = plain("vpn0", InterfaceType::Tun);
    let any = InterfaceTrigger::WifiUp(Box::new("*".to_string()));
    assert!(is_trigger_matches(
        &event("wlan0", InterfaceType::WifiPhy, true, Some("office")),
        &any,
        &saved,
        &cur
    ));
    assert!(is_trigger_matches(
        &event("wlan0", InterfaceType::WifiPhy, true, Some("*")),
        &any,
        &saved,
        &cur
    ));
    assert!(!is_trigger_matches(
        &event("wlan0", InterfaceType::WifiPhy, true, None),
        &any,
        &saved,
        &cur
    ));
    assert!(!is_trigger_matches(
        &event("wlan0", InterfaceType::WifiPhy, false, Some("office")),
        &any,
        &saved,
        &cur
    ));
    let star_only = InterfaceTrigger::WifiUp(Box::new("office".to_string()));
    assert!(!is_trigger_matches(
        &event("wlan0", InterfaceType::WifiPhy, true, Some("*")),
        &star_only,
        &saved,
        &cur
    ));
}

#[test]
fn profiles_and_devices_match_wireless_events() {
    let cur = Interfaces::new();
    let any = profile("p", "home", None);
    let bound = profile("p", "home", Some("wlan1"));
    let up_home = event("wlan0", InterfaceType::WifiPhy, true, Some("home"));
    let up_work = event("wlan0", InterfaceType::WifiPhy, true, Some("work"));
    let down0 = event("wlan0", InterfaceType::WifiPhy, false, None);
    let down1 = event("wlan1", InterfaceType::WifiPhy, false, None);
    assert!(is_event_matches(&up_home, &any, &cur));
    assert!(is_event_matches(&up_home, &bound, &cur));
    assert!(!is_event_matches(&up_work, &any, &cur));
    assert!(is_event_matches(&down0, &any, &cur));
    assert!(!is_event_matches(&down0, &bound, &cur));
    assert!(is_event_matches(&down1, &bound, &cur));
    assert!(!is_event_matches(&event("eth0", InterfaceType::Ethernet, false, None), &any, &cur));
    let dev = phy("wlan0", None);
    assert!(is_event_matches(&up_work, &dev, &cur));
    assert!(is_event_matches(&down0, &dev, &cur));
    assert!(!is_event_matches(&down1, &dev, &cur));
    assert!(!is_event_matches(&up_home, &plain("eth0", InterfaceType::Ethernet), &cur));
}

#[test]
fn connected_profile_becomes_wireless_device() {
    let mut p = profile("home-wifi", "home", None);
    p.base_iface_mut().ipv4 = Some(InterfaceIp { enabled: Some(true), dhcp: Some(true), addresses: None });
    p.base_iface_mut().up_trigger = Some(InterfaceTrigger::Always);
    p.base_iface_mut().state = InterfaceState::Down;
    let dev = wifi_cfg_to_wifi_phy("wlan0", &p);
    assert_eq!(dev.name(), "wlan0");
    assert_eq!(dev.iface_type(), InterfaceType::WifiPhy);
    assert!(matches!(dev, Interface::WifiPhy(_)));
    assert_eq!(dev.base_iface().ipv4, p.base_iface().ipv4);
    assert_eq!(dev.base_iface().state, InterfaceState::Down);
    assert!(dev.ssid().is_none());
    let delta = link_event_desired_state(
        event("wlan0", InterfaceType::WifiPhy, true, Some("home")),
        &ifaces(vec![p.clone()]),
        &Interfaces::new(),
    );
    let all = delta.to_vec();
    assert_eq!(all.len(), 1);
    assert_eq!(all[0].name(), "wlan0");
    assert_eq!(all[0].iface_type(), InterfaceType::WifiPhy);
    assert_eq!(all[0].base_iface().state, InterfaceState::Down);
    assert_eq!(all[0].base_iface().up_trigger, None);
    assert_eq!(all[0].base_iface().ipv4, p.base_iface().ipv4);
    let mut up = p.clone();
    up.base_iface_mut().state = InterfaceState::Up;
    let delta = link_event_desired_state(
        event("wlan0", InterfaceType::WifiPhy, true, Some("home")),
        &ifaces(vec![up]),
        &Interfaces::new(),
    );
    assert!(delta.to_vec()[0].is_up());
}

#[test]
fn event_without_match_asks_for_nothing() {
    let saved = ifaces(vec![plain("eth0", InterfaceType::Ethernet)]);
    let delta = link_event_desired_state(
        event("eth0", InterfaceType::Ethernet, true, None),
        &saved,
        &Interfaces::new(),
    );
    assert!(delta.is_empty());
}
