use crate::trigger::{InterfaceTrigger, TriggerModel};
use crate::views::{
    clone_opt_string, clone_opt_strings, opt_string_eq, opt_strings_eq, opt_vec_view, opt_view,
    text_is,
};
use vstd::prelude::*;
use vstd::std_specs::cmp::PartialEqSpecImpl;

verus! {

/// The kind of a network device.
#[derive(Debug, Clone, Copy, PartialEq, Eq, Structural, Hash)]
#[non_exhaustive]
pub enum InterfaceType {
    Bond,
    LinuxBridge,
    Ethernet,
    Veth,
    Vlan,
    Tun,
    WifiPhy,
    WifiCfg,
    OvsBridge,
    OvsInterface,
    Unknown,
}

impl InterfaceType {
    /// Whether interfaces of this kind live beside the kernel's, found by
    /// name and kind, and not among them, found by name alone.
    pub open spec fn spec_is_userspace(&self) -> bool {
        *self == InterfaceType::OvsBridge || *self == InterfaceType::WifiCfg
    }

    /// The name of the kind in a structural value.
    pub open spec fn name(self) -> Seq<char> {
        match self {
            InterfaceType::Bond => "bond"@,
            InterfaceType::LinuxBridge => "linux-bridge"@,
            InterfaceType::Ethernet => "ethernet"@,
            InterfaceType::Veth => "veth"@,
            InterfaceType::Vlan => "vlan"@,
            InterfaceType::Tun => "tun"@,
            InterfaceType::WifiPhy => "wifi-phy"@,
            InterfaceType::WifiCfg => "wifi-cfg"@,
            InterfaceType::OvsBridge => "ovs-bridge"@,
            InterfaceType::OvsInterface => "ovs-interface"@,
            InterfaceType::Unknown => "unknown"@,
        }
    }

    /// The kind with the name `s`, if there is one.
    pub open spec fn of_name(s: Seq<char>) -> Option<InterfaceType> {
        if s == "bond"@ {
            Some(InterfaceType::Bond)
        } else if s == "linux-bridge"@ {
            Some(InterfaceType::LinuxBridge)
        } else if s == "ethernet"@ {
            Some(InterfaceType::Ethernet)
        } else if s == "veth"@ {
            Some(InterfaceType::Veth)
        } else if s == "vlan"@ {
            Some(InterfaceType::Vlan)
        } else if s == "tun"@ {
            Some(InterfaceType::Tun)
        } else if s == "wifi-phy"@ {
            Some(InterfaceType::WifiPhy)
        } else if s == "wifi-cfg"@ {
            Some(InterfaceType::WifiCfg)
        } else if s == "ovs-bridge"@ {
            Some(InterfaceType::OvsBridge)
        } else if s == "ovs-interface"@ {
            Some(InterfaceType::OvsInterface)
        } else if s == "unknown"@ {
            Some(InterfaceType::Unknown)
        } else {
            None
        }
    }

    #[verifier::when_used_as_spec(spec_is_userspace)]
    pub fn is_userspace(&self) -> (r: bool)
        ensures
            r == self.spec_is_userspace(),
    {
        matches!(self, InterfaceType::OvsBridge | InterfaceType::WifiCfg)
    }

    /// The name of the kind in a structural value.
    pub fn as_str(&self) -> (r: &'static str)
        ensures
            r@ == self.name(),
    {
        match self {
            InterfaceType::Bond => "bond",
            InterfaceType::LinuxBridge => "linux-bridge",
            InterfaceType::Ethernet => "ethernet",
            InterfaceType::Veth => "veth",
            InterfaceType::Vlan => "vlan",
            InterfaceType::Tun => "tun",
            InterfaceType::WifiPhy => "wifi-phy",
            InterfaceType::WifiCfg => "wifi-cfg",
            InterfaceType::OvsBridge => "ovs-bridge",
            InterfaceType::OvsInterface => "ovs-interface",
            InterfaceType::Unknown => "unknown",
        }
    }

    /// The kind with the name `s`, if there is one.
    pub fn from_name(s: &String) -> (r: Option<InterfaceType>)
        ensures
            r == InterfaceType::of_name(s@),
    {
        if text_is(s, "bond") {
            Some(InterfaceType::Bond)
        } else if text_is(s, "linux-bridge") {
            Some(InterfaceType::LinuxBridge)
        } else if text_is(s, "ethernet") {
            Some(InterfaceType::Ethernet)
        } else if text_is(s, "veth") {
            Some(InterfaceType::Veth)
        } else if text_is(s, "vlan") {
            Some(InterfaceType::Vlan)
        } else if text_is(s, "tun") {
            Some(InterfaceType::Tun)
        } else if text_is(s, "wifi-phy") {
            Some(InterfaceType::WifiPhy)
        } else if text_is(s, "wifi-cfg") {
            Some(InterfaceType::WifiCfg)
        } else if text_is(s, "ovs-bridge") {
            Some(InterfaceType::OvsBridge)
        } else if text_is(s, "ovs-interface") {
            Some(InterfaceType::OvsInterface)
        } else if text_is(s, "unknown") {
            Some(InterfaceType::Unknown)
        } else {
            None
        }
    }
}

/// The name of each kind leads back to the kind.
pub proof fn lemma_type_name_round_trip(t: InterfaceType)
    ensures
        InterfaceType::of_name(t.name()) == Some(t),
{
    reveal_strlit("bond");
    reveal_strlit("linux-bridge");
    reveal_strlit("ethernet");
    reveal_strlit("veth");
    reveal_strlit("vlan");
    reveal_strlit("tun");
    reveal_strlit("wifi-phy");
    reveal_strlit("wifi-cfg");
    reveal_strlit("ovs-bridge");
    reveal_strlit("ovs-interface");
    reveal_strlit("unknown");
    assert("bond"@.len() == 4 && "bond"@[0] == 'b');
    assert("linux-bridge"@.len() == 12);
    assert("ethernet"@.len() == 8 && "ethernet"@[0] == 'e');
    assert("veth"@.len() == 4 && "veth"@[0] == 'v' && "veth"@[1] == 'e');
    assert("vlan"@.len() == 4 && "vlan"@[0] == 'v' && "vlan"@[1] == 'l');
    assert("tun"@.len() == 3);
    assert("wifi-phy"@.len() == 8 && "wifi-phy"@[0] == 'w' && "wifi-phy"@[5] == 'p');
    assert("wifi-cfg"@.len() == 8 && "wifi-cfg"@[0] == 'w' && "wifi-cfg"@[5] == 'c');
    assert("ovs-bridge"@.len() == 10);
    assert("ovs-interface"@.len() == 13);
    assert("unknown"@.len() == 7);
}

/// Whether an interface is to be up, down, or gone.
#[derive(Debug, Clone, Copy, PartialEq, Eq, Structural, Hash)]
#[non_exhaustive]
pub enum InterfaceState {
    Up,
    Down,
    Absent,
}

impl InterfaceState {
    /// The name of the state in a structural value.
    pub open spec fn name(self) -> Seq<char> {
        match self {
            InterfaceState::Up => "up"@,
            InterfaceState::Down => "down"@,
            InterfaceState::Absent => "absent"@,
        }
    }

    /// The state with the name `s`, if there is one.
    pub open spec fn of_name(s: Seq<char>) -> Option<InterfaceState> {
        if s == "up"@ {
            Some(InterfaceState::Up)
        } else if s == "down"@ {
            Some(InterfaceState::Down)
        } else if s == "absent"@ {
            Some(InterfaceState::Absent)
        } else {
            None
        }
    }

    /// The name of the state in a structural value.
    pub fn as_str(&self) -> (r: &'static str)
        ensures
            r@ == self.name(),
    {
        match self {
            InterfaceState::Up => "up",
            InterfaceState::Down => "down",
            InterfaceState::Absent => "absent",
        }
    }

    /// The state with the name `s`, if there is one.
    pub fn from_name(s: &String) -> (r: Option<InterfaceState>)
        ensures
            r == InterfaceState::of_name(s@),
    {
        if text_is(s, "up") {
            Some(InterfaceState::Up)
        } else if text_is(s, "down") {
            Some(InterfaceState::Down)
        } else if text_is(s, "absent") {
            Some(InterfaceState::Absent)
        } else {
            None
        }
    }
}

/// The name of each state leads back to the state.
pub proof fn lemma_state_name_round_trip(s: InterfaceState)
    ensures
        InterfaceState::of_name(s.name()) == Some(s),
{
    reveal_strlit("up");
    reveal_strlit("down");
    reveal_strlit("absent");
    assert("up"@.len() == 2);
    assert("down"@.len() == 4);
    assert("absent"@.len() == 6);
}

/// What a record that states a change was worked out against: the state
/// that the interface had, and, for a revert, the state that had been asked
/// for.
#[derive(Debug, Clone, Copy, PartialEq, Eq, Structural)]
pub struct ChangeContext {
    pub current_state: InterfaceState,
    pub desired_state: Option<InterfaceState>,
}

/// The IP configuration of one address family.
#[derive(Debug)]
pub struct InterfaceIp {
    pub enabled: Option<bool>,
    pub dhcp: Option<bool>,
    pub addresses: Option<Vec<String>>,
}

/// Mathematical model of an IP configuration.
pub struct IpModel {
    pub enabled: Option<bool>,
    pub dhcp: Option<bool>,
    pub addresses: Option<Seq<Seq<char>>>,
}

impl IpModel {
    /// The configuration that switches the address family off.
    pub open spec fn disabled() -> IpModel {
        IpModel { enabled: Some(false), dhcp: None, addresses: None }
    }

    /// The configuration without what means nothing while the family is off.
    pub open spec fn sanitized(self) -> IpModel {
        if self.enabled == Some(false) {
            IpModel::disabled()
        } else {
            self
        }
    }

    /// The configuration with every setting of `other` laid over it.
    pub open spec fn updated(self, other: IpModel) -> IpModel {
        IpModel {
            enabled: if other.enabled is Some {
                other.enabled
            } else {
                self.enabled
            },
            dhcp: if other.dhcp is Some {
                other.dhcp
            } else {
                self.dhcp
            },
            addresses: if other.addresses is Some {
                other.addresses
            } else {
                self.addresses
            },
        }
    }
}

impl View for InterfaceIp {
    type V = IpModel;

    open spec fn view(&self) -> IpModel {
        IpModel {
            enabled: self.enabled,
            dhcp: self.dhcp,
            addresses: opt_vec_view(self.addresses),
        }
    }
}

impl Clone for InterfaceIp {
    fn clone(&self) -> (r: Self)
        ensures
            r@ == self@,
    {
        InterfaceIp {
            enabled: self.enabled,
            dhcp: self.dhcp,
            addresses: clone_opt_strings(&self.addresses),
        }
    }
}

impl PartialEq for InterfaceIp {
    fn eq(&self, other: &Self) -> (r: bool) {
        self.enabled == other.enabled && self.dhcp == other.dhcp && opt_strings_eq(
            &self.addresses,
            &other.addresses,
        )
    }
}

impl PartialEqSpecImpl for InterfaceIp {
    open spec fn obeys_eq_spec() -> bool {
        true
    }

    open spec fn eq_spec(&self, other: &Self) -> bool {
        self@ == other@
    }
}

impl InterfaceIp {
    /// The configuration that switches the address family off.
    pub fn new_disabled() -> (r: Self)
        ensures
            r@ == IpModel::disabled(),
    {
        InterfaceIp { enabled: Some(false), dhcp: None, addresses: None }
    }

    /// Drops what means nothing while the family is off.
    pub fn sanitize(&mut self)
        ensures
            final(self)@ == old(self)@.sanitized(),
    {
        if self.enabled == Some(false) {
            self.dhcp = None;
            self.addresses = None;
        }
    }

    /// Lays every setting of `other` over this configuration.
    pub fn update(&mut self, other: &InterfaceIp)
        ensures
            final(self)@ == old(self)@.updated(other@),
    {
        if other.enabled.is_some() {
            self.enabled = other.enabled;
        }
        if other.dhcp.is_some() {
            self.dhcp = other.dhcp;
        }
        if other.addresses.is_some() {
            self.addresses = clone_opt_strings(&other.addresses);
        }
    }
}

/// What every interface holds, whatever its kind.
#[derive(Debug)]
pub struct BaseInterface {
    pub name: String,
    pub iface_type: InterfaceType,
    pub state: InterfaceState,
    /// The interface that this one is a port of.
    pub controller: Option<String>,
    pub controller_type: Option<InterfaceType>,
    pub mac_address: Option<String>,
    pub ipv4: Option<InterfaceIp>,
    pub ipv6: Option<InterfaceIp>,
    pub up_trigger: Option<InterfaceTrigger>,
    pub down_trigger: Option<InterfaceTrigger>,
    /// Interfaces are activated in the order of this number, `u32::MAX` last.
    pub up_priority: u32,
    /// Set on records that state a change; not part of the structural value.
    pub context: Option<ChangeContext>,
}

/// Mathematical model of what every interface holds.
pub struct BaseModel {
    pub name: Seq<char>,
    pub iface_type: InterfaceType,
    pub state: InterfaceState,
    pub controller: Option<Seq<char>>,
    pub controller_type: Option<InterfaceType>,
    pub mac_address: Option<Seq<char>>,
    pub ipv4: Option<IpModel>,
    pub ipv6: Option<IpModel>,
    pub up_trigger: Option<TriggerModel>,
    pub down_trigger: Option<TriggerModel>,
    pub up_priority: u32,
    pub context: Option<ChangeContext>,
}

/// `ours` with every setting of `theirs` laid over it.
pub open spec fn updated_ip(ours: Option<IpModel>, theirs: Option<IpModel>) -> Option<IpModel> {
    match (ours, theirs) {
        (Some(a), Some(b)) => Some(a.updated(b)),
        (None, Some(b)) => Some(b),
        (_, None) => ours,
    }
}

/// `ours`, or `theirs` where that is set.
pub open spec fn or_theirs<T>(ours: Option<T>, theirs: Option<T>) -> Option<T> {
    if theirs is Some {
        theirs
    } else {
        ours
    }
}

impl BaseModel {
    /// A record of the name and kind alone: up, with nothing else set.
    pub open spec fn identity(name: Seq<char>, iface_type: InterfaceType) -> BaseModel {
        BaseModel {
            name,
            iface_type,
            state: InterfaceState::Up,
            controller: None,
            controller_type: None,
            mac_address: None,
            ipv4: None,
            ipv6: None,
            up_trigger: None,
            down_trigger: None,
            up_priority: u32::MAX,
            context: None,
        }
    }

    /// The record with every setting of `other` laid over it. Name and kind
    /// stay; the state is that of `other`.
    pub open spec fn updated(self, other: BaseModel) -> BaseModel {
        BaseModel {
            name: self.name,
            iface_type: self.iface_type,
            state: other.state,
            controller: or_theirs(self.controller, other.controller),
            controller_type: or_theirs(self.controller_type, other.controller_type),
            mac_address: or_theirs(self.mac_address, other.mac_address),
            ipv4: updated_ip(self.ipv4, other.ipv4),
            ipv6: updated_ip(self.ipv6, other.ipv6),
            up_trigger: or_theirs(self.up_trigger, other.up_trigger),
            down_trigger: or_theirs(self.down_trigger, other.down_trigger),
            up_priority: if other.up_priority != u32::MAX {
                other.up_priority
            } else {
                self.up_priority
            },
            context: or_theirs(self.context, other.context),
        }
    }

    /// Whether the kind gives the interface addresses of its own.
    pub open spec fn can_have_ip(self) -> bool {
        self.controller is None
    }
}

impl View for BaseInterface {
    type V = BaseModel;

    open spec fn view(&self) -> BaseModel {
        BaseModel {
            name: self.name@,
            iface_type: self.iface_type,
            state: self.state,
            controller: opt_view(self.controller),
            controller_type: self.controller_type,
            mac_address: opt_view(self.mac_address),
            ipv4: opt_view(self.ipv4),
            ipv6: opt_view(self.ipv6),
            up_trigger: opt_view(self.up_trigger),
            down_trigger: opt_view(self.down_trigger),
            up_priority: self.up_priority,
            context: self.context,
        }
    }
}

/// A copy of an IP configuration that may be missing.
pub fn clone_opt_ip(o: &Option<InterfaceIp>) -> (r: Option<InterfaceIp>)
    ensures
        opt_view(r) == opt_view(*o),
{
    match o {
        Some(x) => Some(x.clone()),
        None => None,
    }
}

/// A copy of a trigger that may be missing.
pub fn clone_opt_trigger(o: &Option<InterfaceTrigger>) -> (r: Option<InterfaceTrigger>)
    ensures
        opt_view(r) == opt_view(*o),
{
    match o {
        Some(x) => Some(x.clone()),
        None => None,
    }
}

impl Clone for BaseInterface {
    fn clone(&self) -> (r: Self)
        ensures
            r@ == self@,
    {
        BaseInterface {
            name: self.name.clone(),
            iface_type: self.iface_type,
            state: self.state,
            controller: clone_opt_string(&self.controller),
            controller_type: self.controller_type,
            mac_address: clone_opt_string(&self.mac_address),
            ipv4: clone_opt_ip(&self.ipv4),
            ipv6: clone_opt_ip(&self.ipv6),
            up_trigger: clone_opt_trigger(&self.up_trigger),
            down_trigger: clone_opt_trigger(&self.down_trigger),
            up_priority: self.up_priority,
            context: self.context,
        }
    }
}

impl PartialEq for BaseInterface {
    fn eq(&self, other: &Self) -> (r: bool) {
        self.name == other.name && self.iface_type == other.iface_type && self.state
            == other.state && opt_string_eq(&self.controller, &other.controller)
            && self.controller_type == other.controller_type && opt_string_eq(
            &self.mac_address,
            &other.mac_address,
        ) && self.ipv4 == other.ipv4 && self.ipv6 == other.ipv6 && self.up_trigger
            == other.up_trigger && self.down_trigger == other.down_trigger && self.up_priority
            == other.up_priority && self.context == other.context
    }
}

impl PartialEqSpecImpl for BaseInterface {
    open spec fn obeys_eq_spec() -> bool {
        true
    }

    open spec fn eq_spec(&self, other: &Self) -> bool {
        self@ == other@
    }
}

impl BaseInterface {
    /// A record of the name and kind alone: up, with nothing else set.
    pub fn new(name: String, iface_type: InterfaceType) -> (r: Self)
        ensures
            r@ == BaseModel::identity(name@, iface_type),
    {
        BaseInterface {
            name,
            iface_type,
            state: InterfaceState::Up,
            controller: None,
            controller_type: None,
            mac_address: None,
            ipv4: None,
            ipv6: None,
            up_trigger: None,
            down_trigger: None,
            up_priority: u32::MAX,
            context: None,
        }
    }

    /// A record of the name and kind of this one alone.
    pub fn clone_name_type_only(&self) -> (r: Self)
        ensures
            r@ == BaseModel::identity(self@.name, self@.iface_type),
    {
        BaseInterface::new(self.name.clone(), self.iface_type)
    }

    /// Whether the interface has addresses of its own: a port has none.
    pub fn can_have_ip(&self) -> (r: bool)
        ensures
            r == self@.can_have_ip(),
    {
        self.controller.is_none()
    }

    /// Lays every setting of `other` over this record.
    pub fn update(&mut self, other: &BaseInterface)
        ensures
            final(self)@ == old(self)@.updated(other@),
    {
        self.state = other.state;
        if other.controller.is_some() {
            self.controller = clone_opt_string(&other.controller);
        }
        if other.controller_type.is_some() {
            self.controller_type = other.controller_type;
        }
        if other.mac_address.is_some() {
            self.mac_address = clone_opt_string(&other.mac_address);
        }
        match &other.ipv4 {
            Some(theirs) => {
                let mut ip = match self.ipv4.take() {
                    Some(ours) => ours,
                    None => InterfaceIp { enabled: None, dhcp: None, addresses: None },
                };
                ip.update(theirs);
                self.ipv4 = Some(ip);
            },
            None => {},
        }
        match &other.ipv6 {
            Some(theirs) => {
                let mut ip = match self.ipv6.take() {
                    Some(ours) => ours,
                    None => InterfaceIp { enabled: None, dhcp: None, addresses: None },
                };
                ip.update(theirs);
                self.ipv6 = Some(ip);
            },
            None => {},
        }
        if other.up_trigger.is_some() {
            self.up_trigger = clone_opt_trigger(&other.up_trigger);
        }
        if other.down_trigger.is_some() {
            self.down_trigger = clone_opt_trigger(&other.down_trigger);
        }
        if other.up_priority != u32::MAX {
            self.up_priority = other.up_priority;
        }
        if other.context.is_some() {
            self.context = other.context;
        }
    }
}

} // verus!
