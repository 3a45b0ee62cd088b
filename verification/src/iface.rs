use crate::base::{BaseInterface, BaseModel, InterfaceState, InterfaceType};
use crate::views::{
    clone_opt_string, clone_opt_strings, opt_string_eq, opt_strings_eq, opt_vec_view, opt_view,
};
use vstd::prelude::*;
use vstd::std_specs::cmp::PartialEqSpecImpl;

verus! {

/// The wireless settings of an interface: the network, and the device that
/// a profile is bound to.
#[derive(Debug)]
pub struct WifiConfig {
    pub ssid: Option<String>,
    pub base_iface: Option<String>,
}

/// Mathematical model of wireless settings.
pub struct WifiModel {
    pub ssid: Option<Seq<char>>,
    pub base_iface: Option<Seq<char>>,
}

impl View for WifiConfig {
    type V = WifiModel;

    open spec fn view(&self) -> WifiModel {
        WifiModel { ssid: opt_view(self.ssid), base_iface: opt_view(self.base_iface) }
    }
}

impl Clone for WifiConfig {
    fn clone(&self) -> (r: Self)
        ensures
            r@ == self@,
    {
        WifiConfig {
            ssid: clone_opt_string(&self.ssid),
            base_iface: clone_opt_string(&self.base_iface),
        }
    }
}

impl PartialEq for WifiConfig {
    fn eq(&self, other: &Self) -> (r: bool) {
        opt_string_eq(&self.ssid, &other.ssid) && opt_string_eq(&self.base_iface, &other.base_iface)
    }
}

impl PartialEqSpecImpl for WifiConfig {
    open spec fn obeys_eq_spec() -> bool {
        true
    }

    open spec fn eq_spec(&self, other: &Self) -> bool {
        self@ == other@
    }
}

/// A copy of wireless settings that may be missing.
pub fn clone_opt_wifi(o: &Option<WifiConfig>) -> (r: Option<WifiConfig>)
    ensures
        opt_view(r) == opt_view(*o),
{
    match o {
        Some(x) => Some(x.clone()),
        None => None,
    }
}

#[derive(Debug)]
pub struct EthernetInterface {
    pub base: BaseInterface,
    /// The other end, where the interface is one end of a veth pair.
    pub veth_peer: Option<String>,
    /// The interfaces of the virtual functions, where SR-IOV is in use.
    pub sr_iov_vfs: Option<Vec<String>>,
}

#[derive(Debug)]
pub struct VlanInterface {
    pub base: BaseInterface,
    pub vlan_base_iface: Option<String>,
    pub vlan_id: Option<u16>,
}

#[derive(Debug)]
pub struct BondInterface {
    pub base: BaseInterface,
    pub ports: Option<Vec<String>>,
}

#[derive(Debug)]
pub struct LinuxBridgeInterface {
    pub base: BaseInterface,
    pub ports: Option<Vec<String>>,
}

#[derive(Debug)]
pub struct OvsBridgeInterface {
    pub base: BaseInterface,
    pub ports: Option<Vec<String>>,
}

#[derive(Debug)]
pub struct OvsInterface {
    pub base: BaseInterface,
    /// The other end, where the interface is a patch port.
    pub patch_peer: Option<String>,
}

#[derive(Debug)]
pub struct TunInterface {
    pub base: BaseInterface,
}

#[derive(Debug)]
pub struct WifiPhyInterface {
    pub base: BaseInterface,
    pub wifi: Option<WifiConfig>,
}

#[derive(Debug)]
pub struct WifiCfgInterface {
    pub base: BaseInterface,
    pub wifi: Option<WifiConfig>,
}

#[derive(Debug)]
pub struct UnknownInterface {
    pub base: BaseInterface,
}

/// One network device, of one of a closed set of kinds.
#[derive(Debug)]
#[non_exhaustive]
pub enum Interface {
    Ethernet(EthernetInterface),
    Vlan(VlanInterface),
    Bond(BondInterface),
    LinuxBridge(LinuxBridgeInterface),
    OvsBridge(OvsBridgeInterface),
    OvsInterface(OvsInterface),
    Tun(TunInterface),
    WifiPhy(WifiPhyInterface),
    WifiCfg(WifiCfgInterface),
    Unknown(UnknownInterface),
}

/// Mathematical model of what an interface holds beyond the base record.
pub enum SpecificModel {
    Ethernet { veth_peer: Option<Seq<char>>, sr_iov_vfs: Option<Seq<Seq<char>>> },
    Vlan { vlan_base_iface: Option<Seq<char>>, vlan_id: Option<u16> },
    Bond { ports: Option<Seq<Seq<char>>> },
    LinuxBridge { ports: Option<Seq<Seq<char>>> },
    OvsBridge { ports: Option<Seq<Seq<char>>> },
    OvsInterface { patch_peer: Option<Seq<char>> },
    Tun,
    WifiPhy { wifi: Option<WifiModel> },
    WifiCfg { wifi: Option<WifiModel> },
    Unknown,
}

/// Mathematical model of an interface: the base record and what is specific
/// to the kind.
pub struct InterfaceModel {
    pub base: BaseModel,
    pub specific: SpecificModel,
}

impl SpecificModel {
    /// The kind-specific part of a record that sets nothing, for `t`.
    pub open spec fn empty_of(t: InterfaceType) -> SpecificModel {
        match t {
            InterfaceType::Ethernet | InterfaceType::Veth => SpecificModel::Ethernet {
                veth_peer: None,
                sr_iov_vfs: None,
            },
            InterfaceType::Vlan => SpecificModel::Vlan { vlan_base_iface: None, vlan_id: None },
            InterfaceType::Bond => SpecificModel::Bond { ports: None },
            InterfaceType::LinuxBridge => SpecificModel::LinuxBridge { ports: None },
            InterfaceType::OvsBridge => SpecificModel::OvsBridge { ports: None },
            InterfaceType::OvsInterface => SpecificModel::OvsInterface { patch_peer: None },
            InterfaceType::Tun => SpecificModel::Tun,
            InterfaceType::WifiPhy => SpecificModel::WifiPhy { wifi: None },
            InterfaceType::WifiCfg => SpecificModel::WifiCfg { wifi: None },
            InterfaceType::Unknown => SpecificModel::Unknown,
        }
    }

    /// Whether this is the kind-specific part that goes with `t`.
    pub open spec fn fits(self, t: InterfaceType) -> bool {
        match self {
            SpecificModel::Ethernet { .. } => t == InterfaceType::Ethernet || t
                == InterfaceType::Veth,
            SpecificModel::Vlan { .. } => t == InterfaceType::Vlan,
            SpecificModel::Bond { .. } => t == InterfaceType::Bond,
            SpecificModel::LinuxBridge { .. } => t == InterfaceType::LinuxBridge,
            SpecificModel::OvsBridge { .. } => t == InterfaceType::OvsBridge,
            SpecificModel::OvsInterface { .. } => t == InterfaceType::OvsInterface,
            SpecificModel::Tun => t == InterfaceType::Tun,
            SpecificModel::WifiPhy { .. } => t == InterfaceType::WifiPhy,
            SpecificModel::WifiCfg { .. } => t == InterfaceType::WifiCfg,
            SpecificModel::Unknown => t == InterfaceType::Unknown,
        }
    }

    /// The ports, where the interface is a controller that lists them.
    pub open spec fn ports(self) -> Option<Seq<Seq<char>>> {
        match self {
            SpecificModel::Bond { ports } => ports,
            SpecificModel::LinuxBridge { ports } => ports,
            SpecificModel::OvsBridge { ports } => ports,
            _ => None,
        }
    }

    /// The same part with `ports` for its ports, where it can have ports.
    pub open spec fn with_ports(self, ports: Option<Seq<Seq<char>>>) -> SpecificModel {
        match self {
            SpecificModel::Bond { .. } => SpecificModel::Bond { ports },
            SpecificModel::LinuxBridge { .. } => SpecificModel::LinuxBridge { ports },
            SpecificModel::OvsBridge { .. } => SpecificModel::OvsBridge { ports },
            _ => self,
        }
    }

    /// The wireless settings, where the interface has any.
    pub open spec fn wifi(self) -> Option<WifiModel> {
        match self {
            SpecificModel::WifiPhy { wifi } => wifi,
            SpecificModel::WifiCfg { wifi } => wifi,
            _ => None,
        }
    }
}

impl InterfaceModel {
    /// Whether the kind-specific part goes with the kind that the base
    /// record names.
    pub open spec fn wf(self) -> bool {
        self.specific.fits(self.base.iface_type)
    }

    pub open spec fn is_absent(self) -> bool {
        self.base.state == InterfaceState::Absent
    }

    pub open spec fn is_up(self) -> bool {
        self.base.state == InterfaceState::Up
    }

    pub open spec fn is_down(self) -> bool {
        self.base.state == InterfaceState::Down
    }

    /// Whether the interface exists in software alone: everything but
    /// Ethernet and wireless devices and devices of unknown kind.
    pub open spec fn is_virtual(self) -> bool {
        !(self.specific is Ethernet || self.specific is WifiPhy || self.specific is Unknown)
    }

    /// Whether the interface is found by name and kind, beside the kernel's.
    pub open spec fn is_userspace(self) -> bool {
        self.base.iface_type.spec_is_userspace()
    }

    /// Whether the interface can hold ports.
    pub open spec fn is_controller(self) -> bool {
        self.specific is Bond || self.specific is LinuxBridge || self.specific is OvsBridge
    }

    /// The network that the interface is connected to or configured for.
    pub open spec fn ssid(self) -> Option<Seq<char>> {
        match self.specific.wifi() {
            Some(w) => w.ssid,
            None => None,
        }
    }

    /// The device that a wireless profile is bound to.
    pub open spec fn parent(self) -> Option<Seq<char>> {
        match self.specific.wifi() {
            Some(w) => w.base_iface,
            None => None,
        }
    }

    /// A record of the name and kind of this one alone: up, with nothing
    /// else set.
    pub open spec fn name_type_only(self) -> InterfaceModel {
        InterfaceModel {
            base: BaseModel::identity(self.base.name, self.base.iface_type),
            specific: SpecificModel::empty_of(self.base.iface_type),
        }
    }

    /// The interface of the kind that `base` names, with nothing set beyond
    /// `base`.
    pub open spec fn of_base(base: BaseModel) -> InterfaceModel {
        InterfaceModel { base, specific: SpecificModel::empty_of(base.iface_type) }
    }
}

impl View for Interface {
    type V = InterfaceModel;

    open spec fn view(&self) -> InterfaceModel {
        match self {
            Interface::Ethernet(i) => InterfaceModel {
                base: i.base@,
                specific: SpecificModel::Ethernet {
                    veth_peer: opt_view(i.veth_peer),
                    sr_iov_vfs: opt_vec_view(i.sr_iov_vfs),
                },
            },
            Interface::Vlan(i) => InterfaceModel {
                base: i.base@,
                specific: SpecificModel::Vlan {
                    vlan_base_iface: opt_view(i.vlan_base_iface),
                    vlan_id: i.vlan_id,
                },
            },
            Interface::Bond(i) => InterfaceModel {
                base: i.base@,
                specific: SpecificModel::Bond { ports: opt_vec_view(i.ports) },
            },
            Interface::LinuxBridge(i) => InterfaceModel {
                base: i.base@,
                specific: SpecificModel::LinuxBridge { ports: opt_vec_view(i.ports) },
            },
            Interface::OvsBridge(i) => InterfaceModel {
                base: i.base@,
                specific: SpecificModel::OvsBridge { ports: opt_vec_view(i.ports) },
            },
            Interface::OvsInterface(i) => InterfaceModel {
                base: i.base@,
                specific: SpecificModel::OvsInterface { patch_peer: opt_view(i.patch_peer) },
            },
            Interface::Tun(i) => InterfaceModel { base: i.base@, specific: SpecificModel::Tun },
            Interface::WifiPhy(i) => InterfaceModel {
                base: i.base@,
                specific: SpecificModel::WifiPhy { wifi: opt_view(i.wifi) },
            },
            Interface::WifiCfg(i) => InterfaceModel {
                base: i.base@,
                specific: SpecificModel::WifiCfg { wifi: opt_view(i.wifi) },
            },
            Interface::Unknown(i) => InterfaceModel {
                base: i.base@,
                specific: SpecificModel::Unknown,
            },
        }
    }
}

impl Clone for Interface {
    fn clone(&self) -> (r: Self)
        ensures
            r@ == self@,
    {
        match self {
            Interface::Ethernet(i) => Interface::Ethernet(
                EthernetInterface {
                    base: i.base.clone(),
                    veth_peer: clone_opt_string(&i.veth_peer),
                    sr_iov_vfs: clone_opt_strings(&i.sr_iov_vfs),
                },
            ),
            Interface::Vlan(i) => Interface::Vlan(
                VlanInterface {
                    base: i.base.clone(),
                    vlan_base_iface: clone_opt_string(&i.vlan_base_iface),
                    vlan_id: i.vlan_id,
                },
            ),
            Interface::Bond(i) => Interface::Bond(
                BondInterface { base: i.base.clone(), ports: clone_opt_strings(&i.ports) },
            ),
            Interface::LinuxBridge(i) => Interface::LinuxBridge(
                LinuxBridgeInterface { base: i.base.clone(), ports: clone_opt_strings(&i.ports) },
            ),
            Interface::OvsBridge(i) => Interface::OvsBridge(
                OvsBridgeInterface { base: i.base.clone(), ports: clone_opt_strings(&i.ports) },
            ),
            Interface::OvsInterface(i) => Interface::OvsInterface(
                OvsInterface { base: i.base.clone(), patch_peer: clone_opt_string(&i.patch_peer) },
            ),
            Interface::Tun(i) => Interface::Tun(TunInterface { base: i.base.clone() }),
            Interface::WifiPhy(i) => Interface::WifiPhy(
                WifiPhyInterface { base: i.base.clone(), wifi: clone_opt_wifi(&i.wifi) },
            ),
            Interface::WifiCfg(i) => Interface::WifiCfg(
                WifiCfgInterface { base: i.base.clone(), wifi: clone_opt_wifi(&i.wifi) },
            ),
            Interface::Unknown(i) => Interface::Unknown(UnknownInterface { base: i.base.clone() }),
        }
    }
}

impl PartialEq for Interface {
    fn eq(&self, other: &Self) -> (r: bool) {
        match (self, other) {
            (Interface::Ethernet(a), Interface::Ethernet(b)) => a.base == b.base && opt_string_eq(
                &a.veth_peer,
                &b.veth_peer,
            ) && opt_strings_eq(&a.sr_iov_vfs, &b.sr_iov_vfs),
            (Interface::Vlan(a), Interface::Vlan(b)) => a.base == b.base && opt_string_eq(
                &a.vlan_base_iface,
                &b.vlan_base_iface,
            ) && a.vlan_id == b.vlan_id,
            (Interface::Bond(a), Interface::Bond(b)) => a.base == b.base && opt_strings_eq(
                &a.ports,
                &b.ports,
            ),
            (Interface::LinuxBridge(a), Interface::LinuxBridge(b)) => a.base == b.base
                && opt_strings_eq(&a.ports, &b.ports),
            (Interface::OvsBridge(a), Interface::OvsBridge(b)) => a.base == b.base
                && opt_strings_eq(&a.ports, &b.ports),
            (Interface::OvsInterface(a), Interface::OvsInterface(b)) => a.base == b.base
                && opt_string_eq(&a.patch_peer, &b.patch_peer),
            (Interface::Tun(a), Interface::Tun(b)) => a.base == b.base,
            (Interface::WifiPhy(a), Interface::WifiPhy(b)) => a.base == b.base && a.wifi == b.wifi,
            (Interface::WifiCfg(a), Interface::WifiCfg(b)) => a.base == b.base && a.wifi == b.wifi,
            (Interface::Unknown(a), Interface::Unknown(b)) => a.base == b.base,
            _ => false,
        }
    }
}

impl PartialEqSpecImpl for Interface {
    open spec fn obeys_eq_spec() -> bool {
        true
    }

    open spec fn eq_spec(&self, other: &Self) -> bool {
        self@ == other@
    }
}

/// A copy of an interface that may be missing.
pub fn clone_opt_iface(o: &Option<Interface>) -> (r: Option<Interface>)
    ensures
        opt_view(r) == opt_view(*o),
{
    match o {
        Some(x) => Some(x.clone()),
        None => None,
    }
}

impl Interface {
    /// The base record.
    pub fn base_iface(&self) -> (r: &BaseInterface)
        ensures
            r@ == self@.base,
    {
        match self {
            Interface::Ethernet(i) => &i.base,
            Interface::Vlan(i) => &i.base,
            Interface::Bond(i) => &i.base,
            Interface::LinuxBridge(i) => &i.base,
            Interface::OvsBridge(i) => &i.base,
            Interface::OvsInterface(i) => &i.base,
            Interface::Tun(i) => &i.base,
            Interface::WifiPhy(i) => &i.base,
            Interface::WifiCfg(i) => &i.base,
            Interface::Unknown(i) => &i.base,
        }
    }

    /// The base record, to change it.
    pub fn base_iface_mut(&mut self) -> (r: &mut BaseInterface)
        ensures
            r@ == old(self)@.base,
            final(self)@ == (InterfaceModel { base: final(r)@, specific: old(self)@.specific }),
    {
        match self {
            Interface::Ethernet(i) => &mut i.base,
            Interface::Vlan(i) => &mut i.base,
            Interface::Bond(i) => &mut i.base,
            Interface::LinuxBridge(i) => &mut i.base,
            Interface::OvsBridge(i) => &mut i.base,
            Interface::OvsInterface(i) => &mut i.base,
            Interface::Tun(i) => &mut i.base,
            Interface::WifiPhy(i) => &mut i.base,
            Interface::WifiCfg(i) => &mut i.base,
            Interface::Unknown(i) => &mut i.base,
        }
    }

    pub fn name(&self) -> (r: &str)
        ensures
            r@ == self@.base.name,
    {
        self.base_iface().name.as_str()
    }

    pub fn iface_type(&self) -> (r: InterfaceType)
        ensures
            r == self@.base.iface_type,
    {
        self.base_iface().iface_type
    }

    pub fn is_absent(&self) -> (r: bool)
        ensures
            r == self@.is_absent(),
    {
        self.base_iface().state == InterfaceState::Absent
    }

    pub fn is_up(&self) -> (r: bool)
        ensures
            r == self@.is_up(),
    {
        self.base_iface().state == InterfaceState::Up
    }

    pub fn is_down(&self) -> (r: bool)
        ensures
            r == self@.is_down(),
    {
        self.base_iface().state == InterfaceState::Down
    }

    /// Whether the interface exists in software alone.
    pub fn is_virtual(&self) -> (r: bool)
        ensures
            r == self@.is_virtual(),
    {
        !matches!(self, Interface::Ethernet(_) | Interface::WifiPhy(_) | Interface::Unknown(_))
    }

    /// Whether the interface is found by name and kind, beside the kernel's.
    pub fn is_userspace(&self) -> (r: bool)
        ensures
            r == self@.is_userspace(),
    {
        self.base_iface().iface_type.is_userspace()
    }

    /// Whether the interface can hold ports.
    pub fn is_controller(&self) -> (r: bool)
        ensures
            r == self@.is_controller(),
    {
        matches!(self, Interface::Bond(_) | Interface::LinuxBridge(_) | Interface::OvsBridge(_))
    }

    /// The ports, where the interface is a controller that lists them.
    pub fn ports(&self) -> (r: Option<&Vec<String>>)
        ensures
            match r {
                Some(p) => self@.specific.ports() == Some(crate::views::vec_view(*p)),
                None => self@.specific.ports() is None,
            },
    {
        match self {
            Interface::Bond(i) => i.ports.as_ref(),
            Interface::LinuxBridge(i) => i.ports.as_ref(),
            Interface::OvsBridge(i) => i.ports.as_ref(),
            _ => None,
        }
    }

    /// The network that the interface is connected to or configured for.
    pub fn ssid(&self) -> (r: Option<&String>)
        ensures
            opt_view(r) == self@.ssid(),
    {
        match self {
            Interface::WifiPhy(i) => match &i.wifi {
                Some(w) => w.ssid.as_ref(),
                None => None,
            },
            Interface::WifiCfg(i) => match &i.wifi {
                Some(w) => w.ssid.as_ref(),
                None => None,
            },
            _ => None,
        }
    }

    /// The device that a wireless profile is bound to.
    pub fn parent(&self) -> (r: Option<&String>)
        ensures
            opt_view(r) == self@.parent(),
    {
        match self {
            Interface::WifiPhy(i) => match &i.wifi {
                Some(w) => w.base_iface.as_ref(),
                None => None,
            },
            Interface::WifiCfg(i) => match &i.wifi {
                Some(w) => w.base_iface.as_ref(),
                None => None,
            },
            _ => None,
        }
    }

    /// The interface of the kind that `base` names, with nothing set beyond
    /// `base`.
    pub fn from_base(base: BaseInterface) -> (r: Self)
        ensures
            r@ == InterfaceModel::of_base(base@),
            r@.wf(),
    {
        match base.iface_type {
            InterfaceType::Ethernet | InterfaceType::Veth => Interface::Ethernet(
                EthernetInterface { base, veth_peer: None, sr_iov_vfs: None },
            ),
            InterfaceType::Vlan => Interface::Vlan(
                VlanInterface { base, vlan_base_iface: None, vlan_id: None },
            ),
            InterfaceType::Bond => Interface::Bond(BondInterface { base, ports: None }),
            InterfaceType::LinuxBridge => Interface::LinuxBridge(
                LinuxBridgeInterface { base, ports: None },
            ),
            InterfaceType::OvsBridge => Interface::OvsBridge(
                OvsBridgeInterface { base, ports: None },
            ),
            InterfaceType::OvsInterface => Interface::OvsInterface(
                OvsInterface { base, patch_peer: None },
            ),
            InterfaceType::Tun => Interface::Tun(TunInterface { base }),
            InterfaceType::WifiPhy => Interface::WifiPhy(WifiPhyInterface { base, wifi: None }),
            InterfaceType::WifiCfg => Interface::WifiCfg(WifiCfgInterface { base, wifi: None }),
            InterfaceType::Unknown => Interface::Unknown(UnknownInterface { base }),
        }
    }

    /// A record of the name and kind of this one alone: up, with nothing
    /// else set.
    pub fn clone_name_type_only(&self) -> (r: Self)
        ensures
            r@ == self@.name_type_only(),
    {
        Interface::from_base(self.base_iface().clone_name_type_only())
    }
}

} // verus!
