use crate::base::{or_theirs, BaseModel, ChangeContext, InterfaceIp, IpModel};
use crate::codec::iface_encode;
use crate::error::{ErrorKind, NipartError};
use crate::iface::{clone_opt_wifi, Interface, InterfaceModel, SpecificModel};
use crate::json::{Json, JsonValue};
use crate::render::serde_json_text;
use crate::trigger::{InterfaceTrigger, TriggerModel};
use crate::value::{gen_diff_json_value, gen_revert_state, json_diff, json_revert};
use crate::views::{
    clone_opt_string, clone_opt_strings, opt_view, strings_without, text_is, without_text,
};
use vstd::prelude::*;
use vstd::string::StringExecFns;

verus! {

impl SpecificModel {
    /// This part with every setting of `other` laid over it, where `other`
    /// is of the same kind; else this part as it is.
    pub open spec fn updated(self, other: SpecificModel) -> SpecificModel {
        match (self, other) {
            (
                SpecificModel::Ethernet { veth_peer: a1, sr_iov_vfs: a2 },
                SpecificModel::Ethernet { veth_peer: b1, sr_iov_vfs: b2 },
            ) => SpecificModel::Ethernet {
                veth_peer: or_theirs(a1, b1),
                sr_iov_vfs: or_theirs(a2, b2),
            },
            (
                SpecificModel::Vlan { vlan_base_iface: a1, vlan_id: a2 },
                SpecificModel::Vlan { vlan_base_iface: b1, vlan_id: b2 },
            ) => SpecificModel::Vlan {
                vlan_base_iface: or_theirs(a1, b1),
                vlan_id: or_theirs(a2, b2),
            },
            (SpecificModel::Bond { ports: a }, SpecificModel::Bond { ports: b }) => SpecificModel::Bond {
                ports: or_theirs(a, b),
            },
            (
                SpecificModel::LinuxBridge { ports: a },
                SpecificModel::LinuxBridge { ports: b },
            ) => SpecificModel::LinuxBridge { ports: or_theirs(a, b) },
            (
                SpecificModel::OvsBridge { ports: a },
                SpecificModel::OvsBridge { ports: b },
            ) => SpecificModel::OvsBridge { ports: or_theirs(a, b) },
            (
                SpecificModel::OvsInterface { patch_peer: a },
                SpecificModel::OvsInterface { patch_peer: b },
            ) => SpecificModel::OvsInterface { patch_peer: or_theirs(a, b) },
            (SpecificModel::WifiPhy { wifi: a }, SpecificModel::WifiPhy { wifi: b }) => SpecificModel::WifiPhy {
                wifi: or_theirs(a, b),
            },
            (SpecificModel::WifiCfg { wifi: a }, SpecificModel::WifiCfg { wifi: b }) => SpecificModel::WifiCfg {
                wifi: or_theirs(a, b),
            },
            _ => self,
        }
    }
}

/// A setting of the base record that a backend may not control, and that
/// is then left out when what is observed is compared with what was
/// expected.
#[derive(Debug, Clone, Copy, PartialEq, Eq, Structural, Hash)]
#[non_exhaustive]
pub enum BaseField {
    /// The controller, and its kind.
    Controller,
    MacAddress,
    Ipv4,
    Ipv6,
}

/// What is said of a record whose trigger cannot be.
pub open spec fn invalid_trigger_text() -> Seq<char> {
    "The trigger wifi-up-not does not take the SSID *, use never instead"@
}

/// An IP configuration that may be missing, sanitized.
pub open spec fn sanitized_ip(o: Option<IpModel>) -> Option<IpModel> {
    match o {
        Some(ip) => Some(ip.sanitized()),
        None => None,
    }
}

/// What a failed comparison of two records says: the interface, what was
/// desired and is not so, and what stands in its place.
pub open spec fn describes_mismatch(
    desired: InterfaceModel,
    unmet: Json,
    observed: Json,
    msg: Seq<char>,
) -> bool {
    msg == mismatch_text(
        desired.base.name,
        desired.base.iface_type.name(),
        serde_json_text(unmet),
        serde_json_text(observed),
    )
}

pub open spec fn mismatch_text(
    name: Seq<char>,
    kind: Seq<char>,
    d: Seq<char>,
    c: Seq<char>,
) -> Seq<char> {
    "Verification failure: interface "@ + name + "/"@ + kind + " desire '"@ + d
        + "', current '"@ + c + "'"@
}

impl InterfaceModel {
    /// This record with every setting of `other` laid over it.
    #[verifier::opaque]
    pub open spec fn updated(self, other: InterfaceModel) -> InterfaceModel {
        InterfaceModel {
            base: self.base.updated(other.base),
            specific: self.specific.updated(other.specific),
        }
    }

    /// The record in normal form: an address family that is off holds
    /// nothing else.
    pub open spec fn sanitized(self) -> InterfaceModel {
        InterfaceModel {
            base: BaseModel {
                ipv4: sanitized_ip(self.base.ipv4),
                ipv6: sanitized_ip(self.base.ipv6),
                ..self.base
            },
            specific: self.specific,
        }
    }

    /// Whether a trigger of the record asks for any network but any network.
    pub open spec fn has_invalid_trigger(self) -> bool {
        self.base.up_trigger == Some(TriggerModel::WifiUpNot("*"@)) || self.base.down_trigger
            == Some(TriggerModel::WifiUpNot("*"@))
    }

    /// The record without what no backend reports: triggers, the priority
    /// and what the record was worked out against.
    pub open spec fn for_verify(self) -> InterfaceModel {
        InterfaceModel {
            base: BaseModel {
                up_trigger: None,
                down_trigger: None,
                up_priority: u32::MAX,
                context: None,
                ..self.base
            },
            specific: self.specific,
        }
    }

    /// The record without the settings that `fields` names.
    pub open spec fn without_fields(self, fields: Seq<BaseField>) -> InterfaceModel {
        InterfaceModel {
            base: BaseModel {
                controller: if fields.contains(BaseField::Controller) {
                    None
                } else {
                    self.base.controller
                },
                controller_type: if fields.contains(BaseField::Controller) {
                    None
                } else {
                    self.base.controller_type
                },
                mac_address: if fields.contains(BaseField::MacAddress) {
                    None
                } else {
                    self.base.mac_address
                },
                ipv4: if fields.contains(BaseField::Ipv4) {
                    None
                } else {
                    self.base.ipv4
                },
                ipv6: if fields.contains(BaseField::Ipv6) {
                    None
                } else {
                    self.base.ipv6
                },
                ..self.base
            },
            specific: self.specific,
        }
    }

    /// The record with `context` for what it was worked out against.
    pub open spec fn with_context(self, context: ChangeContext) -> InterfaceModel {
        InterfaceModel {
            base: BaseModel { context: Some(context), ..self.base },
            specific: self.specific,
        }
    }

    /// The record without the port `port`.
    pub open spec fn without_port(self, port: Seq<char>) -> InterfaceModel {
        InterfaceModel {
            base: self.base,
            specific: match self.specific.ports() {
                Some(l) => self.specific.with_ports(Some(without_text(l, port))),
                None => self.specific,
            },
        }
    }

    /// Whether the interface has virtual functions.
    pub open spec fn sriov_is_enabled(self) -> bool {
        self.specific matches SpecificModel::Ethernet { sr_iov_vfs: Some(l), .. } && l.len() > 0
    }
}

/// Laying settings over a record keeps its name and kind, and takes the
/// state of the other record.
pub proof fn lemma_updated_identity(a: InterfaceModel, b: InterfaceModel)
    ensures
        a.updated(b).base.name == a.base.name,
        a.updated(b).base.iface_type == a.base.iface_type,
        a.updated(b).base.state == b.base.state,
        a.updated(b).is_userspace() == a.is_userspace(),
{
    reveal(InterfaceModel::updated);
}

/// Sanitizing once more changes nothing.
pub proof fn lemma_sanitize_idempotent(i: InterfaceModel, fields: Seq<BaseField>)
    ensures
        i.sanitized().sanitized() == i.sanitized(),
        i.for_verify().for_verify() == i.for_verify(),
        i.sanitized().for_verify() == i.for_verify().sanitized(),
        i.without_fields(fields).without_fields(fields) == i.without_fields(fields),
{
}

/// Whether `fields` names `f`.
fn names_field(fields: &Vec<BaseField>, f: BaseField) -> (r: bool)
    ensures
        r == fields@.contains(f),
{
    let mut i: usize = 0;
    while i < fields.len()
        invariant
            i <= fields.len(),
            forall|j: int| 0 <= j < i ==> fields@[j] != f,
        decreases fields.len() - i,
    {
        if fields[i] == f {
            assert(fields@[i as int] == f);
            return true;
        }
        i += 1;
    }
    false
}

fn trigger_is_invalid(t: &Option<InterfaceTrigger>) -> (r: bool)
    ensures
        r == (opt_view(*t) == Some(TriggerModel::WifiUpNot("*"@))),
{
    match t {
        Some(InterfaceTrigger::WifiUpNot(s)) => text_is(s, "*"),
        _ => false,
    }
}

fn sanitize_opt_ip(o: &mut Option<InterfaceIp>)
    ensures
        opt_view(*final(o)) == sanitized_ip(opt_view(*old(o))),
{
    match o.take() {
        Some(ip) => {
            let mut ip = ip;
            ip.sanitize();
            *o = Some(ip);
        },
        None => {},
    }
}

impl Interface {
    /// Lays every setting of `other` over this record.
    pub fn update(&mut self, other: &Interface)
        ensures
            final(self)@ == old(self)@.updated(other@),
    {
        proof {
            reveal(InterfaceModel::updated);
        }
        self.base_iface_mut().update(other.base_iface());
        match (self, other) {
            (Interface::Ethernet(a), Interface::Ethernet(b)) => {
                if b.veth_peer.is_some() {
                    a.veth_peer = clone_opt_string(&b.veth_peer);
                }
                if b.sr_iov_vfs.is_some() {
                    a.sr_iov_vfs = clone_opt_strings(&b.sr_iov_vfs);
                }
            },
            (Interface::Vlan(a), Interface::Vlan(b)) => {
                if b.vlan_base_iface.is_some() {
                    a.vlan_base_iface = clone_opt_string(&b.vlan_base_iface);
                }
                if b.vlan_id.is_some() {
                    a.vlan_id = b.vlan_id;
                }
            },
            (Interface::Bond(a), Interface::Bond(b)) => {
                if b.ports.is_some() {
                    a.ports = clone_opt_strings(&b.ports);
                }
            },
            (Interface::LinuxBridge(a), Interface::LinuxBridge(b)) => {
                if b.ports.is_some() {
                    a.ports = clone_opt_strings(&b.ports);
                }
            },
            (Interface::OvsBridge(a), Interface::OvsBridge(b)) => {
                if b.ports.is_some() {
                    a.ports = clone_opt_strings(&b.ports);
                }
            },
            (Interface::OvsInterface(a), Interface::OvsInterface(b)) => {
                if b.patch_peer.is_some() {
                    a.patch_peer = clone_opt_string(&b.patch_peer);
                }
            },
            (Interface::WifiPhy(a), Interface::WifiPhy(b)) => {
                if b.wifi.is_some() {
                    a.wifi = clone_opt_wifi(&b.wifi);
                }
            },
            (Interface::WifiCfg(a), Interface::WifiCfg(b)) => {
                if b.wifi.is_some() {
                    a.wifi = clone_opt_wifi(&b.wifi);
                }
            },
            _ => {},
        }
    }

    /// Brings the record into normal form. A record that is desired is first
    /// checked: it is refused, and left as it is, where a trigger asks for
    /// any network but any network.
    pub fn sanitize(&mut self, is_desired: bool) -> (r: Result<(), NipartError>)
        ensures
            match r {
                Ok(_) => !(is_desired && old(self)@.has_invalid_trigger()) && final(self)@ == old(
                    self,
                )@.sanitized(),
                Err(e) => is_desired && old(self)@.has_invalid_trigger() && final(self)@ == old(
                    self,
                )@ && e.kind == ErrorKind::InvalidArgument && e.msg@ == invalid_trigger_text(),
            },
    {
        if is_desired && (trigger_is_invalid(&self.base_iface().up_trigger) || trigger_is_invalid(
            &self.base_iface().down_trigger,
        )) {
            return Err(
                NipartError::new(
                    ErrorKind::InvalidArgument,
                    "The trigger wifi-up-not does not take the SSID *, use never instead".to_owned(),
                ),
            );
        }
        let base = self.base_iface_mut();
        sanitize_opt_ip(&mut base.ipv4);
        sanitize_opt_ip(&mut base.ipv6);
        Ok(())
    }

    /// Drops from an observed record what no backend reports.
    pub fn sanitize_current_for_verify(&mut self)
        ensures
            final(self)@ == old(self)@.for_verify(),
    {
        let base = self.base_iface_mut();
        base.up_trigger = None;
        base.down_trigger = None;
        base.up_priority = u32::MAX;
        base.context = None;
    }

    /// Drops from an expected record what no backend reports.
    pub fn sanitize_desired_for_verify(&mut self)
        ensures
            final(self)@ == old(self)@.for_verify(),
    {
        let base = self.base_iface_mut();
        base.up_trigger = None;
        base.down_trigger = None;
        base.up_priority = u32::MAX;
        base.context = None;
    }

    /// Drops the settings that `fields` names: those that the backend in
    /// use does not control.
    pub fn drop_fields(&mut self, fields: &Vec<BaseField>)
        ensures
            final(self)@ == old(self)@.without_fields(fields@),
    {
        let controller = names_field(fields, BaseField::Controller);
        let mac_address = names_field(fields, BaseField::MacAddress);
        let ipv4 = names_field(fields, BaseField::Ipv4);
        let ipv6 = names_field(fields, BaseField::Ipv6);
        let base = self.base_iface_mut();
        if controller {
            base.controller = None;
            base.controller_type = None;
        }
        if mac_address {
            base.mac_address = None;
        }
        if ipv4 {
            base.ipv4 = None;
        }
        if ipv6 {
            base.ipv6 = None;
        }
    }

    /// Notes on a record that states a difference the state of the record
    /// that it was compared with.
    pub fn include_diff_context(&mut self, current: &Interface)
        ensures
            final(self)@ == old(self)@.with_context(
                ChangeContext { current_state: current@.base.state, desired_state: None },
            ),
    {
        let state = current.base_iface().state;
        self.base_iface_mut().context = Some(
            ChangeContext { current_state: state, desired_state: None },
        );
    }

    /// Notes on a record that states a revert the states of the records that
    /// it was worked out from.
    pub fn include_revert_context(&mut self, desired: &Interface, current: &Interface)
        ensures
            final(self)@ == old(self)@.with_context(
                ChangeContext {
                    current_state: current@.base.state,
                    desired_state: Some(desired@.base.state),
                },
            ),
    {
        let current_state = current.base_iface().state;
        let desired_state = desired.base_iface().state;
        self.base_iface_mut().context = Some(
            ChangeContext { current_state, desired_state: Some(desired_state) },
        );
    }

    /// Takes `port` out of the ports of a controller.
    pub fn remove_port(&mut self, port: &str)
        ensures
            final(self)@ == old(self)@.without_port(port@),
    {
        match self {
            Interface::Bond(i) => {
                match &i.ports {
                    Some(l) => {
                        i.ports = Some(strings_without(l, port));
                    },
                    None => {},
                }
            },
            Interface::LinuxBridge(i) => {
                match &i.ports {
                    Some(l) => {
                        i.ports = Some(strings_without(l, port));
                    },
                    None => {},
                }
            },
            Interface::OvsBridge(i) => {
                match &i.ports {
                    Some(l) => {
                        i.ports = Some(strings_without(l, port));
                    },
                    None => {},
                }
            },
            _ => {},
        }
    }

    /// Gives a controller the ports `ports`; any other interface stays as
    /// it is.
    pub fn set_ports(&mut self, ports: Option<Vec<String>>)
        ensures
            final(self)@ == (InterfaceModel {
                base: old(self)@.base,
                specific: old(self)@.specific.with_ports(crate::views::opt_vec_view(ports)),
            }),
    {
        match self {
            Interface::Bond(i) => {
                i.ports = ports;
            },
            Interface::LinuxBridge(i) => {
                i.ports = ports;
            },
            Interface::OvsBridge(i) => {
                i.ports = ports;
            },
            _ => {},
        }
    }

    /// Whether the interface has virtual functions.
    pub fn sriov_is_enabled(&self) -> (r: bool)
        ensures
            r == self@.sriov_is_enabled(),
    {
        match self {
            Interface::Ethernet(i) => match &i.sr_iov_vfs {
                Some(l) => l.len() > 0,
                None => false,
            },
            _ => false,
        }
    }

    /// Compares the record with an observed one, setting by setting: every
    /// setting of this record has to be so in `current`. Fails with
    /// `VerificationError`, and says what is not so, where one is not.
    pub fn verify(&self, current: &Interface) -> (r: Result<(), NipartError>)
        ensures
            match r {
                Ok(_) => json_diff(iface_encode(self@), iface_encode(current@)) is None,
                Err(e) => json_diff(iface_encode(self@), iface_encode(current@)) matches Some(d)
                    && e.kind == ErrorKind::VerificationError && describes_mismatch(
                    self@,
                    d,
                    json_revert(d, iface_encode(current@), Json::Null),
                    e.msg@,
                ),
            },
    {
        let desired_value = self.to_value();
        let current_value = current.to_value();
        match gen_diff_json_value(&desired_value, &current_value) {
            None => Ok(()),
            Some(unmet) => {
                let mut observed = JsonValue::Null;
                gen_revert_state(&unmet, &current_value, &mut observed);
                let d = unmet.render();
                let c = observed.render();
                let mut msg = "Verification failure: interface ".to_owned();
                msg.append(self.name());
                msg.append("/");
                msg.append(self.iface_type().as_str());
                msg.append(" desire '");
                msg.append(d.as_str());
                msg.append("', current '");
                msg.append(c.as_str());
                msg.append("'");
                proof {
                    assert(msg@ =~= mismatch_text(
                        self@.base.name,
                        self@.base.iface_type.name(),
                        d@,
                        c@,
                    ));
                }
                Err(NipartError::new(ErrorKind::VerificationError, msg))
            },
        }
    }
}

} // verus!
