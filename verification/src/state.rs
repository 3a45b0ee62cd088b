use crate::dns::{DnsClientModel, DnsState, MergedDnsModel, MergedDnsState};
use crate::error::{ErrorKind, NipartError};
use crate::ifaces::{Interfaces, InterfacesModel};
use crate::merged::{some_invalid_trigger, MergedInterfaces, MergedInterfacesModel};
use crate::views::opt_view;
use vstd::prelude::*;

verus! {

/// A network state: the interfaces and the name resolution that are asked
/// for, or observed.
#[derive(Debug)]
pub struct NetworkState {
    pub ifaces: Interfaces,
    pub dns: Option<DnsState>,
}

/// Mathematical model of a network state.
pub struct NetworkStateModel {
    pub ifaces: InterfacesModel,
    pub dns: Option<Option<DnsClientModel>>,
}

impl View for NetworkState {
    type V = NetworkStateModel;

    open spec fn view(&self) -> NetworkStateModel {
        NetworkStateModel { ifaces: self.ifaces@, dns: opt_view(self.dns) }
    }
}

impl NetworkState {
    /// The state that holds nothing.
    pub fn new() -> (r: Self)
        ensures
            r@ == (NetworkStateModel { ifaces: InterfacesModel::empty(), dns: None }),
    {
        NetworkState { ifaces: Interfaces::new(), dns: None }
    }

    /// Whether the state holds nothing.
    pub fn is_empty(&self) -> (r: bool)
        ensures
            r == (self@.ifaces.all().len() == 0 && self@.dns is None),
    {
        self.ifaces.is_empty() && self.dns.is_none()
    }
}

impl Clone for NetworkState {
    fn clone(&self) -> (r: Self)
        ensures
            r@ == self@,
    {
        NetworkState {
            ifaces: self.ifaces.clone(),
            dns: match &self.dns {
                Some(d) => Some(d.clone()),
                None => None,
            },
        }
    }
}

/// How a state is to be applied.
#[derive(Debug, Clone, Copy, PartialEq, Eq, Structural)]
pub struct NmstateApplyOption {
    /// Whether the state is left unchecked after the apply.
    pub skip_verify: bool,
    /// Whether an observed OVS bridge may hold patch ports that were not
    /// asked for.
    pub allow_extra_ovs_patch_ports: bool,
}

impl NmstateApplyOption {
    /// The default: the state is checked after the apply, and patch ports
    /// that were not asked for count as a difference.
    pub fn new() -> (r: Self)
        ensures
            r == (NmstateApplyOption { skip_verify: false, allow_extra_ovs_patch_ports: false }),
    {
        NmstateApplyOption { skip_verify: false, allow_extra_ovs_patch_ports: false }
    }

    /// The same option, with the check after the apply switched off.
    pub fn skip_verify(self) -> (r: Self)
        ensures
            r == (NmstateApplyOption { skip_verify: true, ..self }),
    {
        NmstateApplyOption {
            skip_verify: true,
            allow_extra_ovs_patch_ports: self.allow_extra_ovs_patch_ports,
        }
    }
}

/// The reconciliation of a state that is asked for with the observed one:
/// what the backends and the monitor work from.
#[derive(Debug)]
pub struct MergedNetworkState {
    pub interfaces: MergedInterfaces,
    pub dns: MergedDnsState,
    pub option: NmstateApplyOption,
}

/// Mathematical model of the reconciliation of a state.
pub struct MergedNetworkStateModel {
    pub interfaces: MergedInterfacesModel,
    pub dns: MergedDnsModel,
    pub option: NmstateApplyOption,
}

impl View for MergedNetworkState {
    type V = MergedNetworkStateModel;

    open spec fn view(&self) -> MergedNetworkStateModel {
        MergedNetworkStateModel {
            interfaces: self.interfaces@,
            dns: self.dns@,
            option: self.option,
        }
    }
}

impl MergedNetworkState {
    /// The reconciliation of the state asked for, `desired`, with the
    /// observed one, `current`. No interface is ignored. Fails with
    /// `InvalidArgument` where an interface that is asked for holds a
    /// trigger that cannot be.
    pub fn new(desired: NetworkState, current: NetworkState, option: NmstateApplyOption) -> (r:
        Result<Self, NipartError>)
        ensures
            match r {
                Ok(m) => !some_invalid_trigger(
                    desired@.ifaces.without_ignored(Seq::empty()).all(),
                ) && m@ == (MergedNetworkStateModel {
                    interfaces: MergedInterfacesModel::of(
                        desired@.ifaces,
                        current@.ifaces,
                        Seq::empty(),
                        option.allow_extra_ovs_patch_ports,
                    ),
                    dns: MergedDnsModel::of(
                        desired@.dns,
                        match current@.dns {
                            Some(d) => d,
                            None => None,
                        },
                    ),
                    option,
                }),
                Err(e) => some_invalid_trigger(
                    desired@.ifaces.without_ignored(Seq::empty()).all(),
                ) && e.kind == ErrorKind::InvalidArgument && e.msg@
                    == crate::iface_ops::invalid_trigger_text(),
            },
    {
        let NetworkState { ifaces: desired_ifaces, dns: desired_dns } = desired;
        let NetworkState { ifaces: current_ifaces, dns: current_dns } = current;
        let ignored: Vec<(String, crate::base::InterfaceType)> = Vec::new();
        assert(crate::ifaces_clean::identities_view(ignored) =~= Seq::empty());
        let interfaces = match MergedInterfaces::new(
            desired_ifaces,
            current_ifaces,
            ignored,
            option.allow_extra_ovs_patch_ports,
        ) {
            Ok(m) => m,
            Err(e) => {
                return Err(e);
            },
        };
        let current_dns = match current_dns {
            Some(d) => d,
            None => DnsState { config: None },
        };
        let dns = MergedDnsState::new(desired_dns, current_dns);
        Ok(MergedNetworkState { interfaces, dns, option })
    }
}

} // verus!
