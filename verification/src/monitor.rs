use crate::iface::{Interface, InterfaceModel};
use crate::merged::{MergedInterface, MergedModel};
use crate::state::{MergedNetworkState, NetworkState};
use crate::trigger::{InterfaceTrigger, TriggerModel};
use crate::views::vec_view;
use vstd::prelude::*;

verus! {

/// What the monitor of links and wireless associations can be told.
#[derive(Debug, PartialEq, Eq)]
#[non_exhaustive]
pub enum NipartMonitorCmd {
    Pause,
    Resume,
    /// Start to watch the carrier of the interface.
    AddIface(String),
    /// Stop to watch the carrier of the interface.
    DelIface(String),
    EnableWifiMonitor,
    DisableWifiMonitor,
}

/// Mathematical model of a command to the monitor.
pub enum MonitorCmdModel {
    Pause,
    Resume,
    AddIface(Seq<char>),
    DelIface(Seq<char>),
    EnableWifiMonitor,
    DisableWifiMonitor,
}

impl View for NipartMonitorCmd {
    type V = MonitorCmdModel;

    open spec fn view(&self) -> MonitorCmdModel {
        match self {
            NipartMonitorCmd::Pause => MonitorCmdModel::Pause,
            NipartMonitorCmd::Resume => MonitorCmdModel::Resume,
            NipartMonitorCmd::AddIface(n) => MonitorCmdModel::AddIface(n@),
            NipartMonitorCmd::DelIface(n) => MonitorCmdModel::DelIface(n@),
            NipartMonitorCmd::EnableWifiMonitor => MonitorCmdModel::EnableWifiMonitor,
            NipartMonitorCmd::DisableWifiMonitor => MonitorCmdModel::DisableWifiMonitor,
        }
    }
}

impl Clone for NipartMonitorCmd {
    fn clone(&self) -> (r: Self)
        ensures
            r@ == self@,
    {
        match self {
            NipartMonitorCmd::Pause => NipartMonitorCmd::Pause,
            NipartMonitorCmd::Resume => NipartMonitorCmd::Resume,
            NipartMonitorCmd::AddIface(n) => NipartMonitorCmd::AddIface(n.clone()),
            NipartMonitorCmd::DelIface(n) => NipartMonitorCmd::DelIface(n.clone()),
            NipartMonitorCmd::EnableWifiMonitor => NipartMonitorCmd::EnableWifiMonitor,
            NipartMonitorCmd::DisableWifiMonitor => NipartMonitorCmd::DisableWifiMonitor,
        }
    }
}

/// Whether a trigger that may be missing depends on a wireless
/// association.
pub open spec fn is_wifi_trigger(t: Option<TriggerModel>) -> bool {
    match t {
        Some(x) => x.is_wifi(),
        None => false,
    }
}

/// Whether the saved interface needs wireless networks to be watched: it
/// is not to be gone, and is a wireless profile for a network, or has a
/// trigger that depends on a wireless association.
pub open spec fn needs_wifi_monitor(i: InterfaceModel) -> bool {
    !i.is_absent() && ((i.specific is WifiCfg && i.ssid() is Some) || is_wifi_trigger(
        i.base.up_trigger,
    ) || is_wifi_trigger(i.base.down_trigger))
}

/// Whether some saved interface needs wireless networks to be watched.
pub open spec fn wifi_monitor_needed(saved: Seq<InterfaceModel>) -> bool {
    exists|i: int| 0 <= i < saved.len() && needs_wifi_monitor(#[trigger] saved[i])
}

/// What the monitor is told of an interface that is instructed: to stop
/// to watch one that is to be gone, to watch one that follows the carrier,
/// nothing of any other.
pub open spec fn iface_command(a: InterfaceModel) -> Option<MonitorCmdModel> {
    if a.is_absent() {
        Some(MonitorCmdModel::DelIface(a.base.name))
    } else if a.base.up_trigger == Some(TriggerModel::Carrier) || a.base.down_trigger == Some(
        TriggerModel::Carrier,
    ) {
        Some(MonitorCmdModel::AddIface(a.base.name))
    } else {
        None
    }
}

/// What the monitor is told of a record: what it is told of its
/// instruction, if it has one.
pub open spec fn record_command(rec: MergedModel) -> Option<MonitorCmdModel> {
    match rec.for_apply {
        Some(a) => iface_command(a),
        None => None,
    }
}

/// What the monitor is told of the first `n` records, in their order.
pub open spec fn commands_fold(records: Seq<MergedModel>, n: nat) -> Seq<MonitorCmdModel>
    decreases n,
{
    if n == 0 || n > records.len() {
        Seq::empty()
    } else {
        match record_command(records[n - 1]) {
            Some(c) => commands_fold(records, (n - 1) as nat).push(c),
            None => commands_fold(records, (n - 1) as nat),
        }
    }
}

/// The command that switches the watching of wireless networks.
pub open spec fn wifi_command(needed: bool) -> MonitorCmdModel {
    if needed {
        MonitorCmdModel::EnableWifiMonitor
    } else {
        MonitorCmdModel::DisableWifiMonitor
    }
}

/// What the monitor is told once a state has been reconciled: first whether
/// to watch wireless networks, as the saved state asks, then what it is
/// told of each record.
pub open spec fn monitor_commands(records: Seq<MergedModel>, saved: Seq<InterfaceModel>) -> Seq<
    MonitorCmdModel,
> {
    seq![wifi_command(wifi_monitor_needed(saved))] + commands_fold(records, records.len())
}

fn trigger_is_wifi(t: &Option<InterfaceTrigger>) -> (r: bool)
    ensures
        r == is_wifi_trigger(crate::views::opt_view(*t)),
{
    match t {
        Some(x) => x.is_wifi(),
        None => false,
    }
}

fn trigger_is_carrier(t: &Option<InterfaceTrigger>) -> (r: bool)
    ensures
        r == (crate::views::opt_view(*t) == Some(TriggerModel::Carrier)),
{
    matches!(t, Some(InterfaceTrigger::Carrier(_)))
}

fn iface_needs_wifi_monitor(iface: &Interface) -> (r: bool)
    ensures
        r == needs_wifi_monitor(iface@),
{
    if iface.is_absent() {
        return false;
    }
    if let Interface::WifiCfg(_) = iface {
        if iface.ssid().is_some() {
            return true;
        }
    }
    trigger_is_wifi(&iface.base_iface().up_trigger) || trigger_is_wifi(
        &iface.base_iface().down_trigger,
    )
}

/// Whether wireless networks have to be watched for the saved state: some
/// interface that is not to be gone is a wireless profile for a network, or
/// has a trigger that depends on a wireless association.
pub fn wifi_monitor_is_needed(full_saved_state: &NetworkState) -> (r: bool)
    ensures
        r == wifi_monitor_needed(full_saved_state@.ifaces.all()),
{
    let all = full_saved_state.ifaces.to_vec();
    let ghost s = full_saved_state@.ifaces.all();
    let mut i: usize = 0;
    while i < all.len()
        invariant
            i <= all.len(),
            s == vec_view(all),
            s == full_saved_state@.ifaces.all(),
            forall|j: int| 0 <= j < i ==> !needs_wifi_monitor(#[trigger] s[j]),
        decreases all.len() - i,
    {
        assert(s[i as int] == all[i as int]@);
        if iface_needs_wifi_monitor(&all[i]) {
            return true;
        }
        i += 1;
    }
    false
}

fn command_of(rec: &MergedInterface) -> (r: Option<NipartMonitorCmd>)
    ensures
        crate::views::opt_view(r) == record_command(rec@),
{
    match &rec.for_apply {
        Some(iface) => {
            if iface.is_absent() {
                Some(NipartMonitorCmd::DelIface(iface.name().to_owned()))
            } else if trigger_is_carrier(&iface.base_iface().up_trigger) {
                Some(NipartMonitorCmd::AddIface(iface.name().to_owned()))
            } else if trigger_is_carrier(&iface.base_iface().down_trigger) {
                Some(NipartMonitorCmd::AddIface(iface.name().to_owned()))
            } else {
                None
            }
        },
        None => None,
    }
}

/// What the monitor is to be told once `merged_state` has been reconciled:
/// first whether to watch wireless networks, as `full_saved_state` asks,
/// then, for each record in order, to stop to watch an interface that is to
/// be gone and to watch one that follows the carrier.
pub fn setup_monitor_commands(
    merged_state: &MergedNetworkState,
    full_saved_state: &NetworkState,
) -> (r: Vec<NipartMonitorCmd>)
    ensures
        vec_view(r) == monitor_commands(
            merged_state@.interfaces.all(),
            full_saved_state@.ifaces.all(),
        ),
{
    let mut cmds: Vec<NipartMonitorCmd> = Vec::new();
    if wifi_monitor_is_needed(full_saved_state) {
        cmds.push(NipartMonitorCmd::EnableWifiMonitor);
    } else {
        cmds.push(NipartMonitorCmd::DisableWifiMonitor);
    }
    let ghost first = seq![wifi_command(wifi_monitor_needed(full_saved_state@.ifaces.all()))];
    assert(vec_view(cmds) =~= first);
    let records = merged_state.interfaces.to_vec();
    let ghost all = merged_state@.interfaces.all();
    let mut i: usize = 0;
    assert(vec_view(cmds) =~= first + commands_fold(all, 0));
    while i < records.len()
        invariant
            i <= records.len(),
            all == vec_view(records),
            vec_view(cmds) == first + commands_fold(all, i as nat),
        decreases records.len() - i,
    {
        assert(all[i as int] == records[i as int]@);
        let ghost before = vec_view(cmds);
        match command_of(&records[i]) {
            Some(c) => {
                cmds.push(c);
                assert(vec_view(cmds) =~= before.push(c@));
                assert(vec_view(cmds) =~= first + commands_fold(all, (i + 1) as nat));
            },
            None => {},
        }
        i += 1;
    }
    cmds
}

} // verus!
