use crate::base::{BaseInterface, BaseModel, InterfaceIp, InterfaceState, InterfaceType, IpModel};
use crate::iface::{Interface, InterfaceModel, SpecificModel, WifiModel};
use crate::ifaces::{Interfaces, InterfacesModel};
use crate::trigger::{InterfaceTrigger, TriggerModel};
use crate::views::{opt_view, str_same, text_is, vec_view};
use vstd::prelude::*;

verus! {

/// A point in time, as the system clock gives it.
#[verifier::external_type_specification]
#[verifier::external_body]
pub struct ExSystemTime(std::time::SystemTime);

/// `std::time::SystemTime::now`: the time of the call. Nothing is claimed
/// of it.
#[verifier::external_body]
fn system_time_now() -> (r: std::time::SystemTime) {
    std::time::SystemTime::now()
}

/// A change of the link or of the wireless association of a device.
#[derive(Debug)]
pub struct NipartLinkEvent {
    pub iface_name: String,
    pub iface_index: u32,
    pub iface_type: InterfaceType,
    pub is_up: bool,
    pub time_stamp: std::time::SystemTime,
    /// The network that a wireless device is connected to.
    pub ssid: Option<String>,
}

/// Mathematical model of an event: all of it but the time.
pub struct EventModel {
    pub iface_name: Seq<char>,
    pub iface_index: u32,
    pub iface_type: InterfaceType,
    pub is_up: bool,
    pub ssid: Option<Seq<char>>,
}

impl View for NipartLinkEvent {
    type V = EventModel;

    open spec fn view(&self) -> EventModel {
        EventModel {
            iface_name: self.iface_name@,
            iface_index: self.iface_index,
            iface_type: self.iface_type,
            is_up: self.is_up,
            ssid: opt_view(self.ssid),
        }
    }
}

impl NipartLinkEvent {
    /// The event with the time `time_stamp`.
    pub fn with_time_stamp(
        iface_name: String,
        iface_index: u32,
        iface_type: InterfaceType,
        is_up: bool,
        ssid: Option<String>,
        time_stamp: std::time::SystemTime,
    ) -> (r: Self)
        ensures
            r@ == (EventModel {
                iface_name: iface_name@,
                iface_index,
                iface_type,
                is_up,
                ssid: opt_view(ssid),
            }),
            r.time_stamp == time_stamp,
    {
        NipartLinkEvent { iface_name, iface_index, iface_type, is_up, time_stamp, ssid }
    }

    /// The event, stamped with the time of the call.
    pub fn new(
        iface_name: String,
        iface_index: u32,
        iface_type: InterfaceType,
        is_up: bool,
        ssid: Option<String>,
    ) -> (r: Self)
        ensures
            r@ == (EventModel {
                iface_name: iface_name@,
                iface_index,
                iface_type,
                is_up,
                ssid: opt_view(ssid),
            }),
    {
        NipartLinkEvent::with_time_stamp(
            iface_name,
            iface_index,
            iface_type,
            is_up,
            ssid,
            system_time_now(),
        )
    }
}

/// Whether no wireless device of `s` is connected to the network `ssid`.
pub open spec fn no_phy_on(s: Seq<InterfaceModel>, ssid: Seq<char>) -> bool {
    forall|i: int|
        0 <= i < s.len() && (#[trigger] s[i]).specific is WifiPhy ==> s[i].ssid() != Some(ssid)
}

/// Whether the up event carries the network `ssid`, where `*` stands for
/// any network.
pub open spec fn connects_to(event: EventModel, ssid: Seq<char>) -> bool {
    event.is_up && (if ssid == "*"@ {
        event.ssid is Some
    } else {
        event.ssid == Some(ssid)
    })
}

/// Whether the up event carries a network other than `ssid`.
pub open spec fn connects_to_other(event: EventModel, ssid: Seq<char>) -> bool {
    event.is_up && event.ssid is Some && event.ssid != Some(ssid)
}

/// Whether the trigger `trigger` of the saved interface fires on the event.
///
/// `Never` and `Always` fire on no event. A carrier trigger fires on an
/// event of the interface itself. `WifiUp` fires when the network connects,
/// or any network where it names `*`; `WifiUpNot` when another network
/// connects. `WifiDown` fires when no observed wireless device is connected
/// to the network.
pub open spec fn trigger_matches(
    event: EventModel,
    trigger: TriggerModel,
    saved_iface: InterfaceModel,
    cur_ifaces: InterfacesModel,
) -> bool {
    match trigger {
        TriggerModel::Never | TriggerModel::Always => false,
        TriggerModel::Carrier => saved_iface.base.name == event.iface_name
            && saved_iface.base.iface_type == event.iface_type,
        TriggerModel::WifiUp(ssid) => connects_to(event, ssid),
        TriggerModel::WifiDown(ssid) => no_phy_on(cur_ifaces.all(), ssid),
        TriggerModel::WifiUpNot(ssid) => connects_to_other(event, ssid),
    }
}

/// Whether a wireless profile reacts to an event of a wireless device: to
/// the connection of its network, and to the loss of the link of the
/// device that it is bound to, or of any device where it is bound to none.
pub open spec fn profile_matches(event: EventModel, saved_iface: InterfaceModel) -> bool {
    saved_iface.specific is WifiCfg && event.iface_type == InterfaceType::WifiPhy && (
    if event.is_up {
        event.ssid == saved_iface.ssid()
    } else {
        match saved_iface.parent() {
            Some(parent) => parent == event.iface_name,
            None => true,
        }
    })
}

/// Whether a saved wireless device is the device of the event.
pub open spec fn device_matches(event: EventModel, saved_iface: InterfaceModel) -> bool {
    saved_iface.base.iface_type == InterfaceType::WifiPhy && event.iface_type
        == InterfaceType::WifiPhy && event.iface_name == saved_iface.base.name
}

/// The trigger of the saved interface that an event of this direction
/// asks.
pub open spec fn asked_trigger(event: EventModel, saved_iface: InterfaceModel) -> Option<TriggerModel> {
    if event.is_up {
        saved_iface.base.up_trigger
    } else {
        saved_iface.base.down_trigger
    }
}

/// Whether the saved interface reacts to the event: as a wireless profile,
/// as the wireless device of the event, or by its trigger for the direction
/// of the event.
pub open spec fn event_matches(
    event: EventModel,
    saved_iface: InterfaceModel,
    cur_ifaces: InterfacesModel,
) -> bool {
    profile_matches(event, saved_iface) || device_matches(event, saved_iface) || (match asked_trigger(
        event,
        saved_iface,
    ) {
        Some(t) => trigger_matches(event, t, saved_iface, cur_ifaces),
        None => false,
    })
}

/// The wireless device `iface_name` with the base record of the saved
/// profile.
pub open spec fn profile_as_device(iface_name: Seq<char>, saved_iface: InterfaceModel) -> InterfaceModel {
    InterfaceModel::of_base(
        BaseModel { name: iface_name, iface_type: InterfaceType::WifiPhy, ..saved_iface.base },
    )
}

/// What a saved interface that reacts to an up event is to become: up,
/// with its up trigger spent. A wireless profile that reacts to a wireless
/// device becomes that device instead, with its up trigger spent and the
/// base record as it was saved otherwise, the state too.
pub open spec fn up_delta(event: EventModel, saved_iface: InterfaceModel) -> InterfaceModel {
    if event.iface_type == InterfaceType::WifiPhy && saved_iface.base.iface_type
        == InterfaceType::WifiCfg {
        profile_as_device(event.iface_name, up_trigger_spent(saved_iface))
    } else {
        InterfaceModel {
            base: BaseModel { state: InterfaceState::Up, up_trigger: None, ..saved_iface.base },
            specific: saved_iface.specific,
        }
    }
}

/// The state that a saved interface takes on a down event: up where it
/// follows the carrier, so that the carrier can still be watched, and for a
/// wireless profile; else gone where it is software, down where it is
/// hardware.
pub open spec fn down_state(saved_iface: InterfaceModel) -> InterfaceState {
    if saved_iface.base.down_trigger == Some(TriggerModel::Carrier) || saved_iface.base.iface_type
        == InterfaceType::WifiCfg {
        InterfaceState::Up
    } else if saved_iface.is_virtual() {
        InterfaceState::Absent
    } else {
        InterfaceState::Down
    }
}

/// The wireless settings of a profile that is bound to no device, bound to
/// the device `iface_name`.
pub open spec fn bound_to(wifi: Option<WifiModel>, iface_name: Seq<char>) -> Option<WifiModel> {
    match wifi {
        Some(w) => Some(WifiModel { base_iface: Some(iface_name), ..w }),
        None => None,
    }
}

/// What a saved interface that reacts to a down event is to become: its
/// down trigger spent, both address families off, in the state that
/// `down_state` gives. A wireless profile that is bound to no device is
/// bound to the device of the event.
pub open spec fn down_delta(event: EventModel, saved_iface: InterfaceModel) -> InterfaceModel {
    InterfaceModel {
        base: BaseModel {
            state: down_state(saved_iface),
            down_trigger: None,
            ipv4: Some(IpModel::disabled()),
            ipv6: Some(IpModel::disabled()),
            ..saved_iface.base
        },
        specific: match saved_iface.specific {
            SpecificModel::WifiCfg { wifi } => if saved_iface.parent() is None {
                SpecificModel::WifiCfg { wifi: bound_to(wifi, event.iface_name) }
            } else {
                saved_iface.specific
            },
            _ => saved_iface.specific,
        },
    }
}

/// What a saved interface that reacts to the event is to become.
pub open spec fn event_delta(event: EventModel, saved_iface: InterfaceModel) -> InterfaceModel {
    if event.is_up {
        up_delta(event, saved_iface)
    } else {
        down_delta(event, saved_iface)
    }
}

/// The event with the network of its device filled in from the observed
/// state, where the event names a wireless device and no network.
pub open spec fn backfilled(event: EventModel, cur_ifaces: InterfacesModel) -> EventModel {
    match cur_ifaces.lookup(event.iface_name, event.iface_type) {
        Some(c) => if event.ssid is None && event.iface_type == InterfaceType::WifiPhy
            && c.specific is WifiPhy {
            EventModel { ssid: c.ssid(), ..event }
        } else {
            event
        },
        None => event,
    }
}

/// The record that takes the addresses off a wireless device that lost its
/// link: up, so that the carrier can still be watched, with both address
/// families off.
pub open spec fn purge_record(event: EventModel) -> InterfaceModel {
    InterfaceModel::of_base(
        BaseModel {
            state: InterfaceState::Up,
            ipv4: Some(IpModel::disabled()),
            ipv6: Some(IpModel::disabled()),
            ..BaseModel::identity(event.iface_name, event.iface_type)
        },
    )
}

/// The state that every event starts from: the purge record of a wireless
/// device that lost its link, else nothing.
pub open spec fn delta_start(event: EventModel) -> InterfacesModel {
    if !event.is_up && event.iface_type == InterfaceType::WifiPhy {
        InterfacesModel::empty().pushed(purge_record(event))
    } else {
        InterfacesModel::empty()
    }
}

/// The desired state after the first `n` saved interfaces have been asked:
/// each one that reacts to the event is put in as what it is to become.
pub open spec fn delta_fold(
    event: EventModel,
    saved: Seq<InterfaceModel>,
    cur_ifaces: InterfacesModel,
    n: nat,
) -> InterfacesModel
    decreases n,
{
    if n == 0 || n > saved.len() {
        delta_start(event)
    } else {
        let acc = delta_fold(event, saved, cur_ifaces, (n - 1) as nat);
        if event_matches(event, saved[n - 1], cur_ifaces) {
            acc.pushed(event_delta(event, saved[n - 1]))
        } else {
            acc
        }
    }
}

/// The desired state that an event asks for, given the saved and the
/// observed interfaces.
pub open spec fn link_event_delta(
    event: EventModel,
    saved: InterfacesModel,
    cur_ifaces: InterfacesModel,
) -> InterfacesModel {
    let e = backfilled(event, cur_ifaces);
    delta_fold(e, saved.all(), cur_ifaces, saved.all().len())
}

/// The saved interface with its up trigger spent.
pub open spec fn up_trigger_spent(saved_iface: InterfaceModel) -> InterfaceModel {
    InterfaceModel {
        base: BaseModel { up_trigger: None, ..saved_iface.base },
        specific: saved_iface.specific,
    }
}

/// An up trigger fires once: what the interface becomes on an up event has
/// no up trigger, and an interface whose up trigger is spent, and that is
/// neither a wireless profile that meets the event nor the wireless device
/// of the event, does not react to the event again. Nor does what the
/// interface has become, unless it is a wireless profile that has become
/// the wireless device of the event.
pub proof fn lemma_up_trigger_fires_once(
    event: EventModel,
    saved_iface: InterfaceModel,
    cur_ifaces: InterfacesModel,
)
    requires
        event.is_up,
    ensures
        event_delta(event, saved_iface).base.up_trigger is None,
        !profile_matches(event, saved_iface) && !device_matches(event, saved_iface)
            ==> !event_matches(event, up_trigger_spent(saved_iface), cur_ifaces),
        !profile_matches(event, saved_iface) && !device_matches(event, saved_iface) && !(
        event.iface_type == InterfaceType::WifiPhy && saved_iface.base.iface_type
            == InterfaceType::WifiCfg) ==> !event_matches(
            event,
            event_delta(event, saved_iface),
            cur_ifaces,
        ),
{
}

/// Where no saved interface reacts to the event, the event asks for no more
/// than it starts from: nothing, but for a wireless device that lost its
/// link.
pub proof fn lemma_no_match_no_action(
    event: EventModel,
    saved: Seq<InterfaceModel>,
    cur_ifaces: InterfacesModel,
    n: nat,
)
    requires
        forall|i: int| 0 <= i < saved.len() ==> !event_matches(event, #[trigger] saved[i], cur_ifaces),
    ensures
        delta_fold(event, saved, cur_ifaces, n) == delta_start(event),
        event.is_up ==> delta_fold(event, saved, cur_ifaces, n).all().len() == 0,
    decreases n,
{
    if n == 0 || n > saved.len() {
    } else {
        lemma_no_match_no_action(event, saved, cur_ifaces, (n - 1) as nat);
    }
}

/// A trigger on the loss of a network does not fire while some observed
/// wireless device is connected to that network, and fires when none is.
pub proof fn lemma_wifi_down_trigger(
    event: EventModel,
    ssid: Seq<char>,
    saved_iface: InterfaceModel,
    cur_ifaces: InterfacesModel,
)
    ensures
        trigger_matches(event, TriggerModel::WifiDown(ssid), saved_iface, cur_ifaces) <==> !(
        exists|i: int|
            0 <= i < cur_ifaces.all().len() && (#[trigger] cur_ifaces.all()[i]).specific is WifiPhy
                && cur_ifaces.all()[i].ssid() == Some(ssid)),
{
}

/// Whether two texts that may be missing are the same.
fn same_opt_text(a: Option<&String>, b: Option<&String>) -> (r: bool)
    ensures
        r == (opt_view(a) == opt_view(b)),
{
    match (a, b) {
        (Some(x), Some(y)) => *x == *y,
        (None, None) => true,
        _ => false,
    }
}

/// Whether the text that may be missing is `t`.
fn opt_text_is(a: Option<&String>, t: &String) -> (r: bool)
    ensures
        r == (opt_view(a) == Some(t@)),
{
    match a {
        Some(x) => *x == *t,
        None => false,
    }
}

/// Whether no wireless device of `cur_ifaces` is connected to `ssid`.
fn no_device_on(cur_ifaces: &Interfaces, ssid: &String) -> (r: bool)
    ensures
        r == no_phy_on(cur_ifaces@.all(), ssid@),
{
    let all = cur_ifaces.to_vec();
    let ghost s = cur_ifaces@.all();
    let mut i: usize = 0;
    while i < all.len()
        invariant
            i <= all.len(),
            s == vec_view(all),
            s == cur_ifaces@.all(),
            forall|j: int|
                0 <= j < i && (#[trigger] s[j]).specific is WifiPhy ==> s[j].ssid() != Some(ssid@),
        decreases all.len() - i,
    {
        assert(s[i as int] == all[i as int]@);
        if let Interface::WifiPhy(_) = &all[i] {
            if opt_text_is(all[i].ssid(), ssid) {
                assert(s[i as int].specific is WifiPhy && s[i as int].ssid() == Some(ssid@));
                return false;
            }
        }
        i += 1;
    }
    true
}

/// Whether the trigger `trigger` of the saved interface fires on the event.
pub fn is_trigger_matches(
    event: &NipartLinkEvent,
    trigger: &InterfaceTrigger,
    saved_iface: &Interface,
    cur_ifaces: &Interfaces,
) -> (r: bool)
    ensures
        r == trigger_matches(event@, trigger@, saved_iface@, cur_ifaces@),
{
    match trigger {
        InterfaceTrigger::Never | InterfaceTrigger::Always => false,
        InterfaceTrigger::Carrier(_) => str_same(saved_iface.name(), event.iface_name.as_str())
            && saved_iface.iface_type() == event.iface_type,
        InterfaceTrigger::WifiUp(ssid) => event.is_up && (if text_is(ssid, "*") {
            event.ssid.is_some()
        } else {
            opt_text_is(event.ssid.as_ref(), ssid)
        }),
        InterfaceTrigger::WifiDown(ssid) => no_device_on(cur_ifaces, ssid),
        InterfaceTrigger::WifiUpNot(ssid) => event.is_up && event.ssid.is_some() && !opt_text_is(
            event.ssid.as_ref(),
            ssid,
        ),
    }
}

fn is_profile_matches(event: &NipartLinkEvent, saved_iface: &Interface) -> (r: bool)
    ensures
        r == profile_matches(event@, saved_iface@),
{
    if let Interface::WifiCfg(_) = saved_iface {
        if event.iface_type == InterfaceType::WifiPhy {
            if event.is_up {
                same_opt_text(event.ssid.as_ref(), saved_iface.ssid())
            } else {
                match saved_iface.parent() {
                    Some(parent) => *parent == event.iface_name,
                    None => true,
                }
            }
        } else {
            false
        }
    } else {
        false
    }
}

/// Whether the saved interface reacts to the event: as a wireless profile
/// that meets a wireless device, as the wireless device of the event, or by
/// its trigger for the direction of the event.
pub fn is_event_matches(
    event: &NipartLinkEvent,
    saved_iface: &Interface,
    cur_ifaces: &Interfaces,
) -> (r: bool)
    ensures
        r == event_matches(event@, saved_iface@, cur_ifaces@),
{
    if is_profile_matches(event, saved_iface) {
        return true;
    }
    if saved_iface.iface_type() == InterfaceType::WifiPhy && event.iface_type
        == InterfaceType::WifiPhy && str_same(event.iface_name.as_str(), saved_iface.name()) {
        return true;
    }
    if event.is_up {
        match saved_iface.base_iface().up_trigger.as_ref() {
            Some(up_trigger) => is_trigger_matches(event, up_trigger, saved_iface, cur_ifaces),
            None => false,
        }
    } else {
        match saved_iface.base_iface().down_trigger.as_ref() {
            Some(down_trigger) => is_trigger_matches(event, down_trigger, saved_iface, cur_ifaces),
            None => false,
        }
    }
}

/// The wireless device `iface_name` with the base record of the saved
/// profile.
pub fn wifi_cfg_to_wifi_phy(iface_name: &str, saved_iface: &Interface) -> (r: Interface)
    ensures
        r@ == profile_as_device(iface_name@, saved_iface@),
{
    let mut desired = saved_iface.base_iface().clone();
    desired.name = iface_name.to_owned();
    desired.iface_type = InterfaceType::WifiPhy;
    Interface::from_base(desired)
}

fn up_delta_of(event: &NipartLinkEvent, iface: &Interface) -> (r: Interface)
    ensures
        r@ == up_delta(event@, iface@),
{
    let mut desired_iface = iface.clone();
    desired_iface.base_iface_mut().up_trigger = None;
    if event.iface_type == InterfaceType::WifiPhy && iface.iface_type()
        == InterfaceType::WifiCfg {
        wifi_cfg_to_wifi_phy(event.iface_name.as_str(), &desired_iface)
    } else {
        desired_iface.base_iface_mut().state = InterfaceState::Up;
        desired_iface
    }
}

fn down_state_of(iface: &Interface) -> (r: InterfaceState)
    ensures
        r == down_state(iface@),
{
    let follows_carrier = matches!(
        iface.base_iface().down_trigger.as_ref(),
        Some(InterfaceTrigger::Carrier(_))
    );
    if follows_carrier || iface.iface_type() == InterfaceType::WifiCfg {
        InterfaceState::Up
    } else if iface.is_virtual() {
        InterfaceState::Absent
    } else {
        InterfaceState::Down
    }
}

fn down_delta_of(event: &NipartLinkEvent, iface: &Interface) -> (r: Interface)
    ensures
        r@ == down_delta(event@, iface@),
{
    let mut desired_iface = iface.clone();
    let state = down_state_of(iface);
    let base = desired_iface.base_iface_mut();
    base.state = state;
    base.down_trigger = None;
    base.ipv4 = Some(InterfaceIp::new_disabled());
    base.ipv6 = Some(InterfaceIp::new_disabled());
    let unbound = iface.parent().is_none();
    match &mut desired_iface {
        Interface::WifiCfg(profile) => {
            if unbound {
                match &mut profile.wifi {
                    Some(wifi_cfg) => {
                        wifi_cfg.base_iface = Some(event.iface_name.clone());
                    },
                    None => {},
                }
            }
        },
        _ => {},
    }
    desired_iface
}

/// Fills in the network of the device of the event from the observed
/// state, where the event names a wireless device and no network.
fn backfill_ssid(event: &mut NipartLinkEvent, cur_ifaces: &Interfaces)
    ensures
        final(event)@ == backfilled(old(event)@, cur_ifaces@),
{
    if let Some(cur_iface) = cur_ifaces.get_iface(event.iface_name.as_str(), event.iface_type) {
        if event.ssid.is_none() && event.iface_type == InterfaceType::WifiPhy {
            if let Interface::WifiPhy(_) = cur_iface {
                event.ssid = match cur_iface.ssid() {
                    Some(s) => Some(s.clone()),
                    None => None,
                };
            }
        }
    }
}

fn purge_record_of(event: &NipartLinkEvent) -> (r: Interface)
    ensures
        r@ == purge_record(event@),
{
    let mut desired_iface = BaseInterface::new(event.iface_name.clone(), event.iface_type);
    desired_iface.state = InterfaceState::Up;
    desired_iface.ipv4 = Some(InterfaceIp::new_disabled());
    desired_iface.ipv6 = Some(InterfaceIp::new_disabled());
    Interface::from_base(desired_iface)
}

/// The desired state that the event asks for, given the saved interfaces
/// and the observed ones.
///
/// A wireless device that names no network gets the network that it is
/// observed on. A wireless device that lost its link has its addresses taken
/// off. Then each saved interface that reacts to the event is put in as
/// what it is to become.
pub fn link_event_desired_state(
    event: NipartLinkEvent,
    saved_ifaces: &Interfaces,
    cur_ifaces: &Interfaces,
) -> (r: Interfaces)
    ensures
        r@ == link_event_delta(event@, saved_ifaces@, cur_ifaces@),
{
    let mut event = event;
    backfill_ssid(&mut event, cur_ifaces);
    let mut desired = Interfaces::new();
    if !event.is_up && event.iface_type == InterfaceType::WifiPhy {
        desired.push(purge_record_of(&event));
    }
    let saved = saved_ifaces.to_vec();
    let ghost s = saved_ifaces@.all();
    let mut i: usize = 0;
    while i < saved.len()
        invariant
            i <= saved.len(),
            s == vec_view(saved),
            desired@ == delta_fold(event@, s, cur_ifaces@, i as nat),
        decreases saved.len() - i,
    {
        assert(s[i as int] == saved[i as int]@);
        if is_event_matches(&event, &saved[i], cur_ifaces) {
            let desired_iface = if event.is_up {
                up_delta_of(&event, &saved[i])
            } else {
                down_delta_of(&event, &saved[i])
            };
            desired.push(desired_iface);
        }
        i += 1;
    }
    desired
}

} // verus!
