use crate::base::{
    lemma_state_name_round_trip, lemma_type_name_round_trip, BaseModel, InterfaceType, IpModel,
};
use crate::codec::{
    all_text, base_decode, base_entries, base_key, field_bool, field_ip, field_number,
    field_state, field_text, field_texts, field_trigger, field_type, iface_decode,
    iface_encode, ip_decode, ip_encode, ip_key, opt_ip, opt_number, opt_priority, opt_text,
    opt_texts, opt_trigger, opt_type, opt_wifi, specific_decode, specific_entries,
    specific_key, text_list, texts_of, wifi_decode, wifi_encode, wifi_key,
};
use crate::iface::{InterfaceModel, SpecificModel, WifiModel};
use crate::json::Json;
use crate::trigger::{lemma_trigger_round_trip, trigger_decode, trigger_encode, TriggerModel};
use crate::value_laws::json_contained;
use vstd::prelude::*;

verus! {

/// The keys of the structural values differ from each other.
pub proof fn lemma_keys_differ()
    ensures
        "name"@.len() == 4 && "name"@[0] == 'n',
        "type"@.len() == 4 && "type"@[0] == 't',
        "state"@.len() == 5 && "state"@[0] == 's',
        "controller"@.len() == 10 && "controller"@[0] == 'c',
        "controller-type"@.len() == 15 && "controller-type"@[0] == 'c',
        "mac-address"@.len() == 11 && "mac-address"@[0] == 'm',
        "ipv4"@.len() == 4 && "ipv4"@[0] == 'i' && "ipv4"@[3] == '4',
        "ipv6"@.len() == 4 && "ipv6"@[0] == 'i' && "ipv6"@[3] == '6',
        "up-trigger"@.len() == 10 && "up-trigger"@[0] == 'u',
        "down-trigger"@.len() == 12,
        "up-priority"@.len() == 11 && "up-priority"@[0] == 'u',
        "veth-peer"@.len() == 9,
        "sr-iov-vfs"@.len() == 10 && "sr-iov-vfs"@[0] == 's',
        "vlan-base-iface"@.len() == 15 && "vlan-base-iface"@[0] == 'v',
        "vlan-id"@.len() == 7,
        "ports"@.len() == 5 && "ports"@[0] == 'p',
        "patch-peer"@.len() == 10 && "patch-peer"@[0] == 'p',
        "wifi"@.len() == 4 && "wifi"@[0] == 'w',
        "enabled"@.len() == 7 && "enabled"@[0] == 'e',
        "dhcp"@.len() == 4,
        "address"@.len() == 7 && "address"@[0] == 'a',
        "ssid"@.len() == 4,
        "base-iface"@.len() == 10,
{
    reveal_strlit("name");
    reveal_strlit("type");
    reveal_strlit("state");
    reveal_strlit("controller");
    reveal_strlit("controller-type");
    reveal_strlit("mac-address");
    reveal_strlit("ipv4");
    reveal_strlit("ipv6");
    reveal_strlit("up-trigger");
    reveal_strlit("down-trigger");
    reveal_strlit("up-priority");
    reveal_strlit("veth-peer");
    reveal_strlit("sr-iov-vfs");
    reveal_strlit("vlan-base-iface");
    reveal_strlit("vlan-id");
    reveal_strlit("ports");
    reveal_strlit("patch-peer");
    reveal_strlit("wifi");
    reveal_strlit("enabled");
    reveal_strlit("dhcp");
    reveal_strlit("address");
    reveal_strlit("ssid");
    reveal_strlit("base-iface");
}

/// A list of texts is read back from its array.
pub proof fn lemma_text_list_round_trip(l: Seq<Seq<char>>)
    ensures
        text_list(l) matches Json::Array(a) && all_text(a) && texts_of(a) == l,
{
    let a = text_list(l)->Array_0;
    assert(texts_of(a) =~= l);
}

/// The structural value of an IP configuration leads back to it.
pub proof fn lemma_ip_round_trip(ip: IpModel)
    ensures
        ip_decode(ip_encode(ip)) == Some(ip),
{
    lemma_keys_differ();
    let m = ip_encode(ip)->Object_0;
    if ip.addresses is Some {
        lemma_text_list_round_trip(ip.addresses->0);
    }
    assert(field_bool(m, "enabled"@) == Ok::<Option<bool>, ()>(ip.enabled));
    assert(field_bool(m, "dhcp"@) == Ok::<Option<bool>, ()>(ip.dhcp));
    assert(field_texts(m, "address"@) == Ok::<Option<Seq<Seq<char>>>, ()>(ip.addresses));
}

/// The structural value of wireless settings leads back to them.
pub proof fn lemma_wifi_round_trip(w: WifiModel)
    ensures
        wifi_decode(wifi_encode(w)) == Some(w),
{
    lemma_keys_differ();
    let m = wifi_encode(w)->Object_0;
    assert(field_text(m, "ssid"@) == Ok::<Option<Seq<char>>, ()>(w.ssid));
    assert(field_text(m, "base-iface"@) == Ok::<Option<Seq<char>>, ()>(w.base_iface));
}


/// What reading the base record back from the entries `m` needs: each key of
/// the base record holds in `m` what the record `b` gives it.
spec fn holds_base(m: Map<Seq<char>, Json>, b: BaseModel) -> bool {
    &&& field_text(m, "name"@) == Ok::<Option<Seq<char>>, ()>(Some(b.name))
    &&& field_type(m, "type"@) == Ok::<Option<InterfaceType>, ()>(Some(b.iface_type))
    &&& field_state(m, "state"@) == Ok::<Option<crate::base::InterfaceState>, ()>(Some(b.state))
    &&& field_text(m, "controller"@) == Ok::<Option<Seq<char>>, ()>(b.controller)
    &&& field_type(m, "controller-type"@) == Ok::<Option<InterfaceType>, ()>(b.controller_type)
    &&& field_text(m, "mac-address"@) == Ok::<Option<Seq<char>>, ()>(b.mac_address)
    &&& field_ip(m, "ipv4"@) == Ok::<Option<IpModel>, ()>(b.ipv4)
    &&& field_ip(m, "ipv6"@) == Ok::<Option<IpModel>, ()>(b.ipv6)
    &&& field_trigger(m, "up-trigger"@) == Ok::<Option<TriggerModel>, ()>(b.up_trigger)
    &&& field_trigger(m, "down-trigger"@) == Ok::<Option<TriggerModel>, ()>(b.down_trigger)
    &&& field_number(m, "up-priority"@, u32::MAX as int) == Ok::<Option<int>, ()>(
        if b.up_priority == u32::MAX {
            None
        } else {
            Some(b.up_priority as int)
        },
    )
}

proof fn lemma_base_entries(b: BaseModel)
    ensures
        holds_base(base_entries(b), b),
        forall|k: Seq<char>| #[trigger] base_entries(b).dom().contains(k) ==> base_key(k),
{
    lemma_keys_differ();
    lemma_type_name_round_trip(b.iface_type);
    lemma_state_name_round_trip(b.state);
    if b.controller_type is Some {
        lemma_type_name_round_trip(b.controller_type->0);
    }
    if b.ipv4 is Some {
        lemma_ip_round_trip(b.ipv4->0);
    }
    if b.ipv6 is Some {
        lemma_ip_round_trip(b.ipv6->0);
    }
    if b.up_trigger is Some {
        lemma_trigger_round_trip(b.up_trigger->0);
        lemma_trigger_not_null(b.up_trigger->0);
    }
    if b.down_trigger is Some {
        lemma_trigger_round_trip(b.down_trigger->0);
        lemma_trigger_not_null(b.down_trigger->0);
    }
    let m = base_entries(b);
    assert(field_text(m, "name"@) == Ok::<Option<Seq<char>>, ()>(Some(b.name)));
    assert(field_type(m, "type"@) == Ok::<Option<InterfaceType>, ()>(Some(b.iface_type)));
    assert(field_state(m, "state"@) == Ok::<Option<crate::base::InterfaceState>, ()>(
        Some(b.state),
    ));
    assert(field_text(m, "controller"@) == Ok::<Option<Seq<char>>, ()>(b.controller));
    assert(field_type(m, "controller-type"@) == Ok::<Option<InterfaceType>, ()>(
        b.controller_type,
    ));
    assert(field_text(m, "mac-address"@) == Ok::<Option<Seq<char>>, ()>(b.mac_address));
    assert(field_ip(m, "ipv4"@) == Ok::<Option<IpModel>, ()>(b.ipv4));
    assert(field_ip(m, "ipv6"@) == Ok::<Option<IpModel>, ()>(b.ipv6));
    assert(field_trigger(m, "up-trigger"@) == Ok::<Option<TriggerModel>, ()>(b.up_trigger));
    assert(field_trigger(m, "down-trigger"@) == Ok::<Option<TriggerModel>, ()>(b.down_trigger));
}

/// The structural value of a trigger is never `Null`.
pub proof fn lemma_trigger_not_null(t: TriggerModel)
    ensures
        trigger_encode(t) != Json::Null,
{
}

/// Reading a base record depends on the keys of the base record alone.
proof fn lemma_holds_base_extends(m: Map<Seq<char>, Json>, n: Map<Seq<char>, Json>, b: BaseModel)
    requires
        holds_base(m, b),
        forall|k: Seq<char>|
            base_key(k) ==> (#[trigger] m.dom().contains(k) <==> n.dom().contains(k)),
        forall|k: Seq<char>| base_key(k) && #[trigger] m.dom().contains(k) ==> m[k] == n[k],
    ensures
        holds_base(n, b),
{
    assert(m.dom().contains("name"@) <==> n.dom().contains("name"@));
    assert(m.dom().contains("type"@) <==> n.dom().contains("type"@));
    assert(m.dom().contains("state"@) <==> n.dom().contains("state"@));
    assert(m.dom().contains("controller"@) <==> n.dom().contains("controller"@));
    assert(m.dom().contains("controller-type"@) <==> n.dom().contains("controller-type"@));
    assert(m.dom().contains("mac-address"@) <==> n.dom().contains("mac-address"@));
    assert(m.dom().contains("ipv4"@) <==> n.dom().contains("ipv4"@));
    assert(m.dom().contains("ipv6"@) <==> n.dom().contains("ipv6"@));
    assert(m.dom().contains("up-trigger"@) <==> n.dom().contains("up-trigger"@));
    assert(m.dom().contains("down-trigger"@) <==> n.dom().contains("down-trigger"@));
    assert(m.dom().contains("up-priority"@) <==> n.dom().contains("up-priority"@));
}

/// A record without what it was worked out against.
pub open spec fn without_context(i: InterfaceModel) -> InterfaceModel {
    InterfaceModel { base: BaseModel { context: None, ..i.base }, specific: i.specific }
}

/// The structural value of an interface leads back to the interface, but
/// for what the record was worked out against, which is no part of the
/// value.
pub proof fn lemma_iface_round_trip(i: InterfaceModel)
    requires
        i.wf(),
    ensures
        iface_decode(iface_encode(i)) == Some(without_context(i)),
{
    reveal(iface_encode);
    reveal(iface_decode);
    lemma_keys_differ();
    lemma_base_entries(i.base);
    let bm = base_entries(i.base);
    let m = specific_entries(bm, i.specific);
    let t = i.base.iface_type;
    assert forall|k: Seq<char>| base_key(k) implies (#[trigger] bm.dom().contains(k)
        <==> m.dom().contains(k)) by {}
    assert forall|k: Seq<char>| base_key(k) && #[trigger] bm.dom().contains(k) implies bm[k]
        == m[k] by {}
    lemma_holds_base_extends(bm, m, i.base);
    assert(base_decode(m) == Some(without_context(i).base));
    match i.specific {
        SpecificModel::Ethernet { veth_peer, sr_iov_vfs } => {
            if sr_iov_vfs is Some {
                lemma_text_list_round_trip(sr_iov_vfs->0);
            }
            assert(field_text(m, "veth-peer"@) == Ok::<Option<Seq<char>>, ()>(veth_peer));
            assert(field_texts(m, "sr-iov-vfs"@) == Ok::<Option<Seq<Seq<char>>>, ()>(sr_iov_vfs));
        },
        SpecificModel::Vlan { vlan_base_iface, vlan_id } => {
            assert(field_text(m, "vlan-base-iface"@) == Ok::<Option<Seq<char>>, ()>(
                vlan_base_iface,
            ));
        },
        SpecificModel::Bond { ports } => {
            if ports is Some {
                lemma_text_list_round_trip(ports->0);
            }
        },
        SpecificModel::LinuxBridge { ports } => {
            if ports is Some {
                lemma_text_list_round_trip(ports->0);
            }
        },
        SpecificModel::OvsBridge { ports } => {
            if ports is Some {
                lemma_text_list_round_trip(ports->0);
            }
        },
        SpecificModel::OvsInterface { patch_peer } => {},
        SpecificModel::Tun => {},
        SpecificModel::WifiPhy { wifi } => {
            if wifi is Some {
                lemma_wifi_round_trip(wifi->0);
            }
        },
        SpecificModel::WifiCfg { wifi } => {
            if wifi is Some {
                lemma_wifi_round_trip(wifi->0);
            }
        },
        SpecificModel::Unknown => {},
    }
    assert(specific_decode(m, t) == Some(i.specific));
    assert forall|k: Seq<char>| #[trigger] m.dom().contains(k) implies base_key(k) || specific_key(
        t,
        k,
    ) by {
        if !bm.dom().contains(k) {
        }
    }
}


/// A value that says nothing that the value of an IP configuration does
/// not say, and that stands for an IP configuration, is the value of that
/// configuration.
pub proof fn lemma_contained_ip(v: Json, x: IpModel)
    requires
        json_contained(v, ip_encode(x)),
        ip_decode(v) is Some,
    ensures
        ip_encode(ip_decode(v)->0) == v,
{
    lemma_keys_differ();
    let vm = v->Object_0;
    let xm = ip_encode(x)->Object_0;
    let y = ip_decode(v)->0;
    let ym = ip_encode(y)->Object_0;
    if x.addresses is Some {
        lemma_text_list_round_trip(x.addresses->0);
    }
    if y.addresses is Some {
        lemma_text_list_round_trip(y.addresses->0);
    }
    assert(vm.dom().contains("enabled"@) ==> xm.dom().contains("enabled"@) && json_contained(
        vm["enabled"@],
        xm["enabled"@],
    ));
    assert(vm.dom().contains("dhcp"@) ==> xm.dom().contains("dhcp"@) && json_contained(
        vm["dhcp"@],
        xm["dhcp"@],
    ));
    assert(vm.dom().contains("address"@) ==> xm.dom().contains("address"@) && json_contained(
        vm["address"@],
        xm["address"@],
    ));
    assert forall|k: Seq<char>| #[trigger] vm.dom().contains(k) implies ym.dom().contains(k)
        && ym[k] == vm[k] by {
        assert(ip_key(k));
    }
    assert forall|k: Seq<char>| #[trigger] ym.dom().contains(k) implies vm.dom().contains(k) by {}
    assert(ym =~= vm);
}

/// The same, of wireless settings.
pub proof fn lemma_contained_wifi(v: Json, x: WifiModel)
    requires
        json_contained(v, wifi_encode(x)),
        wifi_decode(v) is Some,
    ensures
        wifi_encode(wifi_decode(v)->0) == v,
{
    lemma_keys_differ();
    let vm = v->Object_0;
    let xm = wifi_encode(x)->Object_0;
    let y = wifi_decode(v)->0;
    let ym = wifi_encode(y)->Object_0;
    assert(vm.dom().contains("ssid"@) ==> xm.dom().contains("ssid"@) && json_contained(
        vm["ssid"@],
        xm["ssid"@],
    ));
    assert(vm.dom().contains("base-iface"@) ==> xm.dom().contains("base-iface"@)
        && json_contained(vm["base-iface"@], xm["base-iface"@]));
    assert forall|k: Seq<char>| #[trigger] vm.dom().contains(k) implies ym.dom().contains(k)
        && ym[k] == vm[k] by {
        assert(wifi_key(k));
    }
    assert forall|k: Seq<char>| #[trigger] ym.dom().contains(k) implies vm.dom().contains(k) by {}
    assert(ym =~= vm);
}

/// The same, of a trigger.
pub proof fn lemma_contained_trigger(v: Json, x: TriggerModel)
    requires
        json_contained(v, trigger_encode(x)),
        trigger_decode(v) is Ok,
    ensures
        trigger_encode(trigger_decode(v)->Ok_0) == v,
{
    reveal_strlit("never");
    reveal_strlit("always");
    reveal_strlit("carrier");
    reveal_strlit("wifi-up");
    reveal_strlit("wifi-down");
    reveal_strlit("wifi-up-not");
    assert("never"@.len() == 5);
    assert("always"@.len() == 6);
    assert("carrier"@.len() == 7 && "carrier"@[0] == 'c');
    assert("wifi-up"@.len() == 7 && "wifi-up"@[0] == 'w');
    assert("wifi-down"@.len() == 9);
    assert("wifi-up-not"@.len() == 11);
    match v {
        Json::Object(vm) => {
            let xm = trigger_encode(x)->Object_0;
            let t = trigger_decode(v)->Ok_0;
            let tm = trigger_encode(t)->Object_0;
            assert(vm.dom().contains("wifi-up"@) ==> xm.dom().contains("wifi-up"@)
                && json_contained(vm["wifi-up"@], xm["wifi-up"@]));
            assert(vm.dom().contains("wifi-up-not"@) ==> xm.dom().contains("wifi-up-not"@)
                && json_contained(vm["wifi-up-not"@], xm["wifi-up-not"@]));
            assert(vm.dom().contains("wifi-down"@) ==> xm.dom().contains("wifi-down"@)
                && json_contained(vm["wifi-down"@], xm["wifi-down"@]));
            assert(vm.dom().contains("carrier"@) ==> xm.dom().contains("carrier"@)
                && json_contained(vm["carrier"@], xm["carrier"@]));
            assert forall|k: Seq<char>| #[trigger] vm.dom().contains(k) implies tm.dom().contains(k)
                && tm[k] == vm[k] by {
                assert(xm.dom().contains(k));
            }
            assert(tm =~= vm);
        },
        _ => {},
    }
}


/// Whether the entries `jm` say, under the keys of the base record, nothing
/// that the entries `bx` do not say.
spec fn base_contained(jm: Map<Seq<char>, Json>, bx: Map<Seq<char>, Json>) -> bool {
    forall|k: Seq<char>|
        base_key(k) && #[trigger] jm.dom().contains(k) ==> bx.dom().contains(k) && json_contained(
            jm[k],
            bx[k],
        )
}

/// Whether `m` holds `v` under `k`, and holds nothing there where `v` is
/// missing.
spec fn holds_entry(m: Map<Seq<char>, Json>, k: Seq<char>, v: Option<Json>) -> bool {
    (m.dom().contains(k) <==> v is Some) && (v is Some ==> m[k] == v->0)
}

/// Whether `m` holds, under the keys of the base record, what the record
/// `b` gives.
spec fn base_shape(m: Map<Seq<char>, Json>, b: BaseModel) -> bool {
    &&& holds_entry(m, "name"@, Some(Json::Text(b.name)))
    &&& holds_entry(m, "type"@, Some(Json::Text(b.iface_type.name())))
    &&& holds_entry(m, "state"@, Some(Json::Text(b.state.name())))
    &&& holds_entry(m, "controller"@, opt_text(b.controller))
    &&& holds_entry(m, "controller-type"@, opt_type(b.controller_type))
    &&& holds_entry(m, "mac-address"@, opt_text(b.mac_address))
    &&& holds_entry(m, "ipv4"@, opt_ip(b.ipv4))
    &&& holds_entry(m, "ipv6"@, opt_ip(b.ipv6))
    &&& holds_entry(m, "up-trigger"@, opt_trigger(b.up_trigger))
    &&& holds_entry(m, "down-trigger"@, opt_trigger(b.down_trigger))
    &&& holds_entry(m, "up-priority"@, opt_priority(b.up_priority))
}

proof fn lemma_base_shape(b: BaseModel)
    ensures
        base_shape(base_entries(b), b),
{
    lemma_keys_differ();
}

/// Whether `y` is the base record that is read from the entries `jm`.
spec fn base_fields(jm: Map<Seq<char>, Json>, y: BaseModel) -> bool {
    &&& field_text(jm, "name"@) == Ok::<Option<Seq<char>>, ()>(Some(y.name))
    &&& field_type(jm, "type"@) == Ok::<Option<InterfaceType>, ()>(Some(y.iface_type))
    &&& field_state(jm, "state"@) is Ok
    &&& y.state == (match field_state(jm, "state"@)->Ok_0 {
        Some(s) => s,
        None => crate::base::InterfaceState::Up,
    })
    &&& field_text(jm, "controller"@) == Ok::<Option<Seq<char>>, ()>(y.controller)
    &&& field_type(jm, "controller-type"@) == Ok::<Option<InterfaceType>, ()>(y.controller_type)
    &&& field_text(jm, "mac-address"@) == Ok::<Option<Seq<char>>, ()>(y.mac_address)
    &&& field_ip(jm, "ipv4"@) == Ok::<Option<IpModel>, ()>(y.ipv4)
    &&& field_ip(jm, "ipv6"@) == Ok::<Option<IpModel>, ()>(y.ipv6)
    &&& field_trigger(jm, "up-trigger"@) == Ok::<Option<TriggerModel>, ()>(y.up_trigger)
    &&& field_trigger(jm, "down-trigger"@) == Ok::<Option<TriggerModel>, ()>(y.down_trigger)
    &&& field_number(jm, "up-priority"@, u32::MAX as int) is Ok
    &&& y.up_priority == (match field_number(jm, "up-priority"@, u32::MAX as int)->Ok_0 {
        Some(n) => n as u32,
        None => u32::MAX,
    })
}

proof fn lemma_base_fields(jm: Map<Seq<char>, Json>)
    requires
        base_decode(jm) is Some,
    ensures
        base_fields(jm, base_decode(jm)->0),
{
}

/// Entries `jm` that say nothing that the entries `bx` of the base record
/// `x` do not say, and from which the base record `y` is read, are, under
/// the key `k` of the base record, the entries `by` of `y`.
proof fn lemma_contained_base_key(
    jm: Map<Seq<char>, Json>,
    bx: Map<Seq<char>, Json>,
    x: BaseModel,
    by: Map<Seq<char>, Json>,
    y: BaseModel,
    k: Seq<char>,
)
    requires
        base_contained(jm, bx),
        base_shape(bx, x),
        base_shape(by, y),
        base_fields(jm, y),
        jm.dom().contains("state"@),
        base_key(k),
    ensures
        by.dom().contains(k) <==> jm.dom().contains(k),
        jm.dom().contains(k) ==> by[k] == jm[k],
{
    assert(jm.dom().contains(k) ==> bx.dom().contains(k) && json_contained(jm[k], bx[k]));
    if k == "name"@ {
    } else if k == "type"@ {
        lemma_type_name_round_trip(x.iface_type);
    } else if k == "state"@ {
        lemma_state_name_round_trip(x.state);
    } else if k == "controller"@ {
    } else if k == "controller-type"@ {
        if x.controller_type is Some {
            lemma_type_name_round_trip(x.controller_type->0);
        }
    } else if k == "mac-address"@ {
    } else if k == "ipv4"@ {
        if jm.dom().contains(k) {
            lemma_contained_ip(jm[k], x.ipv4->0);
        }
    } else if k == "ipv6"@ {
        if jm.dom().contains(k) {
            lemma_contained_ip(jm[k], x.ipv6->0);
        }
    } else if k == "up-trigger"@ {
        if jm.dom().contains(k) {
            lemma_trigger_not_null(x.up_trigger->0);
            lemma_contained_trigger(jm[k], x.up_trigger->0);
        }
    } else if k == "down-trigger"@ {
        if jm.dom().contains(k) {
            lemma_trigger_not_null(x.down_trigger->0);
            lemma_contained_trigger(jm[k], x.down_trigger->0);
        }
    } else {
        assert(k == "up-priority"@);
    }
}

/// Whether `m` holds, under the keys of the kind, what `s` gives.
spec fn specific_shape(m: Map<Seq<char>, Json>, s: SpecificModel) -> bool {
    match s {
        SpecificModel::Ethernet { veth_peer, sr_iov_vfs } => holds_entry(
            m,
            "veth-peer"@,
            opt_text(veth_peer),
        ) && holds_entry(m, "sr-iov-vfs"@, opt_texts(sr_iov_vfs)),
        SpecificModel::Vlan { vlan_base_iface, vlan_id } => holds_entry(
            m,
            "vlan-base-iface"@,
            opt_text(vlan_base_iface),
        ) && holds_entry(m, "vlan-id"@, opt_number(vlan_id)),
        SpecificModel::Bond { ports } => holds_entry(m, "ports"@, opt_texts(ports)),
        SpecificModel::LinuxBridge { ports } => holds_entry(m, "ports"@, opt_texts(ports)),
        SpecificModel::OvsBridge { ports } => holds_entry(m, "ports"@, opt_texts(ports)),
        SpecificModel::OvsInterface { patch_peer } => holds_entry(
            m,
            "patch-peer"@,
            opt_text(patch_peer),
        ),
        SpecificModel::WifiPhy { wifi } => holds_entry(m, "wifi"@, opt_wifi(wifi)),
        SpecificModel::WifiCfg { wifi } => holds_entry(m, "wifi"@, opt_wifi(wifi)),
        SpecificModel::Tun => true,
        SpecificModel::Unknown => true,
    }
}

/// What the structural value of an interface holds, key by key.
proof fn lemma_iface_shape(i: InterfaceModel, t: InterfaceType)
    requires
        i.specific.fits(t),
    ensures
        iface_encode(i) is Object,
        base_shape(iface_encode(i)->Object_0, i.base),
        specific_shape(iface_encode(i)->Object_0, i.specific),
        forall|k: Seq<char>| #[trigger]
            iface_encode(i)->Object_0.dom().contains(k) ==> base_key(k) || specific_key(t, k),
{
    reveal(iface_encode);
    lemma_keys_differ();
    lemma_base_shape(i.base);
}

/// Entries `jm` that say nothing that the entries `xm` of an interface of
/// the kind `t` do not say, and from which `ys` is read, are, under the key
/// `k` of the kind, the entries `ym`.
proof fn lemma_contained_specific_key(
    jm: Map<Seq<char>, Json>,
    xm: Map<Seq<char>, Json>,
    xs: SpecificModel,
    ym: Map<Seq<char>, Json>,
    ys: SpecificModel,
    t: InterfaceType,
    k: Seq<char>,
)
    requires
        jm.dom().contains(k) ==> xm.dom().contains(k) && json_contained(jm[k], xm[k]),
        specific_shape(xm, xs),
        specific_shape(ym, ys),
        xs.fits(t),
        specific_decode(jm, t) == Some(ys),
        specific_key(t, k),
    ensures
        ym.dom().contains(k) <==> jm.dom().contains(k),
        jm.dom().contains(k) ==> ym[k] == jm[k],
{
    lemma_keys_differ();
    match xs {
        SpecificModel::Ethernet { veth_peer, sr_iov_vfs } => {
            if sr_iov_vfs is Some {
                lemma_text_list_round_trip(sr_iov_vfs->0);
            }
        },
        SpecificModel::Bond { ports } => {
            if ports is Some {
                lemma_text_list_round_trip(ports->0);
            }
        },
        SpecificModel::LinuxBridge { ports } => {
            if ports is Some {
                lemma_text_list_round_trip(ports->0);
            }
        },
        SpecificModel::OvsBridge { ports } => {
            if ports is Some {
                lemma_text_list_round_trip(ports->0);
            }
        },
        SpecificModel::WifiPhy { wifi } => {
            if jm.dom().contains(k) {
                lemma_contained_wifi(jm[k], wifi->0);
            }
        },
        SpecificModel::WifiCfg { wifi } => {
            if jm.dom().contains(k) {
                lemma_contained_wifi(jm[k], wifi->0);
            }
        },
        _ => {},
    }
}

/// A value that says nothing that the value of an interface does not say,
/// that names a state, and that stands for an interface, is the value of
/// the interface that it stands for: nothing of it is lost in the reading.
pub proof fn lemma_contained_iface(j: Json, x: InterfaceModel)
    requires
        x.wf(),
        json_contained(j, iface_encode(x)),
        iface_decode(j) is Some,
        j matches Json::Object(m) && m.dom().contains("state"@),
    ensures
        iface_encode(iface_decode(j)->0) == j,
{
    let y = iface_decode(j)->0;
    let t = x.base.iface_type;
    lemma_iface_shape(x, t);
    let jm = j->Object_0;
    let xm = iface_encode(x)->Object_0;
    assert(base_decode(jm) == Some(y.base) && specific_decode(jm, y.base.iface_type) == Some(
        y.specific,
    ) && (forall|k: Seq<char>| #[trigger]
        jm.dom().contains(k) ==> base_key(k) || specific_key(y.base.iface_type, k))) by {
        reveal(iface_decode);
    }
    lemma_base_fields(jm);
    assert(base_contained(jm, xm));
    assert(y.base.iface_type == t) by {
        lemma_type_name_round_trip(t);
        lemma_keys_differ();
        assert(jm.dom().contains("type"@));
        assert(json_contained(jm["type"@], xm["type"@]));
    }
    assert(y.specific.fits(t));
    lemma_iface_shape(y, t);
    let ym = iface_encode(y)->Object_0;
    assert forall|k: Seq<char>| #[trigger] jm.dom().contains(k) implies ym.dom().contains(k)
        && ym[k] == jm[k] by {
        if base_key(k) {
            lemma_contained_base_key(jm, xm, x.base, ym, y.base, k);
        } else {
            lemma_contained_specific_key(jm, xm, x.specific, ym, y.specific, t, k);
        }
    }
    assert forall|k: Seq<char>| #[trigger] ym.dom().contains(k) implies jm.dom().contains(k) by {
        if base_key(k) {
            lemma_contained_base_key(jm, xm, x.base, ym, y.base, k);
        } else {
            lemma_contained_specific_key(jm, xm, x.specific, ym, y.specific, t, k);
        }
    }
    assert(ym =~= jm);
}

} // verus!
