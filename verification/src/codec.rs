use crate::base::{BaseInterface, BaseModel, InterfaceIp, InterfaceState, InterfaceType, IpModel};
use crate::error::{ErrorKind, NipartError};
use crate::iface::{
    BondInterface, EthernetInterface, Interface, InterfaceModel, LinuxBridgeInterface,
    OvsBridgeInterface, OvsInterface, SpecificModel, TunInterface, UnknownInterface,
    VlanInterface, WifiCfgInterface, WifiConfig, WifiModel, WifiPhyInterface,
};
use crate::json::{lists_keys, Json, JsonObject, JsonValue};
use crate::trigger::{trigger_decode, trigger_encode, InterfaceTrigger, TriggerModel};
use crate::views::{opt_vec_view, opt_view, text_is, vec_view};
use vstd::prelude::*;

verus! {

/// `m` with `v` under `k`, where there is a `v`.
pub open spec fn put_opt(m: Map<Seq<char>, Json>, k: Seq<char>, v: Option<Json>) -> Map<
    Seq<char>,
    Json,
> {
    match v {
        Some(x) => m.insert(k, x),
        None => m,
    }
}

pub open spec fn opt_text(o: Option<Seq<char>>) -> Option<Json> {
    match o {
        Some(s) => Some(Json::Text(s)),
        None => None,
    }
}

pub open spec fn opt_bool(o: Option<bool>) -> Option<Json> {
    match o {
        Some(b) => Some(Json::Bool(b)),
        None => None,
    }
}

/// The array of the texts of `l`.
pub open spec fn text_list(l: Seq<Seq<char>>) -> Json {
    Json::Array(Seq::new(l.len(), |i: int| Json::Text(l[i])))
}

pub open spec fn opt_texts(o: Option<Seq<Seq<char>>>) -> Option<Json> {
    match o {
        Some(l) => Some(text_list(l)),
        None => None,
    }
}

/// The structural value of an IP configuration: what is set, under
/// `enabled`, `dhcp` and `address`.
pub open spec fn ip_encode(ip: IpModel) -> Json {
    Json::Object(
        put_opt(
            put_opt(
                put_opt(Map::empty(), "enabled"@, opt_bool(ip.enabled)),
                "dhcp"@,
                opt_bool(ip.dhcp),
            ),
            "address"@,
            opt_texts(ip.addresses),
        ),
    )
}

pub open spec fn opt_ip(o: Option<IpModel>) -> Option<Json> {
    match o {
        Some(ip) => Some(ip_encode(ip)),
        None => None,
    }
}

/// The structural value of wireless settings: what is set, under `ssid` and
/// `base-iface`.
pub open spec fn wifi_encode(w: WifiModel) -> Json {
    Json::Object(
        put_opt(
            put_opt(Map::empty(), "ssid"@, opt_text(w.ssid)),
            "base-iface"@,
            opt_text(w.base_iface),
        ),
    )
}

pub open spec fn opt_wifi(o: Option<WifiModel>) -> Option<Json> {
    match o {
        Some(w) => Some(wifi_encode(w)),
        None => None,
    }
}

pub open spec fn opt_trigger(o: Option<TriggerModel>) -> Option<Json> {
    match o {
        Some(t) => Some(trigger_encode(t)),
        None => None,
    }
}

pub open spec fn opt_type(o: Option<InterfaceType>) -> Option<Json> {
    match o {
        Some(t) => Some(Json::Text(t.name())),
        None => None,
    }
}

/// The priority, where it is not the default.
pub open spec fn opt_priority(p: u32) -> Option<Json> {
    if p == u32::MAX {
        None
    } else {
        Some(Json::Number(p as int))
    }
}

/// The entries of the structural value of a base record: name, kind and
/// state always, the rest where it is set.
pub open spec fn base_entries(b: BaseModel) -> Map<Seq<char>, Json> {
    let m0 = Map::<Seq<char>, Json>::empty().insert("name"@, Json::Text(b.name)).insert(
        "type"@,
        Json::Text(b.iface_type.name()),
    ).insert("state"@, Json::Text(b.state.name()));
    let m1 = put_opt(m0, "controller"@, opt_text(b.controller));
    let m2 = put_opt(m1, "controller-type"@, opt_type(b.controller_type));
    let m3 = put_opt(m2, "mac-address"@, opt_text(b.mac_address));
    let m4 = put_opt(m3, "ipv4"@, opt_ip(b.ipv4));
    let m5 = put_opt(m4, "ipv6"@, opt_ip(b.ipv6));
    let m6 = put_opt(m5, "up-trigger"@, opt_trigger(b.up_trigger));
    let m7 = put_opt(m6, "down-trigger"@, opt_trigger(b.down_trigger));
    put_opt(m7, "up-priority"@, opt_priority(b.up_priority))
}

pub open spec fn opt_number(o: Option<u16>) -> Option<Json> {
    match o {
        Some(n) => Some(Json::Number(n as int)),
        None => None,
    }
}

/// `m` with the entries of what is specific to the kind.
pub open spec fn specific_entries(m: Map<Seq<char>, Json>, s: SpecificModel) -> Map<
    Seq<char>,
    Json,
> {
    match s {
        SpecificModel::Ethernet { veth_peer, sr_iov_vfs } => put_opt(
            put_opt(m, "veth-peer"@, opt_text(veth_peer)),
            "sr-iov-vfs"@,
            opt_texts(sr_iov_vfs),
        ),
        SpecificModel::Vlan { vlan_base_iface, vlan_id } => put_opt(
            put_opt(m, "vlan-base-iface"@, opt_text(vlan_base_iface)),
            "vlan-id"@,
            opt_number(vlan_id),
        ),
        SpecificModel::Bond { ports } => put_opt(m, "ports"@, opt_texts(ports)),
        SpecificModel::LinuxBridge { ports } => put_opt(m, "ports"@, opt_texts(ports)),
        SpecificModel::OvsBridge { ports } => put_opt(m, "ports"@, opt_texts(ports)),
        SpecificModel::OvsInterface { patch_peer } => put_opt(
            m,
            "patch-peer"@,
            opt_text(patch_peer),
        ),
        SpecificModel::Tun => m,
        SpecificModel::WifiPhy { wifi } => put_opt(m, "wifi"@, opt_wifi(wifi)),
        SpecificModel::WifiCfg { wifi } => put_opt(m, "wifi"@, opt_wifi(wifi)),
        SpecificModel::Unknown => m,
    }
}

/// The structural value of an interface: one object with the entries of the
/// base record and of what is specific to the kind. What a record was
/// worked out against is no part of it.
#[verifier::opaque]
pub open spec fn iface_encode(i: InterfaceModel) -> Json {
    Json::Object(specific_entries(base_entries(i.base), i.specific))
}

/// Whether `m` holds something under `k`: a key under which `Null` stands
/// counts as missing.
pub open spec fn present(m: Map<Seq<char>, Json>, k: Seq<char>) -> bool {
    m.dom().contains(k) && m[k] != Json::Null
}

/// The text under `k`: none where nothing is there, an error where
/// something else is.
pub open spec fn field_text(m: Map<Seq<char>, Json>, k: Seq<char>) -> Result<
    Option<Seq<char>>,
    (),
> {
    if !present(m, k) {
        Ok(None)
    } else {
        match m[k] {
            Json::Text(s) => Ok(Some(s)),
            _ => Err(()),
        }
    }
}

pub open spec fn field_bool(m: Map<Seq<char>, Json>, k: Seq<char>) -> Result<Option<bool>, ()> {
    if !present(m, k) {
        Ok(None)
    } else {
        match m[k] {
            Json::Bool(b) => Ok(Some(b)),
            _ => Err(()),
        }
    }
}

/// The number under `k`, which has to be from 0 to `max`.
pub open spec fn field_number(m: Map<Seq<char>, Json>, k: Seq<char>, max: int) -> Result<
    Option<int>,
    (),
> {
    if !present(m, k) {
        Ok(None)
    } else {
        match m[k] {
            Json::Number(n) => if 0 <= n <= max {
                Ok(Some(n))
            } else {
                Err(())
            },
            _ => Err(()),
        }
    }
}

pub open spec fn all_text(a: Seq<Json>) -> bool {
    forall|i: int| 0 <= i < a.len() ==> #[trigger] a[i] is Text
}

pub open spec fn texts_of(a: Seq<Json>) -> Seq<Seq<char>> {
    Seq::new(a.len(), |i: int| a[i]->Text_0)
}

/// The list of texts under `k`.
pub open spec fn field_texts(m: Map<Seq<char>, Json>, k: Seq<char>) -> Result<
    Option<Seq<Seq<char>>>,
    (),
> {
    if !present(m, k) {
        Ok(None)
    } else {
        match m[k] {
            Json::Array(a) => if all_text(a) {
                Ok(Some(texts_of(a)))
            } else {
                Err(())
            },
            _ => Err(()),
        }
    }
}

pub open spec fn ip_key(k: Seq<char>) -> bool {
    k == "enabled"@ || k == "dhcp"@ || k == "address"@
}

/// The IP configuration that a structural value stands for: an object with
/// no other keys than `enabled`, `dhcp` and `address`, each of its type.
pub open spec fn ip_decode(j: Json) -> Option<IpModel> {
    match j {
        Json::Object(m) => {
            if (forall|k: Seq<char>| #[trigger] m.dom().contains(k) ==> ip_key(k)) && field_bool(
                m,
                "enabled"@,
            ) is Ok && field_bool(m, "dhcp"@) is Ok && field_texts(m, "address"@) is Ok {
                Some(
                    IpModel {
                        enabled: field_bool(m, "enabled"@)->Ok_0,
                        dhcp: field_bool(m, "dhcp"@)->Ok_0,
                        addresses: field_texts(m, "address"@)->Ok_0,
                    },
                )
            } else {
                None
            }
        },
        _ => None,
    }
}

pub open spec fn field_ip(m: Map<Seq<char>, Json>, k: Seq<char>) -> Result<Option<IpModel>, ()> {
    if !present(m, k) {
        Ok(None)
    } else {
        match ip_decode(m[k]) {
            Some(ip) => Ok(Some(ip)),
            None => Err(()),
        }
    }
}

pub open spec fn wifi_key(k: Seq<char>) -> bool {
    k == "ssid"@ || k == "base-iface"@
}

/// The wireless settings that a structural value stands for.
pub open spec fn wifi_decode(j: Json) -> Option<WifiModel> {
    match j {
        Json::Object(m) => {
            if (forall|k: Seq<char>| #[trigger] m.dom().contains(k) ==> wifi_key(k)) && field_text(
                m,
                "ssid"@,
            ) is Ok && field_text(m, "base-iface"@) is Ok {
                Some(
                    WifiModel {
                        ssid: field_text(m, "ssid"@)->Ok_0,
                        base_iface: field_text(m, "base-iface"@)->Ok_0,
                    },
                )
            } else {
                None
            }
        },
        _ => None,
    }
}

pub open spec fn field_wifi(m: Map<Seq<char>, Json>, k: Seq<char>) -> Result<
    Option<WifiModel>,
    (),
> {
    if !present(m, k) {
        Ok(None)
    } else {
        match wifi_decode(m[k]) {
            Some(w) => Ok(Some(w)),
            None => Err(()),
        }
    }
}

pub open spec fn field_trigger(m: Map<Seq<char>, Json>, k: Seq<char>) -> Result<
    Option<TriggerModel>,
    (),
> {
    if !present(m, k) {
        Ok(None)
    } else {
        match trigger_decode(m[k]) {
            Ok(t) => Ok(Some(t)),
            Err(_) => Err(()),
        }
    }
}

/// The kind whose name stands under `k`.
pub open spec fn field_type(m: Map<Seq<char>, Json>, k: Seq<char>) -> Result<
    Option<InterfaceType>,
    (),
> {
    match field_text(m, k) {
        Ok(Some(s)) => match InterfaceType::of_name(s) {
            Some(t) => Ok(Some(t)),
            None => Err(()),
        },
        Ok(None) => Ok(None),
        Err(_) => Err(()),
    }
}

/// The state whose name stands under `k`.
pub open spec fn field_state(m: Map<Seq<char>, Json>, k: Seq<char>) -> Result<
    Option<InterfaceState>,
    (),
> {
    match field_text(m, k) {
        Ok(Some(s)) => match InterfaceState::of_name(s) {
            Some(t) => Ok(Some(t)),
            None => Err(()),
        },
        Ok(None) => Ok(None),
        Err(_) => Err(()),
    }
}

pub open spec fn base_key(k: Seq<char>) -> bool {
    k == "name"@ || k == "type"@ || k == "state"@ || k == "controller"@ || k
        == "controller-type"@ || k == "mac-address"@ || k == "ipv4"@ || k == "ipv6"@ || k
        == "up-trigger"@ || k == "down-trigger"@ || k == "up-priority"@
}

/// Whether `k` is a key of what is specific to the kind `t`.
pub open spec fn specific_key(t: InterfaceType, k: Seq<char>) -> bool {
    match t {
        InterfaceType::Ethernet | InterfaceType::Veth => k == "veth-peer"@ || k == "sr-iov-vfs"@,
        InterfaceType::Vlan => k == "vlan-base-iface"@ || k == "vlan-id"@,
        InterfaceType::Bond | InterfaceType::LinuxBridge | InterfaceType::OvsBridge => k
            == "ports"@,
        InterfaceType::OvsInterface => k == "patch-peer"@,
        InterfaceType::WifiPhy | InterfaceType::WifiCfg => k == "wifi"@,
        InterfaceType::Tun | InterfaceType::Unknown => false,
    }
}

/// The base record that the entries `m` stand for. Name and kind have to be
/// there; the state is up where none is given; the priority is the last
/// where none is given.
pub open spec fn base_decode(m: Map<Seq<char>, Json>) -> Option<BaseModel> {
    if field_text(m, "name"@) matches Ok(Some(_)) && field_type(m, "type"@) matches Ok(Some(_))
        && field_state(m, "state"@) is Ok && field_text(m, "controller"@) is Ok && field_type(
        m,
        "controller-type"@,
    ) is Ok && field_text(m, "mac-address"@) is Ok && field_ip(m, "ipv4"@) is Ok && field_ip(
        m,
        "ipv6"@,
    ) is Ok && field_trigger(m, "up-trigger"@) is Ok && field_trigger(m, "down-trigger"@) is Ok
        && field_number(m, "up-priority"@, u32::MAX as int) is Ok {
        Some(
            BaseModel {
                name: field_text(m, "name"@)->Ok_0->Some_0,
                iface_type: field_type(m, "type"@)->Ok_0->Some_0,
                state: match field_state(m, "state"@)->Ok_0 {
                    Some(s) => s,
                    None => InterfaceState::Up,
                },
                controller: field_text(m, "controller"@)->Ok_0,
                controller_type: field_type(m, "controller-type"@)->Ok_0,
                mac_address: field_text(m, "mac-address"@)->Ok_0,
                ipv4: field_ip(m, "ipv4"@)->Ok_0,
                ipv6: field_ip(m, "ipv6"@)->Ok_0,
                up_trigger: field_trigger(m, "up-trigger"@)->Ok_0,
                down_trigger: field_trigger(m, "down-trigger"@)->Ok_0,
                up_priority: match field_number(m, "up-priority"@, u32::MAX as int)->Ok_0 {
                    Some(n) => n as u32,
                    None => u32::MAX,
                },
                context: None,
            },
        )
    } else {
        None
    }
}

pub open spec fn opt_u16(o: Option<int>) -> Option<u16> {
    match o {
        Some(n) => Some(n as u16),
        None => None,
    }
}

/// What is specific to the kind `t`, as the entries `m` give it.
pub open spec fn specific_decode(m: Map<Seq<char>, Json>, t: InterfaceType) -> Option<
    SpecificModel,
> {
    match t {
        InterfaceType::Ethernet | InterfaceType::Veth => {
            if field_text(m, "veth-peer"@) is Ok && field_texts(m, "sr-iov-vfs"@) is Ok {
                Some(
                    SpecificModel::Ethernet {
                        veth_peer: field_text(m, "veth-peer"@)->Ok_0,
                        sr_iov_vfs: field_texts(m, "sr-iov-vfs"@)->Ok_0,
                    },
                )
            } else {
                None
            }
        },
        InterfaceType::Vlan => {
            if field_text(m, "vlan-base-iface"@) is Ok && field_number(
                m,
                "vlan-id"@,
                u16::MAX as int,
            ) is Ok {
                Some(
                    SpecificModel::Vlan {
                        vlan_base_iface: field_text(m, "vlan-base-iface"@)->Ok_0,
                        vlan_id: opt_u16(field_number(m, "vlan-id"@, u16::MAX as int)->Ok_0),
                    },
                )
            } else {
                None
            }
        },
        InterfaceType::Bond => match field_texts(m, "ports"@) {
            Ok(ports) => Some(SpecificModel::Bond { ports }),
            Err(_) => None,
        },
        InterfaceType::LinuxBridge => match field_texts(m, "ports"@) {
            Ok(ports) => Some(SpecificModel::LinuxBridge { ports }),
            Err(_) => None,
        },
        InterfaceType::OvsBridge => match field_texts(m, "ports"@) {
            Ok(ports) => Some(SpecificModel::OvsBridge { ports }),
            Err(_) => None,
        },
        InterfaceType::OvsInterface => match field_text(m, "patch-peer"@) {
            Ok(patch_peer) => Some(SpecificModel::OvsInterface { patch_peer }),
            Err(_) => None,
        },
        InterfaceType::Tun => Some(SpecificModel::Tun),
        InterfaceType::WifiPhy => match field_wifi(m, "wifi"@) {
            Ok(wifi) => Some(SpecificModel::WifiPhy { wifi }),
            Err(_) => None,
        },
        InterfaceType::WifiCfg => match field_wifi(m, "wifi"@) {
            Ok(wifi) => Some(SpecificModel::WifiCfg { wifi }),
            Err(_) => None,
        },
        InterfaceType::Unknown => Some(SpecificModel::Unknown),
    }
}

/// The interface that a structural value stands for, if it stands for one:
/// an object whose keys are those of the base record and of the kind that
/// it names, each with a value of its type.
#[verifier::opaque]
pub open spec fn iface_decode(j: Json) -> Option<InterfaceModel> {
    match j {
        Json::Object(m) => match base_decode(m) {
            Some(base) => match specific_decode(m, base.iface_type) {
                Some(specific) => if forall|k: Seq<char>| #[trigger]
                    m.dom().contains(k) ==> base_key(k) || specific_key(base.iface_type, k) {
                    Some(InterfaceModel { base, specific })
                } else {
                    None
                },
                None => None,
            },
            None => None,
        },
        _ => None,
    }
}


/// The model of what was read from a field.
pub open spec fn field_view<T: View>(r: Result<Option<T>, ()>) -> Result<Option<T::V>, ()> {
    match r {
        Ok(Some(x)) => Ok(Some(x@)),
        Ok(None) => Ok(None),
        Err(_) => Err(()),
    }
}

/// The models of the list of texts that was read from a field.
pub open spec fn field_vec_view(r: Result<Option<Vec<String>>, ()>) -> Result<
    Option<Seq<Seq<char>>>,
    (),
> {
    match r {
        Ok(Some(x)) => Ok(Some(vec_view(x))),
        Ok(None) => Ok(None),
        Err(_) => Err(()),
    }
}

/// The value under `key`, where something other than `Null` is there.
fn get_present<'a>(o: &'a JsonObject, key: &str) -> (r: Option<&'a JsonValue>)
    ensures
        match r {
            Some(v) => present(o@, key@) && v@ == o@[key@],
            None => !present(o@, key@),
        },
{
    match o.get(key) {
        Some(v) => if v.is_null() {
            None
        } else {
            Some(v)
        },
        None => None,
    }
}

fn get_text(o: &JsonObject, key: &str) -> (r: Result<Option<String>, ()>)
    ensures
        field_view(r) == field_text(o@, key@),
{
    match get_present(o, key) {
        None => Ok(None),
        Some(JsonValue::Text(s)) => Ok(Some(s.clone())),
        Some(_) => Err(()),
    }
}

fn get_bool(o: &JsonObject, key: &str) -> (r: Result<Option<bool>, ()>)
    ensures
        r == field_bool(o@, key@),
{
    match get_present(o, key) {
        None => Ok(None),
        Some(JsonValue::Bool(b)) => Ok(Some(*b)),
        Some(_) => Err(()),
    }
}

fn get_number(o: &JsonObject, key: &str, max: i64) -> (r: Result<Option<i64>, ()>)
    ensures
        match r {
            Ok(Some(n)) => field_number(o@, key@, max as int) == Ok::<Option<int>, ()>(
                Some(n as int),
            ),
            Ok(None) => field_number(o@, key@, max as int) == Ok::<Option<int>, ()>(None),
            Err(_) => field_number(o@, key@, max as int) is Err,
        },
{
    match get_present(o, key) {
        None => Ok(None),
        Some(JsonValue::Number(n)) => if 0 <= *n && *n <= max {
            Ok(Some(*n))
        } else {
            Err(())
        },
        Some(_) => Err(()),
    }
}

/// The texts of an array, where it holds nothing else.
fn texts_from(a: &Vec<JsonValue>) -> (r: Option<Vec<String>>)
    ensures
        match r {
            Some(l) => all_text(vec_view(*a)) && vec_view(l) == texts_of(vec_view(*a)),
            None => !all_text(vec_view(*a)),
        },
{
    let mut l: Vec<String> = Vec::new();
    let mut i: usize = 0;
    while i < a.len()
        invariant
            i <= a.len(),
            l.len() == i,
            forall|j: int| 0 <= j < i ==> #[trigger] a[j]@ is Text && l[j]@ == a[j]@->Text_0,
        decreases a.len() - i,
    {
        match &a[i] {
            JsonValue::Text(s) => {
                l.push(s.clone());
            },
            _ => {
                assert(!(vec_view(*a)[i as int] is Text));
                return None;
            },
        }
        i += 1;
    }
    assert(all_text(vec_view(*a))) by {
        assert forall|j: int| 0 <= j < vec_view(*a).len() implies #[trigger] vec_view(*a)[j]
            is Text by {
            assert(a[j]@ is Text);
        }
    }
    assert(vec_view(l) =~= texts_of(vec_view(*a)));
    Some(l)
}

fn get_texts(o: &JsonObject, key: &str) -> (r: Result<Option<Vec<String>>, ()>)
    ensures
        field_vec_view(r) == field_texts(o@, key@),
{
    match get_present(o, key) {
        None => Ok(None),
        Some(JsonValue::Array(a)) => {
            assert(o@[key@]->Array_0 =~= vec_view(*a));
            match texts_from(a) {
                Some(l) => Ok(Some(l)),
                None => Err(()),
            }
        },
        Some(_) => Err(()),
    }
}

/// A set of keys that a record may have.
#[derive(Clone, Copy)]
enum KeySet {
    Ip,
    Wifi,
    Interface(InterfaceType),
}

spec fn in_key_set(ks: KeySet, k: Seq<char>) -> bool {
    match ks {
        KeySet::Ip => ip_key(k),
        KeySet::Wifi => wifi_key(k),
        KeySet::Interface(t) => base_key(k) || specific_key(t, k),
    }
}

fn key_in_set(ks: KeySet, k: &String) -> (r: bool)
    ensures
        r == in_key_set(ks, k@),
{
    match ks {
        KeySet::Ip => text_is(k, "enabled") || text_is(k, "dhcp") || text_is(k, "address"),
        KeySet::Wifi => text_is(k, "ssid") || text_is(k, "base-iface"),
        KeySet::Interface(t) => {
            let base = text_is(k, "name") || text_is(k, "type") || text_is(k, "state") || text_is(
                k,
                "controller",
            ) || text_is(k, "controller-type") || text_is(k, "mac-address") || text_is(k, "ipv4")
                || text_is(k, "ipv6") || text_is(k, "up-trigger") || text_is(k, "down-trigger")
                || text_is(k, "up-priority");
            let specific = match t {
                InterfaceType::Ethernet | InterfaceType::Veth => text_is(k, "veth-peer")
                    || text_is(k, "sr-iov-vfs"),
                InterfaceType::Vlan => text_is(k, "vlan-base-iface") || text_is(k, "vlan-id"),
                InterfaceType::Bond | InterfaceType::LinuxBridge | InterfaceType::OvsBridge => text_is(
                    k,
                    "ports",
                ),
                InterfaceType::OvsInterface => text_is(k, "patch-peer"),
                InterfaceType::WifiPhy | InterfaceType::WifiCfg => text_is(k, "wifi"),
                InterfaceType::Tun | InterfaceType::Unknown => false,
            };
            base || specific
        },
    }
}

/// Whether the object has no key outside the set.
fn only_keys_of(o: &JsonObject, ks: KeySet) -> (r: bool)
    ensures
        r == (forall|k: Seq<char>| #[trigger] o@.dom().contains(k) ==> in_key_set(ks, k)),
{
    let keys = o.keys();
    let mut i: usize = 0;
    while i < keys.len()
        invariant
            i <= keys.len(),
            lists_keys(vec_view(keys), o@),
            forall|j: int| 0 <= j < i ==> in_key_set(ks, #[trigger] keys[j]@),
        decreases keys.len() - i,
    {
        if !key_in_set(ks, &keys[i]) {
            assert(vec_view(keys)[i as int] == keys[i as int]@);
            assert(vec_view(keys).contains(keys[i as int]@));
            assert(o@.dom().contains(keys[i as int]@));
            return false;
        }
        i += 1;
    }
    assert forall|k: Seq<char>| #[trigger] o@.dom().contains(k) implies in_key_set(ks, k) by {
        assert(vec_view(keys).contains(k));
        let j = choose|j: int| 0 <= j < vec_view(keys).len() && vec_view(keys)[j] == k;
        assert(keys[j]@ == k);
    }
    true
}

fn ip_from(v: &JsonValue) -> (r: Option<InterfaceIp>)
    ensures
        opt_view(r) == ip_decode(v@),
{
    match v {
        JsonValue::Object(o) => {
            if !only_keys_of(o, KeySet::Ip) {
                return None;
            }
            let enabled = match get_bool(o, "enabled") {
                Ok(x) => x,
                Err(_) => {
                    return None;
                },
            };
            let dhcp = match get_bool(o, "dhcp") {
                Ok(x) => x,
                Err(_) => {
                    return None;
                },
            };
            let addresses = match get_texts(o, "address") {
                Ok(x) => x,
                Err(_) => {
                    return None;
                },
            };
            Some(InterfaceIp { enabled, dhcp, addresses })
        },
        _ => None,
    }
}

fn get_ip(o: &JsonObject, key: &str) -> (r: Result<Option<InterfaceIp>, ()>)
    ensures
        field_view(r) == field_ip(o@, key@),
{
    match get_present(o, key) {
        None => Ok(None),
        Some(v) => match ip_from(v) {
            Some(ip) => Ok(Some(ip)),
            None => Err(()),
        },
    }
}

fn wifi_from(v: &JsonValue) -> (r: Option<WifiConfig>)
    ensures
        opt_view(r) == wifi_decode(v@),
{
    match v {
        JsonValue::Object(o) => {
            if !only_keys_of(o, KeySet::Wifi) {
                return None;
            }
            let ssid = match get_text(o, "ssid") {
                Ok(x) => x,
                Err(_) => {
                    return None;
                },
            };
            let base_iface = match get_text(o, "base-iface") {
                Ok(x) => x,
                Err(_) => {
                    return None;
                },
            };
            Some(WifiConfig { ssid, base_iface })
        },
        _ => None,
    }
}

fn get_wifi(o: &JsonObject, key: &str) -> (r: Result<Option<WifiConfig>, ()>)
    ensures
        field_view(r) == field_wifi(o@, key@),
{
    match get_present(o, key) {
        None => Ok(None),
        Some(v) => match wifi_from(v) {
            Some(w) => Ok(Some(w)),
            None => Err(()),
        },
    }
}

fn get_trigger(o: &JsonObject, key: &str) -> (r: Result<Option<InterfaceTrigger>, ()>)
    ensures
        field_view(r) == field_trigger(o@, key@),
{
    match get_present(o, key) {
        None => Ok(None),
        Some(v) => match InterfaceTrigger::from_value(v) {
            Ok(t) => Ok(Some(t)),
            Err(_) => Err(()),
        },
    }
}

fn get_type(o: &JsonObject, key: &str) -> (r: Result<Option<InterfaceType>, ()>)
    ensures
        r == field_type(o@, key@),
{
    match get_text(o, key) {
        Ok(Some(s)) => match InterfaceType::from_name(&s) {
            Some(t) => Ok(Some(t)),
            None => Err(()),
        },
        Ok(None) => Ok(None),
        Err(_) => Err(()),
    }
}

fn get_state(o: &JsonObject, key: &str) -> (r: Result<Option<InterfaceState>, ()>)
    ensures
        r == field_state(o@, key@),
{
    match get_text(o, key) {
        Ok(Some(s)) => match InterfaceState::from_name(&s) {
            Some(t) => Ok(Some(t)),
            None => Err(()),
        },
        Ok(None) => Ok(None),
        Err(_) => Err(()),
    }
}

fn base_from(o: &JsonObject) -> (r: Option<BaseInterface>)
    ensures
        opt_view(r) == base_decode(o@),
{
    let name = match get_text(o, "name") {
        Ok(Some(x)) => x,
        _ => {
            return None;
        },
    };
    let iface_type = match get_type(o, "type") {
        Ok(Some(x)) => x,
        _ => {
            return None;
        },
    };
    let state = match get_state(o, "state") {
        Ok(Some(x)) => x,
        Ok(None) => InterfaceState::Up,
        Err(_) => {
            return None;
        },
    };
    let controller = match get_text(o, "controller") {
        Ok(x) => x,
        Err(_) => {
            return None;
        },
    };
    let controller_type = match get_type(o, "controller-type") {
        Ok(x) => x,
        Err(_) => {
            return None;
        },
    };
    let mac_address = match get_text(o, "mac-address") {
        Ok(x) => x,
        Err(_) => {
            return None;
        },
    };
    let ipv4 = match get_ip(o, "ipv4") {
        Ok(x) => x,
        Err(_) => {
            return None;
        },
    };
    let ipv6 = match get_ip(o, "ipv6") {
        Ok(x) => x,
        Err(_) => {
            return None;
        },
    };
    let up_trigger = match get_trigger(o, "up-trigger") {
        Ok(x) => x,
        Err(_) => {
            return None;
        },
    };
    let down_trigger = match get_trigger(o, "down-trigger") {
        Ok(x) => x,
        Err(_) => {
            return None;
        },
    };
    let up_priority: u32 = match get_number(o, "up-priority", 0xffff_ffff) {
        Ok(Some(n)) => n as u32,
        Ok(None) => u32::MAX,
        Err(_) => {
            return None;
        },
    };
    Some(
        BaseInterface {
            name,
            iface_type,
            state,
            controller,
            controller_type,
            mac_address,
            ipv4,
            ipv6,
            up_trigger,
            down_trigger,
            up_priority,
            context: None,
        },
    )
}

/// The interface with the base record `base` and what the entries give for
/// its kind.
fn specific_from(o: &JsonObject, base: BaseInterface) -> (r: Option<Interface>)
    ensures
        match r {
            Some(i) => i@.base == base@ && specific_decode(o@, base@.iface_type) == Some(
                i@.specific,
            ),
            None => specific_decode(o@, base@.iface_type) is None,
        },
{
    match base.iface_type {
        InterfaceType::Ethernet | InterfaceType::Veth => {
            let veth_peer = match get_text(o, "veth-peer") {
                Ok(x) => x,
                Err(_) => {
                    return None;
                },
            };
            let sr_iov_vfs = match get_texts(o, "sr-iov-vfs") {
                Ok(x) => x,
                Err(_) => {
                    return None;
                },
            };
            Some(Interface::Ethernet(EthernetInterface { base, veth_peer, sr_iov_vfs }))
        },
        InterfaceType::Vlan => {
            let vlan_base_iface = match get_text(o, "vlan-base-iface") {
                Ok(x) => x,
                Err(_) => {
                    return None;
                },
            };
            let vlan_id: Option<u16> = match get_number(o, "vlan-id", 0xffff) {
                Ok(Some(n)) => Some(n as u16),
                Ok(None) => None,
                Err(_) => {
                    return None;
                },
            };
            Some(Interface::Vlan(VlanInterface { base, vlan_base_iface, vlan_id }))
        },
        InterfaceType::Bond => match get_texts(o, "ports") {
            Ok(ports) => Some(Interface::Bond(BondInterface { base, ports })),
            Err(_) => None,
        },
        InterfaceType::LinuxBridge => match get_texts(o, "ports") {
            Ok(ports) => Some(Interface::LinuxBridge(LinuxBridgeInterface { base, ports })),
            Err(_) => None,
        },
        InterfaceType::OvsBridge => match get_texts(o, "ports") {
            Ok(ports) => Some(Interface::OvsBridge(OvsBridgeInterface { base, ports })),
            Err(_) => None,
        },
        InterfaceType::OvsInterface => match get_text(o, "patch-peer") {
            Ok(patch_peer) => Some(Interface::OvsInterface(OvsInterface { base, patch_peer })),
            Err(_) => None,
        },
        InterfaceType::Tun => Some(Interface::Tun(TunInterface { base })),
        InterfaceType::WifiPhy => match get_wifi(o, "wifi") {
            Ok(wifi) => Some(Interface::WifiPhy(WifiPhyInterface { base, wifi })),
            Err(_) => None,
        },
        InterfaceType::WifiCfg => match get_wifi(o, "wifi") {
            Ok(wifi) => Some(Interface::WifiCfg(WifiCfgInterface { base, wifi })),
            Err(_) => None,
        },
        InterfaceType::Unknown => Some(Interface::Unknown(UnknownInterface { base })),
    }
}

/// What every description of a value that is no interface says.
pub open spec fn not_an_interface() -> Seq<char> {
    "The value does not hold a well-formed interface"@
}

fn put(o: &mut JsonObject, key: &str, v: Option<JsonValue>)
    ensures
        final(o)@ == put_opt(old(o)@, key@, crate::value::option_model(v)),
{
    match v {
        Some(x) => {
            o.insert(key.to_owned(), x);
        },
        None => {},
    }
}

fn text_value(s: &Option<String>) -> (r: Option<JsonValue>)
    ensures
        crate::value::option_model(r) == opt_text(opt_view(*s)),
{
    match s {
        Some(x) => Some(JsonValue::Text(x.clone())),
        None => None,
    }
}

fn bool_value(b: Option<bool>) -> (r: Option<JsonValue>)
    ensures
        crate::value::option_model(r) == opt_bool(b),
{
    match b {
        Some(x) => Some(JsonValue::Bool(x)),
        None => None,
    }
}

fn texts_value(l: &Option<Vec<String>>) -> (r: Option<JsonValue>)
    ensures
        crate::value::option_model(r) == opt_texts(opt_vec_view(*l)),
{
    match l {
        Some(v) => {
            let mut a: Vec<JsonValue> = Vec::new();
            let mut i: usize = 0;
            while i < v.len()
                invariant
                    i <= v.len(),
                    a.len() == i,
                    forall|j: int| 0 <= j < i ==> (#[trigger] a[j])@ == Json::Text(v[j]@),
                decreases v.len() - i,
            {
                a.push(JsonValue::Text(v[i].clone()));
                i += 1;
            }
            let r = JsonValue::Array(a);
            assert(r@->Array_0 =~= text_list(vec_view(*v))->Array_0);
            Some(r)
        },
        None => None,
    }
}

fn type_value(t: Option<InterfaceType>) -> (r: Option<JsonValue>)
    ensures
        crate::value::option_model(r) == opt_type(t),
{
    match t {
        Some(x) => Some(JsonValue::Text(x.as_str().to_owned())),
        None => None,
    }
}

fn ip_value(ip: &Option<InterfaceIp>) -> (r: Option<JsonValue>)
    ensures
        crate::value::option_model(r) == opt_ip(opt_view(*ip)),
{
    match ip {
        Some(x) => {
            let mut o = JsonObject::new();
            put(&mut o, "enabled", bool_value(x.enabled));
            put(&mut o, "dhcp", bool_value(x.dhcp));
            put(&mut o, "address", texts_value(&x.addresses));
            Some(JsonValue::Object(o))
        },
        None => None,
    }
}

fn wifi_value(w: &Option<WifiConfig>) -> (r: Option<JsonValue>)
    ensures
        crate::value::option_model(r) == opt_wifi(opt_view(*w)),
{
    match w {
        Some(x) => {
            let mut o = JsonObject::new();
            put(&mut o, "ssid", text_value(&x.ssid));
            put(&mut o, "base-iface", text_value(&x.base_iface));
            Some(JsonValue::Object(o))
        },
        None => None,
    }
}

fn trigger_value(t: &Option<InterfaceTrigger>) -> (r: Option<JsonValue>)
    ensures
        crate::value::option_model(r) == opt_trigger(opt_view(*t)),
{
    match t {
        Some(x) => Some(x.to_value()),
        None => None,
    }
}

fn base_object(b: &BaseInterface) -> (r: JsonObject)
    ensures
        r@ == base_entries(b@),
{
    let mut o = JsonObject::new();
    o.insert("name".to_owned(), JsonValue::Text(b.name.clone()));
    o.insert("type".to_owned(), JsonValue::Text(b.iface_type.as_str().to_owned()));
    o.insert("state".to_owned(), JsonValue::Text(b.state.as_str().to_owned()));
    put(&mut o, "controller", text_value(&b.controller));
    put(&mut o, "controller-type", type_value(b.controller_type));
    put(&mut o, "mac-address", text_value(&b.mac_address));
    put(&mut o, "ipv4", ip_value(&b.ipv4));
    put(&mut o, "ipv6", ip_value(&b.ipv6));
    put(&mut o, "up-trigger", trigger_value(&b.up_trigger));
    put(&mut o, "down-trigger", trigger_value(&b.down_trigger));
    if b.up_priority != u32::MAX {
        o.insert("up-priority".to_owned(), JsonValue::Number(b.up_priority as i64));
    }
    o
}

impl Interface {
    /// The structural value of the interface.
    pub fn to_value(&self) -> (r: JsonValue)
        ensures
            r@ == iface_encode(self@),
    {
        proof {
            reveal(iface_encode);
        }
        let mut o = base_object(self.base_iface());
        match self {
            Interface::Ethernet(i) => {
                put(&mut o, "veth-peer", text_value(&i.veth_peer));
                put(&mut o, "sr-iov-vfs", texts_value(&i.sr_iov_vfs));
            },
            Interface::Vlan(i) => {
                put(&mut o, "vlan-base-iface", text_value(&i.vlan_base_iface));
                match i.vlan_id {
                    Some(n) => {
                        o.insert("vlan-id".to_owned(), JsonValue::Number(n as i64));
                    },
                    None => {},
                }
            },
            Interface::Bond(i) => {
                put(&mut o, "ports", texts_value(&i.ports));
            },
            Interface::LinuxBridge(i) => {
                put(&mut o, "ports", texts_value(&i.ports));
            },
            Interface::OvsBridge(i) => {
                put(&mut o, "ports", texts_value(&i.ports));
            },
            Interface::OvsInterface(i) => {
                put(&mut o, "patch-peer", text_value(&i.patch_peer));
            },
            Interface::Tun(_) => {},
            Interface::WifiPhy(i) => {
                put(&mut o, "wifi", wifi_value(&i.wifi));
            },
            Interface::WifiCfg(i) => {
                put(&mut o, "wifi", wifi_value(&i.wifi));
            },
            Interface::Unknown(_) => {},
        }
        JsonValue::Object(o)
    }

    /// The interface that a structural value stands for. Fails with
    /// `StructuralError` where it stands for none.
    pub fn from_value(v: &JsonValue) -> (r: Result<Interface, NipartError>)
        ensures
            match r {
                Ok(i) => iface_decode(v@) == Some(i@),
                Err(e) => iface_decode(v@) is None && e.kind == ErrorKind::StructuralError
                    && e.msg@ == not_an_interface(),
            },
    {
        proof {
            reveal(iface_decode);
        }
        let decoded = match v {
            JsonValue::Object(o) => match base_from(o) {
                Some(base) => {
                    let t = base.iface_type;
                    match specific_from(o, base) {
                        Some(i) => if only_keys_of(o, KeySet::Interface(t)) {
                            Some(i)
                        } else {
                            None
                        },
                        None => None,
                    }
                },
                None => None,
            },
            _ => None,
        };
        match decoded {
            Some(i) => Ok(i),
            None => Err(
                NipartError::new(
                    ErrorKind::StructuralError,
                    "The value does not hold a well-formed interface".to_owned(),
                ),
            ),
        }
    }
}

} // verus!
