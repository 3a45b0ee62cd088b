use crate::error::{ErrorKind, NipartError};
use crate::json::{Json, JsonObject, JsonValue};
use crate::text_order::sorted_texts;
use crate::views::{concat, join_texts, joined, text_is};
use vstd::prelude::*;
use vstd::std_specs::cmp::PartialEqSpecImpl;

verus! {

/// Parameters of a carrier trigger.
#[derive(Debug)]
#[non_exhaustive]
pub struct InterfaceTriggerCarrier {}

/// The condition under which a saved interface is brought up or down.
#[derive(Debug)]
#[non_exhaustive]
pub enum InterfaceTrigger {
    /// Never bring the interface up or down.
    Never,
    /// Bring the interface up or down whatever its carrier state.
    Always,
    /// Follow the carrier of the link.
    Carrier(Box<InterfaceTriggerCarrier>),
    /// Act when the given SSID connects; `*` stands for any SSID.
    WifiUp(Box<String>),
    /// Act when no wireless device is connected to the given SSID.
    WifiDown(Box<String>),
    /// Act when an SSID other than the given one connects.
    WifiUpNot(Box<String>),
}

/// Mathematical model of a trigger.
pub enum TriggerModel {
    Never,
    Always,
    Carrier,
    WifiUp(Seq<char>),
    WifiDown(Seq<char>),
    WifiUpNot(Seq<char>),
}

impl View for InterfaceTrigger {
    type V = TriggerModel;

    open spec fn view(&self) -> TriggerModel {
        match self {
            InterfaceTrigger::Never => TriggerModel::Never,
            InterfaceTrigger::Always => TriggerModel::Always,
            InterfaceTrigger::Carrier(_) => TriggerModel::Carrier,
            InterfaceTrigger::WifiUp(s) => TriggerModel::WifiUp(s@),
            InterfaceTrigger::WifiDown(s) => TriggerModel::WifiDown(s@),
            InterfaceTrigger::WifiUpNot(s) => TriggerModel::WifiUpNot(s@),
        }
    }
}

impl TriggerModel {
    /// Whether the trigger depends on a wireless association.
    pub open spec fn is_wifi(self) -> bool {
        self is WifiUp || self is WifiDown || self is WifiUpNot
    }
}

impl Default for InterfaceTriggerCarrier {
    fn default() -> (r: Self) {
        InterfaceTriggerCarrier {  }
    }
}

impl PartialEq for InterfaceTriggerCarrier {
    fn eq(&self, other: &Self) -> (r: bool) {
        true
    }
}

impl PartialEqSpecImpl for InterfaceTriggerCarrier {
    open spec fn obeys_eq_spec() -> bool {
        true
    }

    open spec fn eq_spec(&self, other: &Self) -> bool {
        true
    }
}

impl Clone for InterfaceTriggerCarrier {
    fn clone(&self) -> (r: Self) {
        InterfaceTriggerCarrier {  }
    }
}

impl Default for InterfaceTrigger {
    /// The trigger of an interface that names none: `Always`.
    fn default() -> (r: Self)
        ensures
            r@ == TriggerModel::Always,
    {
        InterfaceTrigger::Always
    }
}

impl Clone for InterfaceTrigger {
    fn clone(&self) -> (r: Self)
        ensures
            r@ == self@,
    {
        match self {
            InterfaceTrigger::Never => InterfaceTrigger::Never,
            InterfaceTrigger::Always => InterfaceTrigger::Always,
            InterfaceTrigger::Carrier(_) => InterfaceTrigger::Carrier(
                Box::new(InterfaceTriggerCarrier {  }),
            ),
            InterfaceTrigger::WifiUp(s) => InterfaceTrigger::WifiUp(Box::new((**s).clone())),
            InterfaceTrigger::WifiDown(s) => InterfaceTrigger::WifiDown(Box::new((**s).clone())),
            InterfaceTrigger::WifiUpNot(s) => InterfaceTrigger::WifiUpNot(
                Box::new((**s).clone()),
            ),
        }
    }
}

impl PartialEq for InterfaceTrigger {
    fn eq(&self, other: &Self) -> (r: bool) {
        match (self, other) {
            (InterfaceTrigger::Never, InterfaceTrigger::Never) => true,
            (InterfaceTrigger::Always, InterfaceTrigger::Always) => true,
            (InterfaceTrigger::Carrier(_), InterfaceTrigger::Carrier(_)) => true,
            (InterfaceTrigger::WifiUp(a), InterfaceTrigger::WifiUp(b)) => **a == **b,
            (InterfaceTrigger::WifiDown(a), InterfaceTrigger::WifiDown(b)) => **a == **b,
            (InterfaceTrigger::WifiUpNot(a), InterfaceTrigger::WifiUpNot(b)) => **a == **b,
            _ => false,
        }
    }
}

impl PartialEqSpecImpl for InterfaceTrigger {
    open spec fn obeys_eq_spec() -> bool {
        true
    }

    open spec fn eq_spec(&self, other: &Self) -> bool {
        self@ == other@
    }
}

impl InterfaceTrigger {
    /// Whether the trigger depends on a wireless association.
    pub fn is_wifi(&self) -> (r: bool)
        ensures
            r == self@.is_wifi(),
    {
        matches!(self, Self::WifiUp(_) | Self::WifiDown(_) | Self::WifiUpNot(_))
    }
}


/// The object that holds `v` under `k` and nothing else.
pub open spec fn single_entry(k: Seq<char>, v: Json) -> Json {
    Json::Object(Map::<Seq<char>, Json>::empty().insert(k, v))
}

/// The structural value of a trigger: the text `never` or `always`, or an
/// object with the one key that names the trigger.
pub open spec fn trigger_encode(t: TriggerModel) -> Json {
    match t {
        TriggerModel::Never => Json::Text("never"@),
        TriggerModel::Always => Json::Text("always"@),
        TriggerModel::Carrier => single_entry("carrier"@, Json::Object(Map::empty())),
        TriggerModel::WifiUp(s) => single_entry("wifi-up"@, Json::Text(s)),
        TriggerModel::WifiDown(s) => single_entry("wifi-down"@, Json::Text(s)),
        TriggerModel::WifiUpNot(s) => single_entry("wifi-up-not"@, Json::Text(s)),
    }
}

/// Why a structural value is no trigger.
pub enum TriggerFault {
    /// The value under the named key is not what the trigger takes.
    BadValue(Seq<char>),
    /// The object has none of the keys that name a trigger.
    UnknownKeys,
    /// The text is neither `never` nor `always`.
    UnknownText(Seq<char>),
    /// The value is neither a text nor an object.
    NotTextOrObject,
}

/// The SSID under `k`, which has to be a text.
pub open spec fn ssid_under(m: Map<Seq<char>, Json>, k: Seq<char>) -> Result<Seq<char>, TriggerFault> {
    match m[k] {
        Json::Text(s) => Ok(s),
        _ => Err(TriggerFault::BadValue(k)),
    }
}

/// The trigger that a structural value stands for. Of the keys of an
/// object the first of `wifi-up`, `wifi-up-not`, `wifi-down` and `carrier`
/// decides.
pub open spec fn trigger_decode(j: Json) -> Result<TriggerModel, TriggerFault> {
    match j {
        Json::Object(m) => {
            if m.dom().contains("wifi-up"@) {
                match ssid_under(m, "wifi-up"@) {
                    Ok(s) => Ok(TriggerModel::WifiUp(s)),
                    Err(e) => Err(e),
                }
            } else if m.dom().contains("wifi-up-not"@) {
                match ssid_under(m, "wifi-up-not"@) {
                    Ok(s) => Ok(TriggerModel::WifiUpNot(s)),
                    Err(e) => Err(e),
                }
            } else if m.dom().contains("wifi-down"@) {
                match ssid_under(m, "wifi-down"@) {
                    Ok(s) => Ok(TriggerModel::WifiDown(s)),
                    Err(e) => Err(e),
                }
            } else if m.dom().contains("carrier"@) {
                if m["carrier"@] == Json::Object(Map::empty()) {
                    Ok(TriggerModel::Carrier)
                } else {
                    Err(TriggerFault::BadValue("carrier"@))
                }
            } else {
                Err(TriggerFault::UnknownKeys)
            }
        },
        Json::Text(s) => {
            if s == "never"@ {
                Ok(TriggerModel::Never)
            } else if s == "always"@ {
                Ok(TriggerModel::Always)
            } else {
                Err(TriggerFault::UnknownText(s))
            }
        },
        _ => Err(TriggerFault::NotTextOrObject),
    }
}

/// How every description of a value that is no trigger begins.
pub open spec fn trigger_expecting() -> Seq<char> {
    "Expecting 'never', 'always', 'carrier', 'wifi-up', 'wifi-up-not', 'wifi-down' for interface trigger"@
}

/// Whether `msg` describes why `j` is no trigger.
pub open spec fn describes_trigger_fault(j: Json, msg: Seq<char>) -> bool {
    match trigger_decode(j) {
        Ok(_) => false,
        Err(TriggerFault::BadValue(k)) => msg == trigger_expecting()
            + ", but got an unexpected value under "@ + k,
        Err(TriggerFault::UnknownKeys) => msg == trigger_expecting() + ", but got "@ + joined(
            sorted_texts(crate::value::entries_of(j).dom()),
            " "@,
        ),
        Err(TriggerFault::UnknownText(s)) => msg == trigger_expecting() + ", but got "@ + s,
        Err(TriggerFault::NotTextOrObject) => msg == trigger_expecting()
            + ", but got not string or map"@,
    }
}

/// The structural value of a trigger leads back to the trigger.
pub proof fn lemma_trigger_round_trip(t: TriggerModel)
    ensures
        trigger_decode(trigger_encode(t)) == Ok::<TriggerModel, TriggerFault>(t),
{
    reveal_strlit("never");
    reveal_strlit("always");
    reveal_strlit("carrier");
    reveal_strlit("wifi-up");
    reveal_strlit("wifi-down");
    reveal_strlit("wifi-up-not");
    assert("never"@.len() == 5);
    assert("always"@.len() == 6);
    assert("carrier"@.len() == 7 && "carrier"@[0] == 'c');
    assert("wifi-up"@.len() == 7 && "wifi-up"@[0] == 'w');
    assert("wifi-down"@.len() == 9);
    assert("wifi-up-not"@.len() == 11);
}

/// The error for a value that is no trigger.
fn trigger_fault(detail: &str) -> (r: NipartError)
    ensures
        r.kind == ErrorKind::StructuralError,
        r.msg@ == trigger_expecting() + detail@,
{
    NipartError::new(
        ErrorKind::StructuralError,
        concat(
            "Expecting 'never', 'always', 'carrier', 'wifi-up', 'wifi-up-not', 'wifi-down' for interface trigger",
            detail,
        ),
    )
}

/// The SSID under `key`, which the object is known to have.
fn ssid_from(obj: &JsonObject, v: &JsonValue, key: &str) -> (r: Result<String, NipartError>)
    requires
        obj@.dom().contains(key@),
        v@ == obj@[key@],
    ensures
        match r {
            Ok(s) => ssid_under(obj@, key@) == Ok::<Seq<char>, TriggerFault>(s@),
            Err(e) => ssid_under(obj@, key@) is Err && e.kind == ErrorKind::StructuralError
                && e.msg@ == trigger_expecting() + ", but got an unexpected value under "@
                + key@,
        },
{
    match v {
        JsonValue::Text(s) => Ok(s.clone()),
        _ => {
            let detail = concat(", but got an unexpected value under ", key);
            let e = trigger_fault(detail.as_str());
            assert(e.msg@ =~= trigger_expecting() + ", but got an unexpected value under "@ + key@);
            Err(e)
        },
    }
}

impl InterfaceTrigger {
    /// The structural value of the trigger.
    pub fn to_value(&self) -> (r: JsonValue)
        ensures
            r@ == trigger_encode(self@),
    {
        match self {
            InterfaceTrigger::Never => JsonValue::Text("never".to_owned()),
            InterfaceTrigger::Always => JsonValue::Text("always".to_owned()),
            InterfaceTrigger::Carrier(_) => {
                let mut o = JsonObject::new();
                o.insert("carrier".to_owned(), JsonValue::Object(JsonObject::new()));
                JsonValue::Object(o)
            },
            InterfaceTrigger::WifiUp(s) => {
                let mut o = JsonObject::new();
                o.insert("wifi-up".to_owned(), JsonValue::Text((**s).clone()));
                JsonValue::Object(o)
            },
            InterfaceTrigger::WifiDown(s) => {
                let mut o = JsonObject::new();
                o.insert("wifi-down".to_owned(), JsonValue::Text((**s).clone()));
                JsonValue::Object(o)
            },
            InterfaceTrigger::WifiUpNot(s) => {
                let mut o = JsonObject::new();
                o.insert("wifi-up-not".to_owned(), JsonValue::Text((**s).clone()));
                JsonValue::Object(o)
            },
        }
    }

    /// The trigger that a structural value stands for, or why it stands for
    /// none.
    pub fn from_value(v: &JsonValue) -> (r: Result<InterfaceTrigger, NipartError>)
        ensures
            match r {
                Ok(t) => trigger_decode(v@) == Ok::<TriggerModel, TriggerFault>(t@),
                Err(e) => e.kind == ErrorKind::StructuralError && describes_trigger_fault(
                    v@,
                    e.msg@,
                ),
            },
    {
        match v {
            JsonValue::Object(obj) => {
                if let Some(x) = obj.get("wifi-up") {
                    match ssid_from(obj, x, "wifi-up") {
                        Ok(s) => Ok(InterfaceTrigger::WifiUp(Box::new(s))),
                        Err(e) => Err(e),
                    }
                } else if let Some(x) = obj.get("wifi-up-not") {
                    match ssid_from(obj, x, "wifi-up-not") {
                        Ok(s) => Ok(InterfaceTrigger::WifiUpNot(Box::new(s))),
                        Err(e) => Err(e),
                    }
                } else if let Some(x) = obj.get("wifi-down") {
                    match ssid_from(obj, x, "wifi-down") {
                        Ok(s) => Ok(InterfaceTrigger::WifiDown(Box::new(s))),
                        Err(e) => Err(e),
                    }
                } else if let Some(x) = obj.get("carrier") {
                    let empty = match x {
                        JsonValue::Object(c) => c.is_empty(),
                        _ => false,
                    };
                    proof {
                        if empty {
                            assert(x@->Object_0 =~= Map::<Seq<char>, Json>::empty());
                        }
                    }
                    if empty {
                        Ok(InterfaceTrigger::Carrier(Box::new(InterfaceTriggerCarrier {  })))
                    } else {
                        let e = trigger_fault(", but got an unexpected value under carrier");
                        proof {
                            reveal_strlit(", but got an unexpected value under carrier");
                            reveal_strlit(", but got an unexpected value under ");
                            reveal_strlit("carrier");
                            assert(", but got an unexpected value under carrier"@
                                =~= ", but got an unexpected value under "@ + "carrier"@);
                            assert(e.msg@ =~= trigger_expecting()
                                + ", but got an unexpected value under "@ + "carrier"@);
                        }
                        Err(e)
                    }
                } else {
                    let keys = obj.sorted_keys();
                    let listing = join_texts(&keys, " ");
                    let detail = concat(", but got ", listing.as_str());
                    let e = trigger_fault(detail.as_str());
                    proof {
                        let l = crate::views::vec_view(keys);
                        assert(e.msg@ =~= trigger_expecting() + ", but got "@ + joined(l, " "@));
                    }
                    Err(e)
                }
            },
            JsonValue::Text(s) => {
                if text_is(s, "never") {
                    Ok(InterfaceTrigger::Never)
                } else if text_is(s, "always") {
                    Ok(InterfaceTrigger::Always)
                } else {
                    let detail = concat(", but got ", s.as_str());
                    let e = trigger_fault(detail.as_str());
                    assert(e.msg@ =~= trigger_expecting() + ", but got "@ + s@);
                    Err(e)
                }
            },
            _ => Err(trigger_fault(", but got not string or map")),
        }
    }
}

} // verus!
