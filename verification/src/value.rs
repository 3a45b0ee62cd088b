use crate::json::{distinct_keys, has_key, key_index, lemma_object_model, Json, JsonObject, JsonValue};
use vstd::prelude::*;

verus! {

/// The value of `m` at `k`, or `Null` where `m` has no such key.
pub open spec fn entry_or_null(m: Map<Seq<char>, Json>, k: Seq<char>) -> Json {
    if m.dom().contains(k) {
        m[k]
    } else {
        Json::Null
    }
}

/// The entries of an object, or none where the value is no object.
pub open spec fn entries_of(j: Json) -> Map<Seq<char>, Json> {
    match j {
        Json::Object(m) => m,
        _ => Map::empty(),
    }
}

/// The keys of the object `desired` whose values the object `current` does
/// not meet yet, each with what is still to change under it.
pub open spec fn diff_entries(desired: Json, current: Json) -> Map<Seq<char>, Json>
    decreases desired, 0int,
{
    match desired {
        Json::Object(d) => {
            let c = entries_of(current);
            Map::new(
                |k: Seq<char>|
                    d.dom().contains(k) && (if c.dom().contains(k) {
                        json_diff(d[k], c[k]) is Some
                    } else {
                        d[k] != Json::Null
                    }),
                |k: Seq<char>|
                    if d.dom().contains(k) && c.dom().contains(k) {
                        match json_diff(d[k], c[k]) {
                            Some(x) => x,
                            None => Json::Null,
                        }
                    } else {
                        d[k]
                    },
            )
        },
        _ => Map::empty(),
    }
}

/// What of `desired` is not already so in `current`, if anything.
///
/// A `Null` in `desired` asks for nothing. Two objects are compared key by
/// key, and the difference holds the keys of `desired` whose values are not
/// yet met. Everything else, arrays included, is taken whole.
pub open spec fn json_diff(desired: Json, current: Json) -> Option<Json>
    decreases desired, 1int,
{
    match (desired, current) {
        (Json::Null, _) => None,
        (Json::Object(_), Json::Object(_)) => {
            if diff_entries(desired, current).dom() =~= Set::empty() {
                None
            } else {
                Some(Json::Object(diff_entries(desired, current)))
            }
        },
        (Json::Array(d), Json::Array(c)) => {
            if d.len() != c.len() || (exists|i: int|
                0 <= i < d.len() && json_diff(#[trigger] d[i], c[i]) is Some) {
                Some(desired)
            } else {
                None
            }
        },
        _ => if desired == current {
            None
        } else {
            Some(desired)
        },
    }
}

/// The entries of the object `base` with those of the object `other` laid
/// over them.
pub open spec fn merge_entries(base: Json, other: Json) -> Map<Seq<char>, Json>
    decreases other, 0int,
{
    match other {
        Json::Object(o) => {
            let b = entries_of(base);
            Map::new(
                |k: Seq<char>| b.dom().contains(k) || o.dom().contains(k),
                |k: Seq<char>|
                    if o.dom().contains(k) {
                        json_merge(entry_or_null(b, k), o[k])
                    } else {
                        b[k]
                    },
            )
        },
        _ => entries_of(base),
    }
}

/// `other` laid over `base`: two objects are merged key by key, anything
/// else is replaced by `other`.
pub open spec fn json_merge(base: Json, other: Json) -> Json
    decreases other, 1int,
{
    match (base, other) {
        (Json::Object(_), Json::Object(_)) => Json::Object(merge_entries(base, other)),
        _ => other,
    }
}

/// What the object `current` held under each key of the object `desired`,
/// laid over the entries of `revert`.
pub open spec fn revert_entries(desired: Json, current: Json, revert: Json) -> Map<Seq<char>, Json>
    decreases desired, 0int,
{
    match desired {
        Json::Object(d) => {
            let c = entries_of(current);
            let r = entries_of(revert);
            Map::new(
                |k: Seq<char>| r.dom().contains(k) || d.dom().contains(k),
                |k: Seq<char>|
                    if d.dom().contains(k) {
                        if c.dom().contains(k) {
                            json_revert(d[k], c[k], entry_or_null(r, k))
                        } else {
                            Json::Null
                        }
                    } else {
                        r[k]
                    },
            )
        },
        _ => entries_of(revert),
    }
}

/// What `current` held, before `desired` was applied, at every place that
/// `desired` speaks of, laid over `revert`.
///
/// Two objects are gone through key by key: a key of `desired` gets the
/// value that `current` has for it, `Null` where it has none. Anything else
/// is `current` itself.
pub open spec fn json_revert(desired: Json, current: Json, revert: Json) -> Json
    decreases desired, 1int,
{
    match (desired, current) {
        (Json::Object(_), Json::Object(_)) => Json::Object(
            revert_entries(desired, current, revert),
        ),
        _ => current,
    }
}


/// The model of a value that may be missing.
pub open spec fn option_model(v: Option<JsonValue>) -> Option<Json> {
    match v {
        Some(x) => Some(x@),
        None => None,
    }
}

/// Whether one of the first `n` entries of `s` has the key `k`.
spec fn key_before(s: Seq<(String, JsonValue)>, n: int, k: Seq<char>) -> bool {
    exists|j: int| 0 <= j < n && (#[trigger] s[j]).0@ == k
}

proof fn lemma_key_before_step(s: Seq<(String, JsonValue)>, n: int)
    requires
        0 <= n < s.len(),
    ensures
        forall|k: Seq<char>| #[trigger]
            key_before(s, n + 1, k) <==> key_before(s, n, k) || k == s[n].0@,
{
    assert forall|k: Seq<char>| #[trigger]
        key_before(s, n + 1, k) <==> key_before(s, n, k) || k == s[n].0@ by {
        if key_before(s, n + 1, k) {
            let j = choose|j: int| 0 <= j < n + 1 && (#[trigger] s[j]).0@ == k;
            if j < n {
                assert(key_before(s, n, k));
            }
        }
        if key_before(s, n, k) {
            let j = choose|j: int| 0 <= j < n && (#[trigger] s[j]).0@ == k;
            assert(s[j].0@ == k);
        }
        if k == s[n].0@ {
            assert(s[n].0@ == k);
        }
    }
}

/// Whether two arrays differ in length or at some index.
fn arrays_differ(d: &Vec<JsonValue>, c: &Vec<JsonValue>) -> (r: bool)
    ensures
        r == (d.len() != c.len() || exists|i: int|
            0 <= i < d.len() && json_diff(#[trigger] d[i]@, c[i]@) is Some),
    decreases d,
{
    if d.len() != c.len() {
        return true;
    }
    let mut i: usize = 0;
    while i < d.len()
        invariant
            i <= d.len(),
            d.len() == c.len(),
            forall|j: int| 0 <= j < i ==> json_diff(#[trigger] d[j]@, c[j]@) is None,
        decreases d.len() - i,
    {
        if gen_diff_json_value(&d[i], &c[i]).is_some() {
            assert(json_diff(d[i as int]@, c[i as int]@) is Some);
            return true;
        }
        i += 1;
    }
    false
}

/// The difference between two objects.
fn diff_objects(d: &JsonObject, c: &JsonObject) -> (r: Option<JsonValue>)
    ensures
        option_model(r) == json_diff(Json::Object(d@), Json::Object(c@)),
    decreases d,
{
    let ghost desired = Json::Object(d@);
    let ghost current = Json::Object(c@);
    let ghost de = diff_entries(desired, current);
    proof {
        use_type_invariant(d);
        lemma_object_model(*d);
    }
    let mut ret = JsonObject::new();
    let mut i: usize = 0;
    while i < d.entries.len()
        invariant
            i <= d.entries.len(),
            distinct_keys(d.entries@),
            desired == Json::Object(d@),
            current == Json::Object(c@),
            de == diff_entries(desired, current),
            forall|k: Seq<char>| #[trigger]
                ret@.dom().contains(k) <==> de.dom().contains(k) && key_before(
                    d.entries@,
                    i as int,
                    k,
                ),
            forall|k: Seq<char>| #[trigger] ret@.dom().contains(k) ==> ret@[k] == de[k],
        decreases d.entries.len() - i,
    {
        proof {
            lemma_object_model(*d);
            lemma_key_before_step(d.entries@, i as int);
        }
        let des_value = &d.entries[i].1;
        let ghost ki = d.entries[i as int].0@;
        assert(d@.dom().contains(ki) && d@[ki] == des_value@);
        match c.get(d.entries[i].0.as_str()) {
            Some(cur_value) => {
                match gen_diff_json_value(des_value, cur_value) {
                    Some(x) => {
                        ret.insert(d.entries[i].0.clone(), x);
                    },
                    None => {},
                }
            },
            None => {
                if !des_value.is_null() {
                    ret.insert(d.entries[i].0.clone(), des_value.clone());
                }
            },
        }
        i += 1;
    }
    proof {
        lemma_object_model(*d);
        assert forall|k: Seq<char>| de.dom().contains(k) implies ret@.dom().contains(k) by {
            assert(has_key(d.entries@, k));
            let j = key_index(d.entries@, k);
            assert(d.entries[j].0@ == k);
            assert(key_before(d.entries@, i as int, k));
        }
        assert(ret@ =~= de);
    }
    if ret.is_empty() {
        None
    } else {
        Some(JsonValue::Object(ret))
    }
}

/// What of `desired` is not already so in `current`: `None` where `current`
/// meets all of `desired`, else the part of `desired` that it does not meet.
pub fn gen_diff_json_value(desired: &JsonValue, current: &JsonValue) -> (r: Option<JsonValue>)
    ensures
        option_model(r) == json_diff(desired@, current@),
    decreases desired,
{
    match desired {
        JsonValue::Null => None,
        JsonValue::Object(d) => match current {
            JsonValue::Object(c) => diff_objects(d, c),
            _ => Some(desired.clone()),
        },
        JsonValue::Array(d) => match current {
            JsonValue::Array(c) => {
                let differ = arrays_differ(d, c);
                proof {
                    let ds = desired@->Array_0;
                    let cs = current@->Array_0;
                    if differ && d.len() == c.len() {
                        let i = choose|i: int|
                            0 <= i < d.len() && json_diff(#[trigger] d[i]@, c[i]@) is Some;
                        assert(json_diff(ds[i], cs[i]) is Some);
                    }
                    if !differ {
                        assert forall|i: int| 0 <= i < ds.len() implies json_diff(
                            #[trigger] ds[i],
                            cs[i],
                        ) is None by {
                            assert(json_diff(d[i]@, c[i]@) is None);
                        }
                    }
                }
                if differ {
                    Some(desired.clone())
                } else {
                    None
                }
            },
            _ => Some(desired.clone()),
        },
        _ => if desired.same(current) {
            None
        } else {
            Some(desired.clone())
        },
    }
}


proof fn lemma_key_not_before(s: Seq<(String, JsonValue)>, n: int)
    requires
        0 <= n < s.len(),
        distinct_keys(s),
    ensures
        !key_before(s, n, s[n].0@),
{
    if key_before(s, n, s[n].0@) {
        let j = choose|j: int| 0 <= j < n && (#[trigger] s[j]).0@ == s[n].0@;
        assert(s[j].0@ != s[n].0@);
    }
}

/// The entries of `base` with those of `other` laid over them.
fn merge_objects(base: JsonObject, other: &JsonObject) -> (r: JsonObject)
    ensures
        r@ == merge_entries(Json::Object(base@), Json::Object(other@)),
    decreases other,
{
    let ghost b0 = base@;
    let ghost me = merge_entries(Json::Object(base@), Json::Object(other@));
    proof {
        use_type_invariant(other);
        lemma_object_model(*other);
    }
    let mut b = base;
    let mut i: usize = 0;
    while i < other.entries.len()
        invariant
            i <= other.entries.len(),
            distinct_keys(other.entries@),
            me == merge_entries(Json::Object(b0), Json::Object(other@)),
            forall|k: Seq<char>| #[trigger]
                b@.dom().contains(k) <==> b0.dom().contains(k) || key_before(
                    other.entries@,
                    i as int,
                    k,
                ),
            forall|k: Seq<char>| #[trigger]
                b@.dom().contains(k) ==> b@[k] == (if key_before(other.entries@, i as int, k) {
                    me[k]
                } else {
                    b0[k]
                }),
        decreases other.entries.len() - i,
    {
        proof {
            lemma_object_model(*other);
            lemma_key_before_step(other.entries@, i as int);
            lemma_key_not_before(other.entries@, i as int);
        }
        let ghost ki = other.entries[i as int].0@;
        assert(other@.dom().contains(ki) && other@[ki] == other.entries[i as int].1@);
        let cur = match b.get(other.entries[i].0.as_str()) {
            Some(x) => x.clone(),
            None => JsonValue::Null,
        };
        assert(cur@ == entry_or_null(b0, ki));
        let m = merged(cur, &other.entries[i].1);
        b.insert(other.entries[i].0.clone(), m);
        i += 1;
    }
    proof {
        lemma_object_model(*other);
        assert forall|k: Seq<char>| #[trigger] other@.dom().contains(k) implies key_before(
            other.entries@,
            i as int,
            k,
        ) by {
            let j = key_index(other.entries@, k);
            assert(other.entries[j].0@ == k);
        }
        assert forall|k: Seq<char>| key_before(other.entries@, i as int, k) implies #[trigger]
            other@.dom().contains(k) by {
            let j = choose|j: int| 0 <= j < i && (#[trigger] other.entries[j]).0@ == k;
            assert(other.entries[j].0@ == k);
        }
        assert(b@ =~= me);
    }
    b
}

/// `other` laid over `base`.
fn merged(base: JsonValue, other: &JsonValue) -> (r: JsonValue)
    ensures
        r@ == json_merge(base@, other@),
    decreases other,
{
    match other {
        JsonValue::Object(o) => match base {
            JsonValue::Object(b) => JsonValue::Object(merge_objects(b, o)),
            _ => other.clone(),
        },
        _ => other.clone(),
    }
}

/// Lays `other` over `base`: two objects are merged key by key, anything
/// else is replaced by `other`.
pub fn merge_json_value(base: &mut JsonValue, other: &JsonValue)
    ensures
        final(base)@ == json_merge(old(base)@, other@),
{
    let mut taken = JsonValue::Null;
    core::mem::swap(base, &mut taken);
    *base = merged(taken, other);
}

/// What `current` held under each key of `desired`, laid over the entries
/// of `revert`.
fn revert_objects(d: &JsonObject, c: &JsonObject, revert: JsonValue) -> (r: JsonObject)
    ensures
        r@ == revert_entries(Json::Object(d@), Json::Object(c@), revert@),
    decreases d,
{
    let ghost r0 = entries_of(revert@);
    let ghost re = revert_entries(Json::Object(d@), Json::Object(c@), revert@);
    proof {
        use_type_invariant(d);
        lemma_object_model(*d);
    }
    let mut r = match revert {
        JsonValue::Object(o) => o,
        _ => JsonObject::new(),
    };
    let mut i: usize = 0;
    while i < d.entries.len()
        invariant
            i <= d.entries.len(),
            distinct_keys(d.entries@),
            re == revert_entries(Json::Object(d@), Json::Object(c@), revert@),
            r0 == entries_of(revert@),
            forall|k: Seq<char>| #[trigger]
                r@.dom().contains(k) <==> r0.dom().contains(k) || key_before(
                    d.entries@,
                    i as int,
                    k,
                ),
            forall|k: Seq<char>| #[trigger]
                r@.dom().contains(k) ==> r@[k] == (if key_before(d.entries@, i as int, k) {
                    re[k]
                } else {
                    r0[k]
                }),
        decreases d.entries.len() - i,
    {
        proof {
            lemma_object_model(*d);
            lemma_key_before_step(d.entries@, i as int);
            lemma_key_not_before(d.entries@, i as int);
        }
        let ghost ki = d.entries[i as int].0@;
        assert(d@.dom().contains(ki) && d@[ki] == d.entries[i as int].1@);
        match c.get(d.entries[i].0.as_str()) {
            Some(cur_value) => {
                let acc = match r.get(d.entries[i].0.as_str()) {
                    Some(x) => x.clone(),
                    None => JsonValue::Null,
                };
                assert(acc@ == entry_or_null(r0, ki));
                let v = reverted(&d.entries[i].1, cur_value, acc);
                r.insert(d.entries[i].0.clone(), v);
            },
            None => {
                r.insert(d.entries[i].0.clone(), JsonValue::Null);
            },
        }
        i += 1;
    }
    proof {
        lemma_object_model(*d);
        assert forall|k: Seq<char>| #[trigger] d@.dom().contains(k) implies key_before(
            d.entries@,
            i as int,
            k,
        ) by {
            let j = key_index(d.entries@, k);
            assert(d.entries[j].0@ == k);
        }
        assert forall|k: Seq<char>| key_before(d.entries@, i as int, k) implies #[trigger]
            d@.dom().contains(k) by {
            let j = choose|j: int| 0 <= j < i && (#[trigger] d.entries[j]).0@ == k;
            assert(d.entries[j].0@ == k);
        }
        assert(r@ =~= re);
    }
    r
}

/// What `current` held at every place that `desired` speaks of, laid over
/// `revert`.
fn reverted(desired: &JsonValue, current: &JsonValue, revert: JsonValue) -> (r: JsonValue)
    ensures
        r@ == json_revert(desired@, current@, revert@),
    decreases desired,
{
    match desired {
        JsonValue::Object(d) => match current {
            JsonValue::Object(c) => JsonValue::Object(revert_objects(d, c, revert)),
            _ => current.clone(),
        },
        _ => current.clone(),
    }
}

/// Puts into `revert` what `current` held, before `desired` was applied, at
/// every place that `desired` speaks of.
pub fn gen_revert_state(desired: &JsonValue, current: &JsonValue, revert: &mut JsonValue)
    ensures
        final(revert)@ == json_revert(desired@, current@, old(revert)@),
{
    let mut taken = JsonValue::Null;
    core::mem::swap(revert, &mut taken);
    *revert = reverted(desired, current, taken);
}

} // verus!
