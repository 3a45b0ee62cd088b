use crate::text_order::{lemma_sorted_texts, sort_texts, sorted_texts};
use crate::views::vec_view;
use vstd::prelude::*;

verus! {

/// Mathematical model of a structural value: scalars, arrays and objects
/// whose entries are found by key.
pub enum Json {
    Null,
    Bool(bool),
    Number(int),
    Text(Seq<char>),
    Array(Seq<Json>),
    Object(Map<Seq<char>, Json>),
}

/// An object of a structural value: entries in insertion order, each key
/// held once.
#[derive(Debug)]
pub struct JsonObject {
    pub(crate) entries: Vec<(String, JsonValue)>,
}

/// A structural value.
#[derive(Debug)]
pub enum JsonValue {
    Null,
    Bool(bool),
    Number(i64),
    Text(String),
    Array(Vec<JsonValue>),
    Object(JsonObject),
}

/// Whether `l` lists the keys of `m`, each once.
pub open spec fn lists_keys(l: Seq<Seq<char>>, m: Map<Seq<char>, Json>) -> bool {
    &&& forall|k: Seq<char>| #[trigger] m.dom().contains(k) <==> l.contains(k)
    &&& l.no_duplicates()
}

/// No two entries of `s` have the same key.
pub open spec fn distinct_keys(s: Seq<(String, JsonValue)>) -> bool {
    forall|i: int, j: int|
        0 <= i < s.len() && 0 <= j < s.len() && i != j ==> (#[trigger] s[i]).0@ != (#[trigger] s[j]).0@
}

/// Whether some entry of `s` has the key `k`.
pub open spec fn has_key(s: Seq<(String, JsonValue)>, k: Seq<char>) -> bool {
    exists|i: int| 0 <= i < s.len() && (#[trigger] s[i]).0@ == k
}

/// The index of an entry of `s` with the key `k`.
pub open spec fn key_index(s: Seq<(String, JsonValue)>, k: Seq<char>) -> int {
    choose|i: int| 0 <= i < s.len() && (#[trigger] s[i]).0@ == k
}

/// The model of a value.
pub open spec fn value_model(v: JsonValue) -> Json
    decreases v,
{
    match v {
        JsonValue::Null => Json::Null,
        JsonValue::Bool(b) => Json::Bool(b),
        JsonValue::Number(n) => Json::Number(n as int),
        JsonValue::Text(s) => Json::Text(s@),
        JsonValue::Array(a) => Json::Array(
            Seq::new(a.len() as nat, |i: int| if 0 <= i < a.len() { value_model(a[i]) } else { Json::Null }),
        ),
        JsonValue::Object(o) => Json::Object(object_model(o)),
    }
}

/// The model of an object: the map from each key to the model of its value.
pub closed spec fn object_model(o: JsonObject) -> Map<Seq<char>, Json>
    decreases o,
{
    Map::new(
        |k: Seq<char>| has_key(o.entries@, k),
        |k: Seq<char>|
            {
                let i = key_index(o.entries@, k);
                if 0 <= i < o.entries.len() {
                    value_model(o.entries[i].1)
                } else {
                    Json::Null
                }
            },
    )
}

impl View for JsonValue {
    type V = Json;

    open spec fn view(&self) -> Json {
        value_model(*self)
    }
}

impl View for JsonObject {
    type V = Map<Seq<char>, Json>;

    open spec fn view(&self) -> Map<Seq<char>, Json> {
        object_model(*self)
    }
}

/// How the model of an object follows from its entries.
pub(crate) proof fn lemma_object_model(o: JsonObject)
    requires
        distinct_keys(o.entries@),
    ensures
        forall|k: Seq<char>| o@.dom().contains(k) <==> has_key(o.entries@, k),
        forall|i: int|
            0 <= i < o.entries.len() ==> o@.dom().contains((#[trigger] o.entries[i]).0@)
                && o@[o.entries[i].0@] == value_model(o.entries[i].1),
{
    assert forall|i: int| 0 <= i < o.entries.len() implies o@.dom().contains(
        (#[trigger] o.entries[i]).0@,
    ) && o@[o.entries[i].0@] == value_model(o.entries[i].1) by {
        let k = o.entries[i].0@;
        assert(has_key(o.entries@, k));
        assert(key_index(o.entries@, k) == i);
    }
}

/// Where the entry with the key `key` stands, if there is one.
pub(crate) fn find_key(entries: &Vec<(String, JsonValue)>, key: &String) -> (r: Option<usize>)
    ensures
        match r {
            Some(i) => i < entries.len() && entries[i as int].0@ == key@,
            None => !has_key(entries@, key@),
        },
{
    let mut i: usize = 0;
    while i < entries.len()
        invariant
            i <= entries.len(),
            forall|j: int| 0 <= j < i ==> (#[trigger] entries[j]).0@ != key@,
        decreases entries.len() - i,
    {
        if entries[i].0 == *key {
            return Some(i);
        }
        i += 1;
    }
    None
}

impl JsonObject {
    #[verifier::type_invariant]
    pub(crate) open spec fn inv(self) -> bool {
        distinct_keys(self.entries@)
    }

    /// An object without entries.
    pub fn new() -> (r: Self)
        ensures
            r@ == Map::<Seq<char>, Json>::empty(),
    {
        let r = JsonObject { entries: Vec::new() };
        assert(r@ =~= Map::<Seq<char>, Json>::empty());
        r
    }

    /// The value under `key`, if the object has that key.
    pub fn get(&self, key: &str) -> (r: Option<&JsonValue>)
        ensures
            match r {
                Some(v) => self@.dom().contains(key@) && v@ == self@[key@],
                None => !self@.dom().contains(key@),
            },
    {
        proof {
            use_type_invariant(self);
            lemma_object_model(*self);
        }
        let k = key.to_owned();
        match find_key(&self.entries, &k) {
            Some(i) => Some(&self.entries[i].1),
            None => None,
        }
    }

    /// Whether the object has no entry.
    pub fn is_empty(&self) -> (r: bool)
        ensures
            r == (self@.dom() =~= Set::<Seq<char>>::empty()),
    {
        proof {
            use_type_invariant(self);
            lemma_object_model(*self);
        }
        let r = self.entries.len() == 0;
        proof {
            if !r {
                assert(self@.dom().contains(self.entries[0].0@));
            }
        }
        r
    }

    /// Puts `value` under `key`, in place of the value that was there.
    pub fn insert(&mut self, key: String, value: JsonValue)
        ensures
            final(self)@ == old(self)@.insert(key@, value@),
    {
        proof {
            use_type_invariant(&*self);
            lemma_object_model(*self);
        }
        let ghost k = key@;
        let ghost v = value@;
        let mut taken = JsonObject { entries: Vec::new() };
        core::mem::swap(self, &mut taken);
        let JsonObject { entries } = taken;
        let mut entries = entries;
        let ghost at: int;
        match find_key(&entries, &key) {
            Some(i) => {
                proof {
                    at = i as int;
                }
                entries.set(i, (key, value));
            },
            None => {
                proof {
                    at = entries.len() as int;
                }
                entries.push((key, value));
            },
        }
        *self = JsonObject { entries };
        proof {
            lemma_object_model(*self);
            assert forall|q: Seq<char>| self@.dom().contains(q) <==> old(self)@.insert(
                k,
                v,
            ).dom().contains(q) by {
                if has_key(self.entries@, q) {
                    let j = key_index(self.entries@, q);
                    if j < old(self).entries.len() {
                        assert(old(self).entries[j].0@ == q || q == k);
                    }
                }
                if has_key(old(self).entries@, q) {
                    let j = key_index(old(self).entries@, q);
                    assert(self.entries[j].0@ == q);
                }
                if q == k {
                    assert(self.entries[at].0@ == k);
                }
            }
            assert forall|q: Seq<char>| self@.dom().contains(q) implies self@[q] == old(
                self,
            )@.insert(k, v)[q] by {
                let j = key_index(self.entries@, q);
                if q != k {
                    assert(old(self).entries[j].0@ == q);
                }
            }
            assert(self@ =~= old(self)@.insert(k, v));
        }
    }

    /// The keys of the object, in the order of texts.
    pub fn sorted_keys(&self) -> (r: Vec<String>)
        ensures
            vec_view(r) == sorted_texts(self@.dom()),
    {
        let keys = self.keys();
        let r = sort_texts(&keys);
        proof {
            lemma_sorted_texts(vec_view(r), self@.dom());
        }
        r
    }

    /// The keys of the object, each once.
    pub(crate) fn keys(&self) -> (r: Vec<String>)
        ensures
            lists_keys(vec_view(r), self@),
    {
        proof {
            use_type_invariant(self);
            lemma_object_model(*self);
        }
        let mut r: Vec<String> = Vec::new();
        let mut i: usize = 0;
        while i < self.entries.len()
            invariant
                i <= self.entries.len(),
                r.len() == i,
                forall|j: int| 0 <= j < i ==> (#[trigger] r[j])@ == self.entries[j].0@,
            decreases self.entries.len() - i,
        {
            r.push(self.entries[i].0.clone());
            i += 1;
        }
        proof {
            let l = vec_view(r);
            assert forall|k: Seq<char>| #[trigger] self@.dom().contains(k) implies l.contains(
                k,
            ) by {
                let j = key_index(self.entries@, k);
                assert(l[j] == k);
            }
            assert forall|k: Seq<char>| l.contains(k) implies #[trigger] self@.dom().contains(
                k,
            ) by {
                let j = choose|j: int| 0 <= j < l.len() && l[j] == k;
                assert(self.entries[j].0@ == k);
            }
            assert forall|i: int, j: int| 0 <= i < l.len() && 0 <= j < l.len() && i != j implies l[i]
                != l[j] by {
                assert(self.entries[i].0@ != self.entries[j].0@);
            }
        }
        r
    }
}

/// A copy of the values of `a`.
fn clone_array(a: &Vec<JsonValue>) -> (r: Vec<JsonValue>)
    ensures
        r.len() == a.len(),
        forall|i: int| 0 <= i < a.len() ==> (#[trigger] r[i])@ == a[i]@,
    decreases a,
{
    let mut r: Vec<JsonValue> = Vec::new();
    let mut i: usize = 0;
    while i < a.len()
        invariant
            i <= a.len(),
            r.len() == i,
            forall|j: int| 0 <= j < i ==> (#[trigger] r[j])@ == a[j]@,
        decreases a.len() - i,
    {
        r.push(clone_value(&a[i]));
        i += 1;
    }
    r
}

/// A copy of the entries `e`.
fn clone_entries(e: &Vec<(String, JsonValue)>) -> (r: Vec<(String, JsonValue)>)
    ensures
        r.len() == e.len(),
        forall|i: int|
            0 <= i < e.len() ==> (#[trigger] r[i]).0@ == e[i].0@ && r[i].1@ == e[i].1@,
    decreases e,
{
    let mut r: Vec<(String, JsonValue)> = Vec::new();
    let mut i: usize = 0;
    while i < e.len()
        invariant
            i <= e.len(),
            r.len() == i,
            forall|j: int| 0 <= j < i ==> (#[trigger] r[j]).0@ == e[j].0@ && r[j].1@ == e[j].1@,
        decreases e.len() - i,
    {
        r.push((e[i].0.clone(), clone_value(&e[i].1)));
        i += 1;
    }
    r
}

/// A copy of `v`.
fn clone_value(v: &JsonValue) -> (r: JsonValue)
    ensures
        r@ == v@,
    decreases v,
{
    match v {
        JsonValue::Null => JsonValue::Null,
        JsonValue::Bool(b) => JsonValue::Bool(*b),
        JsonValue::Number(n) => JsonValue::Number(*n),
        JsonValue::Text(s) => JsonValue::Text(s.clone()),
        JsonValue::Array(a) => {
            let r = JsonValue::Array(clone_array(a));
            assert(r@->Array_0 =~= v@->Array_0);
            r
        },
        JsonValue::Object(o) => {
            proof {
                use_type_invariant(o);
            }
            let entries = clone_entries(&o.entries);
            assert forall|i: int, j: int|
                0 <= i < entries.len() && 0 <= j < entries.len() && i != j implies (
            #[trigger] entries[i]).0@ != (#[trigger] entries[j]).0@ by {
                assert(o.entries[i].0@ != o.entries[j].0@);
            }
            let c = JsonObject { entries };
            proof {
                lemma_same_entries(c, *o);
            }
            JsonValue::Object(c)
        },
    }
}

/// Two objects whose entries have the same keys and models, one by one,
/// have the same model.
pub(crate) proof fn lemma_same_entries(a: JsonObject, b: JsonObject)
    requires
        distinct_keys(a.entries@),
        distinct_keys(b.entries@),
        a.entries.len() == b.entries.len(),
        forall|i: int|
            0 <= i < a.entries.len() ==> (#[trigger] a.entries[i]).0@ == b.entries[i].0@
                && a.entries[i].1@ == b.entries[i].1@,
    ensures
        a@ == b@,
{
    lemma_object_model(a);
    lemma_object_model(b);
    assert forall|k: Seq<char>| a@.dom().contains(k) <==> b@.dom().contains(k) by {
        if has_key(a.entries@, k) {
            let i = key_index(a.entries@, k);
            assert(b.entries[i].0@ == k);
        }
        if has_key(b.entries@, k) {
            let i = key_index(b.entries@, k);
            assert(a.entries[i].0@ == k);
        }
    }
    assert forall|k: Seq<char>| a@.dom().contains(k) implies a@[k] == b@[k] by {
        let i = key_index(a.entries@, k);
        assert(b.entries[i].0@ == k);
    }
    assert(a@ =~= b@);
}

/// Whether `a` and `b` hold equal values at each index.
fn same_array(a: &Vec<JsonValue>, b: &Vec<JsonValue>) -> (r: bool)
    ensures
        r == (a.len() == b.len() && forall|i: int| 0 <= i < a.len() ==> a[i]@ == b[i]@),
    decreases a,
{
    if a.len() != b.len() {
        return false;
    }
    let mut i: usize = 0;
    while i < a.len()
        invariant
            i <= a.len(),
            a.len() == b.len(),
            forall|j: int| 0 <= j < i ==> a[j]@ == b[j]@,
        decreases a.len() - i,
    {
        if !same_value(&a[i], &b[i]) {
            return false;
        }
        i += 1;
    }
    true
}

/// Whether every entry of `a` is an entry of `b`.
fn object_within(a: &JsonObject, b: &JsonObject) -> (r: bool)
    ensures
        r == (forall|k: Seq<char>| #[trigger]
            a@.dom().contains(k) ==> b@.dom().contains(k) && a@[k] == b@[k]),
    decreases a,
{
    proof {
        use_type_invariant(a);
        use_type_invariant(b);
        lemma_object_model(*a);
        lemma_object_model(*b);
    }
    let mut i: usize = 0;
    while i < a.entries.len()
        invariant
            i <= a.entries.len(),
            distinct_keys(a.entries@),
            distinct_keys(b.entries@),
            forall|j: int|
                0 <= j < i ==> b@.dom().contains((#[trigger] a.entries[j]).0@)
                    && a.entries[j].1@ == b@[a.entries[j].0@],
        decreases a.entries.len() - i,
    {
        proof {
            lemma_object_model(*a);
            lemma_object_model(*b);
        }
        match find_key(&b.entries, &a.entries[i].0) {
            None => {
                assert(a@.dom().contains(a.entries[i as int].0@));
                return false;
            },
            Some(j) => {
                if !same_value(&a.entries[i].1, &b.entries[j].1) {
                    assert(a@.dom().contains(a.entries[i as int].0@));
                    assert(b@[b.entries[j as int].0@] == b.entries[j as int].1@);
                    return false;
                }
                assert(b@[b.entries[j as int].0@] == b.entries[j as int].1@);
            },
        }
        i += 1;
    }
    proof {
        lemma_object_model(*a);
        assert forall|k: Seq<char>| a@.dom().contains(k) implies b@.dom().contains(k) && a@[k]
            == b@[k] by {
            let j = key_index(a.entries@, k);
            assert(a.entries[j].0@ == k);
        }
    }
    true
}

/// Whether every key of `a` is a key of `b`.
fn keys_within(a: &JsonObject, b: &JsonObject) -> (r: bool)
    ensures
        r == (forall|k: Seq<char>| #[trigger] a@.dom().contains(k) ==> b@.dom().contains(k)),
{
    proof {
        use_type_invariant(a);
        use_type_invariant(b);
        lemma_object_model(*a);
        lemma_object_model(*b);
    }
    let mut i: usize = 0;
    while i < a.entries.len()
        invariant
            i <= a.entries.len(),
            forall|k: Seq<char>| b@.dom().contains(k) <==> has_key(b.entries@, k),
            forall|j: int| 0 <= j < i ==> b@.dom().contains((#[trigger] a.entries[j]).0@),
        decreases a.entries.len() - i,
    {
        if find_key(&b.entries, &a.entries[i].0).is_none() {
            assert(a@.dom().contains(a.entries[i as int].0@));
            return false;
        }
        i += 1;
    }
    proof {
        assert forall|k: Seq<char>| a@.dom().contains(k) implies b@.dom().contains(k) by {
            let j = key_index(a.entries@, k);
            assert(a.entries[j].0@ == k);
        }
    }
    true
}

/// Whether `a` and `b` are the same value.
fn same_value(a: &JsonValue, b: &JsonValue) -> (r: bool)
    ensures
        r == (a@ == b@),
    decreases a,
{
    match (a, b) {
        (JsonValue::Null, JsonValue::Null) => true,
        (JsonValue::Bool(x), JsonValue::Bool(y)) => *x == *y,
        (JsonValue::Number(x), JsonValue::Number(y)) => *x == *y,
        (JsonValue::Text(x), JsonValue::Text(y)) => *x == *y,
        (JsonValue::Array(x), JsonValue::Array(y)) => {
            let r = same_array(x, y);
            proof {
                if r {
                    assert(a@->Array_0 =~= b@->Array_0);
                } else if x.len() == y.len() {
                    let i = choose|i: int| 0 <= i < x.len() && x[i]@ != y[i]@;
                    assert(a@->Array_0[i] == x[i]@);
                    assert(b@->Array_0[i] == y[i]@);
                } else {
                    assert(a@->Array_0.len() != b@->Array_0.len());
                }
            }
            r
        },
        (JsonValue::Object(x), JsonValue::Object(y)) => {
            let within = object_within(x, y);
            let covered = keys_within(y, x);
            proof {
                if within && covered {
                    assert(x@ =~= y@);
                }
                assert(a@ == Json::Object(x@));
                assert(b@ == Json::Object(y@));
            }
            within && covered
        },
        _ => false,
    }
}

impl JsonValue {
    /// Whether `self` and `other` are the same value. Two objects are the same
    /// where they hold the same values under the same keys, in whatever
    /// order.
    pub fn same(&self, other: &JsonValue) -> (r: bool)
        ensures
            r == (self@ == other@),
    {
        same_value(self, other)
    }

    /// Whether the value is `Null`.
    pub fn is_null(&self) -> (r: bool)
        ensures
            r == (self@ == Json::Null),
    {
        matches!(self, JsonValue::Null)
    }
}

impl Clone for JsonObject {
    fn clone(&self) -> (r: Self)
        ensures
            r@ == self@,
    {
        proof {
            use_type_invariant(self);
        }
        let entries = clone_entries(&self.entries);
        assert forall|i: int, j: int|
            0 <= i < entries.len() && 0 <= j < entries.len() && i != j implies (
        #[trigger] entries[i]).0@ != (#[trigger] entries[j]).0@ by {
            assert(self.entries[i].0@ != self.entries[j].0@);
        }
        let c = JsonObject { entries };
        proof {
            lemma_same_entries(c, *self);
        }
        c
    }
}

impl Clone for JsonValue {
    fn clone(&self) -> (r: Self)
        ensures
            r@ == self@,
    {
        clone_value(self)
    }
}

} // verus!
