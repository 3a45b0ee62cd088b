use crate::json::Json;
use crate::value::{
    diff_entries, entries_of, entry_or_null, json_diff, json_merge, json_revert, merge_entries,
    revert_entries,
};
use vstd::prelude::*;

verus! {

/// A value asks for nothing of itself: its difference from itself is empty.
pub proof fn lemma_diff_of_itself(j: Json)
    ensures
        json_diff(j, j) is None,
    decreases j,
{
    match j {
        Json::Object(m) => {
            assert forall|k: Seq<char>| #[trigger] m.dom().contains(k) implies json_diff(
                m[k],
                m[k],
            ) is None by {
                lemma_diff_of_itself(m[k]);
            }
            assert(diff_entries(j, j).dom() =~= Set::empty());
        },
        Json::Array(a) => {
            assert forall|i: int| 0 <= i < a.len() implies json_diff(#[trigger] a[i], a[i])
                is None by {
                lemma_diff_of_itself(a[i]);
            }
        },
        _ => {},
    }
}

/// Once the difference between `desired` and `current` has been laid over
/// `current`, `desired` asks for nothing more: the difference from the new
/// value is empty.
pub proof fn lemma_diff_applied_leaves_none(desired: Json, current: Json)
    ensures
        json_diff(desired, current) matches Some(x) ==> json_diff(
            desired,
            json_merge(current, x),
        ) is None,
    decreases desired,
{
    match json_diff(desired, current) {
        None => {},
        Some(x) => {
            match (desired, current) {
                (Json::Object(d), Json::Object(c)) => {
                    let de = diff_entries(desired, current);
                    let merged = json_merge(current, x);
                    let mm = merge_entries(current, x);
                    assert(merged == Json::Object(mm));
                    assert forall|k: Seq<char>| #[trigger] d.dom().contains(k) implies !diff_entries(
                        desired,
                        merged,
                    ).dom().contains(k) by {
                        if c.dom().contains(k) {
                            lemma_diff_applied_leaves_none(d[k], c[k]);
                            if json_diff(d[k], c[k]) is Some {
                                assert(de.dom().contains(k));
                                assert(mm[k] == json_merge(c[k], de[k]));
                            } else {
                                assert(!de.dom().contains(k));
                                assert(mm[k] == c[k]);
                            }
                        } else {
                            if d[k] != Json::Null {
                                assert(de.dom().contains(k));
                                assert(mm[k] == json_merge(Json::Null, d[k]));
                                assert(mm[k] == d[k]);
                                lemma_diff_of_itself(d[k]);
                            } else {
                                assert(!de.dom().contains(k));
                                assert(!mm.dom().contains(k));
                            }
                        }
                    }
                    assert(diff_entries(desired, merged).dom() =~= Set::empty());
                },
                _ => {
                    assert(x == desired);
                    assert(json_merge(current, x) == desired);
                    lemma_diff_of_itself(desired);
                },
            }
        },
    }
}


/// Whether every entry of `part` is found again in `whole`: two objects are
/// compared key by key, anything else has to be equal.
pub open spec fn json_contained(part: Json, whole: Json) -> bool
    decreases part,
{
    match (part, whole) {
        (Json::Object(p), Json::Object(w)) => forall|k: Seq<char>| #[trigger]
            p.dom().contains(k) ==> w.dom().contains(k) && json_contained(p[k], w[k]),
        _ => part == whole,
    }
}

/// A value without the keys that hold `Null`: a key that holds `Null` and a
/// key that is missing say the same.
pub open spec fn json_strip(j: Json) -> Json
    decreases j,
{
    match j {
        Json::Object(m) => Json::Object(
            Map::new(
                |k: Seq<char>| m.dom().contains(k) && m[k] != Json::Null,
                |k: Seq<char>|
                    if m.dom().contains(k) {
                        json_strip(m[k])
                    } else {
                        Json::Null
                    },
            ),
        ),
        _ => j,
    }
}

/// Laying a part of a value over that value changes nothing.
pub proof fn lemma_merge_contained(whole: Json, part: Json)
    requires
        json_contained(part, whole),
    ensures
        json_merge(whole, part) == whole,
    decreases part,
{
    match (part, whole) {
        (Json::Object(p), Json::Object(w)) => {
            let mm = merge_entries(whole, part);
            assert forall|k: Seq<char>| #[trigger] mm.dom().contains(k) implies mm[k]
                == w[k] by {
                if p.dom().contains(k) {
                    lemma_merge_contained(w[k], p[k]);
                }
            }
            assert(mm =~= w);
        },
        _ => {},
    }
}

/// Whether the entries that a revert starts from all lie in `current`.
pub open spec fn revert_start_within(revert: Json, current: Json) -> bool {
    forall|k: Seq<char>| #[trigger]
        entries_of(revert).dom().contains(k) ==> entries_of(current).dom().contains(k)
            && json_contained(entries_of(revert)[k], entries_of(current)[k])
}

/// Revert round trip: apply `desired` to `current` by laying it over, then
/// lay the revert over the result. What comes out is `current` again, key
/// for key, but for keys that hold `Null`.
pub proof fn lemma_revert_round_trip(desired: Json, current: Json, revert: Json)
    requires
        revert_start_within(revert, current),
    ensures
        json_strip(
            json_merge(json_merge(current, desired), json_revert(desired, current, revert)),
        ) == json_strip(current),
    decreases desired,
{
    match (desired, current) {
        (Json::Object(d), Json::Object(c)) => {
            let r = entries_of(revert);
            let applied = json_merge(current, desired);
            let am = merge_entries(current, desired);
            let back = json_revert(desired, current, revert);
            let bm = revert_entries(desired, current, revert);
            let last = json_merge(applied, back);
            let lm = merge_entries(applied, back);
            assert(applied == Json::Object(am));
            assert(back == Json::Object(bm));
            assert(last == Json::Object(lm));
            let ls = json_strip(last)->Object_0;
            let cs = json_strip(current)->Object_0;
            assert forall|k: Seq<char>| #[trigger] lm.dom().contains(k) implies json_strip(lm[k])
                == json_strip(entry_or_null(c, k)) by {
                if d.dom().contains(k) {
                    if c.dom().contains(k) {
                        let acc = entry_or_null(r, k);
                        assert(revert_start_within(acc, c[k])) by {
                            if r.dom().contains(k) {
                                assert(json_contained(r[k], c[k]));
                            }
                        }
                        lemma_revert_round_trip(d[k], c[k], acc);
                        assert(am[k] == json_merge(c[k], d[k]));
                        assert(bm[k] == json_revert(d[k], c[k], acc));
                        assert(lm[k] == json_merge(am[k], bm[k]));
                    } else {
                        assert(bm[k] == Json::Null);
                        assert(lm[k] == Json::Null);
                    }
                } else {
                    assert(c.dom().contains(k));
                    assert(am[k] == c[k]);
                    if r.dom().contains(k) {
                        assert(bm[k] == r[k]);
                        lemma_merge_contained(c[k], r[k]);
                    }
                }
            }
            assert forall|k: Seq<char>| #[trigger] c.dom().contains(k) implies lm.dom().contains(
                k,
            ) by {
                assert(am.dom().contains(k));
            }
            assert forall|k: Seq<char>| ls.dom().contains(k) <==> cs.dom().contains(k) by {
                if lm.dom().contains(k) {
                    lemma_strip_null(lm[k]);
                    lemma_strip_null(entry_or_null(c, k));
                }
                if c.dom().contains(k) {
                    lemma_strip_null(lm[k]);
                    lemma_strip_null(c[k]);
                }
            }
            assert(ls =~= cs);
        },
        _ => {},
    }
}

/// Stripping keeps a value `Null` or not `Null`.
pub proof fn lemma_strip_null(j: Json)
    ensures
        json_strip(j) == Json::Null <==> j == Json::Null,
{
}

/// Whether `current` already holds, at every place that `desired` speaks of,
/// what `desired` says: applying `desired` would have no effect.
pub open spec fn json_agrees(desired: Json, current: Json) -> bool
    decreases desired,
{
    match (desired, current) {
        (Json::Object(d), Json::Object(c)) => forall|k: Seq<char>| #[trigger]
            d.dom().contains(k) ==> (if c.dom().contains(k) {
                json_agrees(d[k], c[k])
            } else {
                d[k] == Json::Null
            }),
        _ => desired == current,
    }
}

/// Whether the entries that a revert starts from are all spoken of by
/// `desired`.
pub open spec fn revert_start_covered(revert: Json, desired: Json) -> bool
    decreases revert,
{
    match revert {
        Json::Object(r) => forall|k: Seq<char>| #[trigger]
            r.dom().contains(k) ==> entries_of(desired).dom().contains(k) && revert_start_covered(
                r[k],
                entries_of(desired)[k],
            ),
        _ => true,
    }
}

/// No-op revert: the revert of `desired` is `desired` itself exactly where
/// `current` already agrees with `desired`.
pub proof fn lemma_revert_is_desired(desired: Json, current: Json, revert: Json)
    requires
        revert_start_covered(revert, desired),
    ensures
        json_revert(desired, current, revert) == desired <==> json_agrees(desired, current),
    decreases desired,
{
    match (desired, current) {
        (Json::Object(d), Json::Object(c)) => {
            let r = entries_of(revert);
            let bm = revert_entries(desired, current, revert);
            assert(json_revert(desired, current, revert) == Json::Object(bm));
            assert forall|k: Seq<char>| #[trigger] d.dom().contains(k) && c.dom().contains(
                k,
            ) implies (bm[k] == d[k] <==> json_agrees(d[k], c[k])) by {
                let acc = entry_or_null(r, k);
                assert(revert_start_covered(acc, d[k]));
                lemma_revert_is_desired(d[k], c[k], acc);
            }
            if json_agrees(desired, current) {
                assert forall|k: Seq<char>| #[trigger] bm.dom().contains(k) implies d.dom().contains(
                    k,
                ) && bm[k] == d[k] by {
                    assert(d.dom().contains(k));
                }
                assert(bm =~= d);
            }
            if bm == d {
                assert forall|k: Seq<char>| #[trigger] d.dom().contains(k) implies (if c.dom().contains(
                    k,
                ) {
                    json_agrees(d[k], c[k])
                } else {
                    d[k] == Json::Null
                }) by {
                    assert(bm[k] == d[k]);
                }
            }
        },
        _ => {},
    }
}

/// A value agrees with itself.
pub proof fn lemma_agrees_with_itself(j: Json)
    ensures
        json_agrees(j, j),
    decreases j,
{
    match j {
        Json::Object(m) => {
            assert forall|k: Seq<char>| #[trigger] m.dom().contains(k) implies json_agrees(
                m[k],
                m[k],
            ) by {
                lemma_agrees_with_itself(m[k]);
            }
        },
        _ => {},
    }
}


/// Every value is found again in itself.
pub proof fn lemma_contained_in_itself(j: Json)
    ensures
        json_contained(j, j),
    decreases j,
{
    match j {
        Json::Object(m) => {
            assert forall|k: Seq<char>| #[trigger] m.dom().contains(k) implies json_contained(
                m[k],
                m[k],
            ) by {
                lemma_contained_in_itself(m[k]);
            }
        },
        _ => {},
    }
}

/// Whether `current` says something at every place that `desired` speaks
/// of: where both are objects, every key of `desired` is a key of
/// `current`, and so on under each key.
pub open spec fn json_keys_within(desired: Json, current: Json) -> bool
    decreases desired,
{
    match (desired, current) {
        (Json::Object(d), Json::Object(c)) => forall|k: Seq<char>| #[trigger]
            d.dom().contains(k) ==> c.dom().contains(k) && json_keys_within(d[k], c[k]),
        _ => true,
    }
}

/// Where `current` says something at every place that `desired` speaks of,
/// the revert says nothing that `current` does not say.
pub proof fn lemma_revert_contained(desired: Json, current: Json, revert: Json)
    requires
        json_keys_within(desired, current),
        revert_start_within(revert, current),
    ensures
        json_contained(json_revert(desired, current, revert), current),
    decreases desired,
{
    match (desired, current) {
        (Json::Object(d), Json::Object(c)) => {
            let r = entries_of(revert);
            let bm = revert_entries(desired, current, revert);
            assert(json_revert(desired, current, revert) == Json::Object(bm));
            assert forall|k: Seq<char>| #[trigger] bm.dom().contains(k) implies c.dom().contains(k)
                && json_contained(bm[k], c[k]) by {
                if d.dom().contains(k) {
                    let acc = entry_or_null(r, k);
                    assert(revert_start_within(acc, c[k])) by {
                        if r.dom().contains(k) {
                            assert(json_contained(r[k], c[k]));
                        }
                    }
                    lemma_revert_contained(d[k], c[k], acc);
                } else {
                    assert(r.dom().contains(k));
                }
            }
        },
        _ => {
            lemma_contained_in_itself(current);
        },
    }
}

} // verus!
