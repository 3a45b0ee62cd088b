use crate::merged::{MergedInterface, MergedInterfaces, MergedModel};
use crate::text_order::{lemma_text_le_total, str_le, text_le};
use crate::views::vec_view;
use vstd::prelude::*;

verus! {

/// The number by which a record is put in order for the apply: the
/// priority of its instruction, the last where it has none.
pub open spec fn apply_priority(m: MergedModel) -> u32 {
    match m.for_apply {
        Some(a) => a.base.up_priority,
        None => u32::MAX,
    }
}

/// Whether the record `a` may be applied before the record `b`: by
/// priority, and by name among records of one priority.
pub open spec fn applies_before(a: MergedModel, b: MergedModel) -> bool {
    apply_priority(a) < apply_priority(b) || (apply_priority(a) == apply_priority(b) && text_le(
        a.merged.base.name,
        b.merged.base.name,
    ))
}

/// Whether each record of `s` may be applied before the next one.
pub open spec fn in_apply_order(s: Seq<MergedModel>) -> bool {
    forall|i: int| 0 <= i < s.len() - 1 ==> applies_before(#[trigger] s[i], s[i + 1])
}

/// The records of `s`, in order, whose instruction differs from what was
/// observed.
pub open spec fn changed_records(s: Seq<MergedModel>) -> Seq<MergedModel>
    decreases s.len(),
{
    if s.len() == 0 {
        s
    } else if s.last().is_changed() {
        changed_records(s.drop_last()).push(s.last())
    } else {
        changed_records(s.drop_last())
    }
}

fn priority_of(m: &MergedInterface) -> (r: u32)
    ensures
        r == apply_priority(m@),
{
    match &m.for_apply {
        Some(i) => i.base_iface().up_priority,
        None => u32::MAX,
    }
}

fn record_before(a: &MergedInterface, b: &MergedInterface) -> (r: bool)
    ensures
        r == applies_before(a@, b@),
        r || applies_before(b@, a@),
{
    proof {
        lemma_text_le_total(a@.merged.base.name, b@.merged.base.name);
    }
    let pa = priority_of(a);
    let pb = priority_of(b);
    pa < pb || (pa == pb && str_le(a.merged.name(), b.merged.name()))
}

/// Putting a record into a sequence adds it to the records of the
/// sequence.
proof fn lemma_insert_multiset(s: Seq<MergedModel>, at: int, x: MergedModel)
    requires
        0 <= at <= s.len(),
    ensures
        s.insert(at, x).to_multiset() == s.to_multiset().insert(x),
{
    broadcast use vstd::seq_lib::group_to_multiset_ensures;

    let t = s.insert(at, x);
    assert(t.remove(at) =~= s);
    assert(t[at] == x);
    assert(t.contains(x));
    assert(t.remove(at).to_multiset() =~= t.to_multiset().remove(x));
    assert(t.to_multiset().count(x) > 0);
    assert(t.to_multiset() =~= s.to_multiset().insert(x));
}

/// Whether `at` is the place of `x` in `s`: behind the records from the
/// start of `s` on that may be applied before `x`, and so behind the records
/// of its own priority and name that came before it.
pub open spec fn is_place_of(s: Seq<MergedModel>, x: MergedModel, at: int) -> bool {
    &&& 0 <= at <= s.len()
    &&& forall|j: int| 0 <= j < at ==> applies_before(#[trigger] s[j], x)
    &&& at < s.len() ==> !applies_before(s[at], x)
}

/// The place of `x` in `s`.
pub open spec fn place_of(s: Seq<MergedModel>, x: MergedModel) -> int {
    choose|at: int| is_place_of(s, x, at)
}

/// A record has one place.
pub proof fn lemma_place_of(s: Seq<MergedModel>, x: MergedModel, at: int)
    requires
        is_place_of(s, x, at),
    ensures
        place_of(s, x) == at,
{
    let other = place_of(s, x);
    if other < at {
        assert(applies_before(s[other], x));
    }
    if at < other {
        assert(applies_before(s[at], x));
    }
}

/// The first `n` records of `s` in the order of the apply, each put in its
/// place among those before it.
pub open spec fn apply_order(s: Seq<MergedModel>, n: nat) -> Seq<MergedModel>
    decreases n,
{
    if n == 0 || n > s.len() {
        Seq::empty()
    } else {
        let sorted = apply_order(s, (n - 1) as nat);
        sorted.insert(place_of(sorted, s[n - 1]), s[n - 1])
    }
}

/// Puts `m` into `out`, which is in apply order, in its place.
fn insert_in_order(out: &mut Vec<MergedInterface>, m: MergedInterface)
    requires
        in_apply_order(vec_view(*old(out))),
    ensures
        in_apply_order(vec_view(*final(out))),
        vec_view(*final(out)) == vec_view(*old(out)).insert(
            place_of(vec_view(*old(out)), m@),
            m@,
        ),
        vec_view(*final(out)).to_multiset() == vec_view(*old(out)).to_multiset().insert(m@),
{
    let ghost before = vec_view(*out);
    let mut at: usize = 0;
    while at < out.len() && record_before(&out[at], &m)
        invariant
            at <= out.len(),
            before == vec_view(*out),
            forall|j: int| 0 <= j < at ==> applies_before(#[trigger] before[j], m@),
        decreases out.len() - at,
    {
        assert(before[at as int] == out[at as int]@);
        at += 1;
    }
    proof {
        if at < out.len() {
            assert(before[at as int] == out[at as int]@);
            assert(applies_before(m@, before[at as int]));
        }
        lemma_place_of(before, m@, at as int);
        lemma_insert_multiset(before, at as int, m@);
    }
    let ghost x = m@;
    out.insert(at, m);
    proof {
        let after = vec_view(*out);
        assert(after =~= before.insert(at as int, x));
        assert forall|i: int| 0 <= i < after.len() - 1 implies applies_before(
            #[trigger] after[i],
            after[i + 1],
        ) by {
            if i + 1 < at {
                assert(after[i] == before[i] && after[i + 1] == before[i + 1]);
            } else if i + 1 == at {
                assert(after[i] == before[i]);
            } else if i == at {
                assert(after[i + 1] == before[i]);
            } else {
                assert(after[i] == before[i - 1] && after[i + 1] == before[i]);
                assert(applies_before(before[i - 1], before[i - 1 + 1]));
            }
        }
    }
}

/// The records of `v`, in the order of the apply.
fn sort_for_apply(v: &Vec<MergedInterface>) -> (r: Vec<MergedInterface>)
    ensures
        vec_view(r) == apply_order(vec_view(*v), v.len() as nat),
        in_apply_order(vec_view(r)),
        vec_view(r).to_multiset() == vec_view(*v).to_multiset(),
{
    let ghost s = vec_view(*v);
    let mut out: Vec<MergedInterface> = Vec::new();
    let mut i: usize = 0;
    assert(vec_view(out) =~= apply_order(s, 0));
    assert(s.take(0) =~= Seq::<MergedModel>::empty());
    while i < v.len()
        invariant
            i <= v.len(),
            s == vec_view(*v),
            vec_view(out) == apply_order(s, i as nat),
            in_apply_order(vec_view(out)),
            vec_view(out).to_multiset() == s.take(i as int).to_multiset(),
        decreases v.len() - i,
    {
        proof {
            broadcast use vstd::seq_lib::group_to_multiset_ensures;

            assert(s[i as int] == v[i as int]@);
            assert(s.take(i + 1) =~= s.take(i as int).push(s[i as int]));
        }
        insert_in_order(&mut out, v[i].clone());
        i += 1;
    }
    assert(s.take(i as int) =~= s);
    out
}

/// The records of `v` whose instruction differs from what was observed.
fn changed_only(v: &Vec<MergedInterface>) -> (r: Vec<MergedInterface>)
    ensures
        vec_view(r) == changed_records(vec_view(*v)),
{
    let ghost s = vec_view(*v);
    let mut out: Vec<MergedInterface> = Vec::new();
    let mut i: usize = 0;
    assert(vec_view(out) =~= changed_records(s.take(0)));
    while i < v.len()
        invariant
            i <= v.len(),
            s == vec_view(*v),
            vec_view(out) == changed_records(s.take(i as int)),
        decreases v.len() - i,
    {
        proof {
            assert(s.take(i + 1).drop_last() =~= s.take(i as int));
            assert(s.take(i + 1).last() == v[i as int]@);
        }
        if v[i].is_changed() {
            let ghost before = vec_view(out);
            out.push(v[i].clone());
            assert(vec_view(out) =~= before.push(v[i as int]@));
        }
        i += 1;
    }
    assert(s.take(i as int) =~= s);
    out
}

impl MergedInterfaces {
    /// The records whose instruction differs from what was observed, in the
    /// order of the apply: by priority, and by name among records of one
    /// priority; records of one priority and name stay in their order.
    pub fn changed_in_apply_order(&self) -> (r: Vec<MergedInterface>)
        ensures
            vec_view(r) == apply_order(
                changed_records(self@.all()),
                changed_records(self@.all()).len(),
            ),
            in_apply_order(vec_view(r)),
            vec_view(r).to_multiset() == changed_records(self@.all()).to_multiset(),
    {
        let records = self.to_vec();
        let changed = changed_only(&records);
        sort_for_apply(&changed)
    }
}

} // verus!
