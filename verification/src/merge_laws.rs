use crate::base::InterfaceType;
use crate::diff::{
    diff_fold, entry_identity, holds_identity, is_met, lemma_gen_diff_settled,
};
use crate::iface::InterfaceModel;
use crate::iface_ops::lemma_updated_identity;
use crate::ifaces::{first_of, has_identity, is_first_of, lemma_has_first, InterfacesModel};
use crate::ifaces_clean::{is_ignored, keep_unignored};
use crate::merged::{
    kind_key, merge_new, merge_observed, merge_partition, MergedInterfacesModel, MergedModel,
};
use vstd::prelude::*;

verus! {

/// Whether no two interfaces of `s` have the same name, or, where the kind
/// counts, the same name and kind.
pub open spec fn distinct_in(s: Seq<InterfaceModel>, by_kind: bool) -> bool {
    forall|a: int, b: int|
        0 <= a < s.len() && 0 <= b < s.len() && a != b ==> !((#[trigger] s[a]).base.name == (
        #[trigger] s[b]).base.name && (by_kind ==> s[a].base.iface_type == s[b].base.iface_type))
}

/// The name and the kind of an interface.
pub open spec fn identity(i: InterfaceModel) -> (Seq<char>, InterfaceType) {
    (i.base.name, i.base.iface_type)
}

/// The record of an interface that is asked for holds it as what is asked
/// for, and what it adds to a difference is of its name and kind.
pub proof fn lemma_record_identity(dd: InterfaceModel, cur: Option<InterfaceModel>)
    requires
        cur is Some ==> cur->0.base.name == dd.base.name,
    ensures
        MergedModel::of(Some(dd), cur).desired == Some(dd),
        entry_identity(MergedModel::of(Some(dd), cur)) == identity(dd),
{
    reveal(MergedModel::of);
    if cur is Some {
        let c = cur->0;
        let start = InterfaceModel {
            base: crate::base::BaseModel {
                state: dd.base.state,
                iface_type: InterfaceType::OvsInterface,
                controller: dd.base.controller,
                controller_type: dd.base.controller_type,
                ..c.base
            },
            specific: dd.specific,
        };
        lemma_updated_identity(start, dd);
    }
}

/// The places in `d` of the interfaces that were not observed in `c`.
pub open spec fn new_places(d: Seq<InterfaceModel>, c: Seq<InterfaceModel>, by_kind: bool) -> Seq<
    int,
>
    decreases d.len(),
{
    if d.len() == 0 {
        Seq::empty()
    } else if first_of(c, d.last().base.name, kind_key(d.last(), by_kind)) is None {
        new_places(d.drop_last(), c, by_kind).push(d.len() - 1)
    } else {
        new_places(d.drop_last(), c, by_kind)
    }
}

/// The records of the interfaces that were not observed are those of the
/// interfaces at `new_places`, in their order.
pub proof fn lemma_merge_new(d: Seq<InterfaceModel>, c: Seq<InterfaceModel>, by_kind: bool)
    ensures
        merge_new(d, c, by_kind).len() == new_places(d, c, by_kind).len(),
        forall|j: int|
            0 <= j < new_places(d, c, by_kind).len() ==> 0 <= #[trigger] new_places(
                d,
                c,
                by_kind,
            )[j] < d.len() && merge_new(d, c, by_kind)[j] == MergedModel::of(
                Some(d[new_places(d, c, by_kind)[j]]),
                None,
            ) && first_of(
                c,
                d[new_places(d, c, by_kind)[j]].base.name,
                kind_key(d[new_places(d, c, by_kind)[j]], by_kind),
            ) is None,
        forall|a: int, b: int|
            0 <= a < b < new_places(d, c, by_kind).len() ==> #[trigger] new_places(d, c, by_kind)[a]
                < #[trigger] new_places(d, c, by_kind)[b],
    decreases d.len(),
{
    if d.len() > 0 {
        lemma_merge_new(d.drop_last(), c, by_kind);
        let p0 = new_places(d.drop_last(), c, by_kind);
        let p = new_places(d, c, by_kind);
        assert forall|j: int| 0 <= j < p.len() implies 0 <= #[trigger] p[j] < d.len() && merge_new(
            d,
            c,
            by_kind,
        )[j] == MergedModel::of(Some(d[p[j]]), None) && first_of(
            c,
            d[p[j]].base.name,
            kind_key(d[p[j]], by_kind),
        ) is None by {
            if j < p0.len() {
                assert(p[j] == p0[j]);
                assert(d.drop_last()[p0[j]] == d[p0[j]]);
            }
        }
        assert forall|a: int, b: int| 0 <= a < b < p.len() implies #[trigger] p[a] < #[trigger] p[b] by {
            if b < p0.len() {
                assert(p[a] == p0[a] && p[b] == p0[b]);
            } else {
                assert(p[a] == p0[a]);
            }
        }
    }
}

/// The place in `d` of the interface that the record at `j` of a partition
/// holds as asked for.
pub open spec fn desired_place(
    d: Seq<InterfaceModel>,
    c: Seq<InterfaceModel>,
    by_kind: bool,
    j: int,
) -> int {
    if j < c.len() {
        first_of(d, c[j].base.name, kind_key(c[j], by_kind))->0
    } else {
        new_places(d, c, by_kind)[j - c.len()]
    }
}

/// A record of a partition that is asked for holds the interface at its
/// place in `d`, and adds to a difference what is of the name and kind of
/// that interface.
pub proof fn lemma_partition_record(
    d: Seq<InterfaceModel>,
    c: Seq<InterfaceModel>,
    by_kind: bool,
    j: int,
)
    requires
        0 <= j < merge_partition(d, c, by_kind).len(),
        merge_partition(d, c, by_kind)[j].is_desired(),
    ensures
        0 <= desired_place(d, c, by_kind, j) < d.len(),
        entry_identity(merge_partition(d, c, by_kind)[j]) == identity(
            d[desired_place(d, c, by_kind, j)],
        ),
{
    reveal(MergedModel::of);
    lemma_merge_new(d, c, by_kind);
    let rec = merge_partition(d, c, by_kind)[j];
    if j < c.len() {
        assert(rec == merge_observed(d, c, by_kind)[j]);
        let found = first_of(d, c[j].base.name, kind_key(c[j], by_kind));
        assert(found is Some);
        let at = found->0;
        assert(is_first_of(d, c[j].base.name, kind_key(c[j], by_kind), at));
        lemma_record_identity(d[at], Some(c[j]));
    } else {
        let n = j - c.len();
        assert(rec == merge_new(d, c, by_kind)[n]);
        lemma_record_identity(d[new_places(d, c, by_kind)[n]], None);
    }
}

/// Two records of a partition that are asked for hold interfaces at
/// different places.
pub proof fn lemma_partition_places_differ(
    d: Seq<InterfaceModel>,
    c: Seq<InterfaceModel>,
    by_kind: bool,
    j: int,
    k: int,
)
    requires
        distinct_in(c, by_kind),
        0 <= j < k < merge_partition(d, c, by_kind).len(),
        merge_partition(d, c, by_kind)[j].is_desired(),
        merge_partition(d, c, by_kind)[k].is_desired(),
    ensures
        desired_place(d, c, by_kind, j) != desired_place(d, c, by_kind, k),
{
    reveal(MergedModel::of);
    lemma_merge_new(d, c, by_kind);
    lemma_partition_record(d, c, by_kind, j);
    lemma_partition_record(d, c, by_kind, k);
    let pj = desired_place(d, c, by_kind, j);
    let pk = desired_place(d, c, by_kind, k);
    if j < c.len() {
        assert(merge_partition(d, c, by_kind)[j] == merge_observed(d, c, by_kind)[j]);
        assert(first_of(d, c[j].base.name, kind_key(c[j], by_kind)) is Some);
        assert(is_first_of(d, c[j].base.name, kind_key(c[j], by_kind), pj));
        if k < c.len() {
            assert(merge_partition(d, c, by_kind)[k] == merge_observed(d, c, by_kind)[k]);
            assert(first_of(d, c[k].base.name, kind_key(c[k], by_kind)) is Some);
            assert(is_first_of(d, c[k].base.name, kind_key(c[k], by_kind), pk));
            if pj == pk {
                assert(c[j].base.name == c[k].base.name);
            }
        } else {
            if pj == pk {
                assert(has_identity(c[j], d[pk].base.name, kind_key(d[pk], by_kind)));
                lemma_has_first(c, d[pk].base.name, kind_key(d[pk], by_kind), j);
            }
        }
    }
}

/// The places in `s` of the interfaces that `ignored` does not name.
pub open spec fn kept_places(s: Seq<InterfaceModel>, ignored: Seq<(Seq<char>, InterfaceType)>) -> Seq<
    int,
>
    decreases s.len(),
{
    if s.len() == 0 {
        Seq::empty()
    } else if is_ignored(s.last(), ignored) {
        kept_places(s.drop_last(), ignored)
    } else {
        kept_places(s.drop_last(), ignored).push(s.len() - 1)
    }
}

/// The interfaces that are kept are those at `kept_places`, in their order.
pub proof fn lemma_kept(s: Seq<InterfaceModel>, ignored: Seq<(Seq<char>, InterfaceType)>)
    ensures
        keep_unignored(s, ignored).len() == kept_places(s, ignored).len(),
        forall|j: int|
            0 <= j < kept_places(s, ignored).len() ==> 0 <= #[trigger] kept_places(s, ignored)[j]
                < s.len() && keep_unignored(s, ignored)[j] == s[kept_places(s, ignored)[j]],
        forall|a: int, b: int|
            0 <= a < b < kept_places(s, ignored).len() ==> #[trigger] kept_places(s, ignored)[a]
                < #[trigger] kept_places(s, ignored)[b],
    decreases s.len(),
{
    if s.len() > 0 {
        lemma_kept(s.drop_last(), ignored);
        let p0 = kept_places(s.drop_last(), ignored);
        let p = kept_places(s, ignored);
        assert forall|j: int| 0 <= j < p.len() implies 0 <= #[trigger] p[j] < s.len()
            && keep_unignored(s, ignored)[j] == s[p[j]] by {
            if j < p0.len() {
                assert(p[j] == p0[j]);
                assert(s.drop_last()[p0[j]] == s[p0[j]]);
            }
        }
        assert forall|a: int, b: int| 0 <= a < b < p.len() implies #[trigger] p[a] < #[trigger] p[b] by {
            if b < p0.len() {
                assert(p[a] == p0[a] && p[b] == p0[b]);
            } else {
                assert(p[a] == p0[a]);
            }
        }
    }
}

/// A collection without its ignored interfaces is well formed as the whole
/// collection is.
pub proof fn lemma_without_ignored_wf(
    s: InterfacesModel,
    ignored: Seq<(Seq<char>, InterfaceType)>,
)
    requires
        s.wf(),
    ensures
        s.without_ignored(ignored).wf(),
{
    lemma_kept(s.kernel, ignored);
    lemma_kept(s.user, ignored);
    let r = s.without_ignored(ignored);
    let kp = kept_places(s.kernel, ignored);
    let up = kept_places(s.user, ignored);
    assert forall|i: int| 0 <= i < r.kernel.len() implies !(#[trigger] r.kernel[i]).is_userspace() by {
        assert(r.kernel[i] == s.kernel[kp[i]]);
    }
    assert forall|i: int| 0 <= i < r.user.len() implies (#[trigger] r.user[i]).is_userspace() by {
        assert(r.user[i] == s.user[up[i]]);
    }
    assert forall|i: int, j: int|
        0 <= i < r.kernel.len() && 0 <= j < r.kernel.len() && i != j implies (
    #[trigger] r.kernel[i]).base.name != (#[trigger] r.kernel[j]).base.name by {
        assert(r.kernel[i] == s.kernel[kp[i]] && r.kernel[j] == s.kernel[kp[j]]);
        if i < j {
            assert(kp[i] < kp[j]);
        } else {
            assert(kp[j] < kp[i]);
        }
    }
    assert forall|i: int, j: int|
        0 <= i < r.user.len() && 0 <= j < r.user.len() && i != j implies !((
    #[trigger] r.user[i]).base.name == (#[trigger] r.user[j]).base.name
        && r.user[i].base.iface_type == r.user[j].base.iface_type) by {
        assert(r.user[i] == s.user[up[i]] && r.user[j] == s.user[up[j]]);
        if i < j {
            assert(up[i] < up[j]);
        } else {
            assert(up[j] < up[i]);
        }
    }
}

/// Of the records of a reconciliation of well-formed states, no two that
/// are asked for add to a difference what is of the same name and kind.
pub proof fn lemma_records_distinct(
    desired: InterfacesModel,
    current: InterfacesModel,
    ignored: Seq<(Seq<char>, InterfaceType)>,
    allow_extra_ovs_patch_ports: bool,
    j: int,
    k: int,
)
    requires
        desired.wf(),
        current.wf(),
        0 <= j < MergedInterfacesModel::of(
            desired,
            current,
            ignored,
            allow_extra_ovs_patch_ports,
        ).all().len(),
        0 <= k < MergedInterfacesModel::of(
            desired,
            current,
            ignored,
            allow_extra_ovs_patch_ports,
        ).all().len(),
        j != k,
        MergedInterfacesModel::of(
            desired,
            current,
            ignored,
            allow_extra_ovs_patch_ports,
        ).all()[j].is_desired(),
        MergedInterfacesModel::of(
            desired,
            current,
            ignored,
            allow_extra_ovs_patch_ports,
        ).all()[k].is_desired(),
    ensures
        entry_identity(
            MergedInterfacesModel::of(
                desired,
                current,
                ignored,
                allow_extra_ovs_patch_ports,
            ).all()[j],
        ) != entry_identity(
            MergedInterfacesModel::of(
                desired,
                current,
                ignored,
                allow_extra_ovs_patch_ports,
            ).all()[k],
        ),
{
    let m = MergedInterfacesModel::of(desired, current, ignored, allow_extra_ovs_patch_ports);
    let d = desired.without_ignored(ignored);
    let c = current.without_ignored(ignored);
    lemma_without_ignored_wf(desired, ignored);
    lemma_without_ignored_wf(current, ignored);
    assert(distinct_in(d.kernel, false) && distinct_in(d.user, true));
    assert(distinct_in(c.kernel, false) && distinct_in(c.user, true));
    let nk = m.kernel.len();
    if j < nk {
        assert(m.all()[j] == m.kernel[j]);
        lemma_partition_record(d.kernel, c.kernel, false, j);
        let pj = desired_place(d.kernel, c.kernel, false, j);
        if k < nk {
            assert(m.all()[k] == m.kernel[k]);
            lemma_partition_record(d.kernel, c.kernel, false, k);
            if j < k {
                lemma_partition_places_differ(d.kernel, c.kernel, false, j, k);
            } else {
                lemma_partition_places_differ(d.kernel, c.kernel, false, k, j);
            }
        } else {
            assert(m.all()[k] == m.user[k - nk]);
            lemma_partition_record(d.user, c.user, true, k - nk);
            let pk = desired_place(d.user, c.user, true, k - nk);
            assert(!d.kernel[pj].is_userspace());
            assert(d.user[pk].is_userspace());
        }
    } else {
        assert(m.all()[j] == m.user[j - nk]);
        lemma_partition_record(d.user, c.user, true, j - nk);
        let pj = desired_place(d.user, c.user, true, j - nk);
        if k < nk {
            assert(m.all()[k] == m.kernel[k]);
            lemma_partition_record(d.kernel, c.kernel, false, k);
            let pk = desired_place(d.kernel, c.kernel, false, k);
            assert(d.user[pj].is_userspace());
            assert(!d.kernel[pk].is_userspace());
        } else {
            assert(m.all()[k] == m.user[k - nk]);
            lemma_partition_record(d.user, c.user, true, k - nk);
            if j < k {
                lemma_partition_places_differ(d.user, c.user, true, j - nk, k - nk);
            } else {
                lemma_partition_places_differ(d.user, c.user, true, k - nk, j - nk);
            }
        }
    }
}

/// Diff idempotence, for a whole reconciliation: merge what is asked for
/// with the state observed after the apply. Where the record at `k` is met
/// by what is observed, the difference holds no interface of its name and
/// kind.
pub proof fn lemma_gen_diff_settled_after_apply(
    desired: InterfacesModel,
    observed_after: InterfacesModel,
    ignored: Seq<(Seq<char>, InterfaceType)>,
    allow_extra_ovs_patch_ports: bool,
    k: int,
)
    requires
        desired.wf(),
        observed_after.wf(),
        0 <= k < MergedInterfacesModel::of(
            desired,
            observed_after,
            ignored,
            allow_extra_ovs_patch_ports,
        ).all().len(),
        is_met(
            MergedInterfacesModel::of(
                desired,
                observed_after,
                ignored,
                allow_extra_ovs_patch_ports,
            ).all()[k],
        ),
    ensures
        ({
            let records = MergedInterfacesModel::of(
                desired,
                observed_after,
                ignored,
                allow_extra_ovs_patch_ports,
            ).all();
            diff_fold(records, records.len()) matches Some(r) ==> !holds_identity(
                r,
                entry_identity(records[k]).0,
                entry_identity(records[k]).1,
            )
        }),
{
    let records = MergedInterfacesModel::of(
        desired,
        observed_after,
        ignored,
        allow_extra_ovs_patch_ports,
    ).all();
    assert(records[k].is_desired()) by {
        reveal(MergedModel::of);
        lemma_met_is_desired(desired, observed_after, ignored, allow_extra_ovs_patch_ports, k);
    }
    assert forall|j: int|
        0 <= j < records.len() && j != k && (#[trigger] records[j]).is_desired() implies entry_identity(
        records[j],
    ) != entry_identity(records[k]) by {
        lemma_records_distinct(desired, observed_after, ignored, allow_extra_ovs_patch_ports, j, k);
    }
    lemma_gen_diff_settled(records, k);
}

/// A record of a reconciliation that has an instruction is asked for.
proof fn lemma_met_is_desired(
    desired: InterfacesModel,
    current: InterfacesModel,
    ignored: Seq<(Seq<char>, InterfaceType)>,
    allow_extra_ovs_patch_ports: bool,
    k: int,
)
    requires
        0 <= k < MergedInterfacesModel::of(
            desired,
            current,
            ignored,
            allow_extra_ovs_patch_ports,
        ).all().len(),
        MergedInterfacesModel::of(
            desired,
            current,
            ignored,
            allow_extra_ovs_patch_ports,
        ).all()[k].for_apply is Some,
    ensures
        MergedInterfacesModel::of(
            desired,
            current,
            ignored,
            allow_extra_ovs_patch_ports,
        ).all()[k].is_desired(),
{
    reveal(MergedModel::of);
    let m = MergedInterfacesModel::of(desired, current, ignored, allow_extra_ovs_patch_ports);
    let d = desired.without_ignored(ignored);
    let c = current.without_ignored(ignored);
    lemma_merge_new(d.kernel, c.kernel, false);
    lemma_merge_new(d.user, c.user, true);
    if k < m.kernel.len() {
        assert(m.all()[k] == m.kernel[k]);
        if k < c.kernel.len() {
            assert(m.kernel[k] == merge_observed(d.kernel, c.kernel, false)[k]);
        } else {
            let at = new_places(d.kernel, c.kernel, false)[k - c.kernel.len()];
            assert(m.kernel[k] == MergedModel::of(Some(d.kernel[at]), None));
        }
    } else {
        let u = k - m.kernel.len();
        assert(m.all()[k] == m.user[u]);
        if u < c.user.len() {
            assert(m.user[u] == merge_observed(d.user, c.user, true)[u]);
        } else {
            let at = new_places(d.user, c.user, true)[u - c.user.len()];
            assert(m.user[u] == MergedModel::of(Some(d.user[at]), None));
        }
    }
}

} // verus!
