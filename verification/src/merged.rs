use crate::base::InterfaceType;
use crate::error::{ErrorKind, NipartError};
use crate::iface::{clone_opt_iface, Interface, InterfaceModel};
use crate::iface_ops::{invalid_trigger_text, BaseField};
use crate::ifaces::{
    at_place, find_iface, first_of, ovs_over_tun, Interfaces, InterfacesModel,
};
use crate::ifaces_clean::identities_view;
use crate::views::{clone_opt_string, opt_view, vec_view};
use vstd::prelude::*;

verus! {

/// The reconciliation record of one interface: what was asked for, what was
/// observed, and what follows from the two.
#[derive(Debug)]
pub struct MergedInterface {
    /// The observed interface with what was asked for laid over it.
    pub merged: Interface,
    /// What was asked for, if anything.
    pub desired: Option<Interface>,
    /// What was observed, if the interface exists.
    pub current: Option<Interface>,
    /// The instruction for the backend.
    pub for_apply: Option<Interface>,
    /// What is expected to be observed once the instruction is carried out.
    pub for_verify: Option<Interface>,
}

/// Mathematical model of a reconciliation record.
pub struct MergedModel {
    pub merged: InterfaceModel,
    pub desired: Option<InterfaceModel>,
    pub current: Option<InterfaceModel>,
    pub for_apply: Option<InterfaceModel>,
    pub for_verify: Option<InterfaceModel>,
}

impl View for MergedInterface {
    type V = MergedModel;

    open spec fn view(&self) -> MergedModel {
        MergedModel {
            merged: self.merged@,
            desired: opt_view(self.desired),
            current: opt_view(self.current),
            for_apply: opt_view(self.for_apply),
            for_verify: opt_view(self.for_verify),
        }
    }
}

/// Whether `desired` is an OVS interface whose device in the kernel,
/// `current`, is a TUN device.
pub open spec fn ovs_meets_tun(desired: InterfaceModel, current: InterfaceModel) -> bool {
    current.base.iface_type == InterfaceType::Tun && desired.base.iface_type
        == InterfaceType::OvsInterface && desired.specific is OvsInterface
}

/// The instruction for the backend: what was asked for, in normal form. An
/// OVS interface whose device in the kernel is a TUN device is built on the
/// identity and state of that device.
pub open spec fn for_apply_of(desired: InterfaceModel, current: Option<InterfaceModel>) -> InterfaceModel {
    match current {
        Some(c) => if ovs_meets_tun(desired, c) {
            ovs_over_tun(c, desired).sanitized()
        } else {
            desired.sanitized()
        },
        None => desired.sanitized(),
    }
}

/// What is expected after the apply: the instruction without what no
/// backend reports. Nothing is expected of hardware that is taken down.
pub open spec fn for_verify_of(for_apply: InterfaceModel) -> Option<InterfaceModel> {
    if for_apply.is_down() && !for_apply.is_virtual() {
        None
    } else {
        Some(for_apply.for_verify())
    }
}

/// The observed interface with what was asked for laid over it.
pub open spec fn merged_of(desired: Option<InterfaceModel>, current: InterfaceModel) -> InterfaceModel {
    match desired {
        Some(d) => if ovs_meets_tun(d, current) {
            ovs_over_tun(current, d)
        } else {
            current.updated(d)
        },
        None => current,
    }
}

impl MergedModel {
    /// The record of an interface that was asked for and observed, or one of
    /// the two.
    #[verifier::opaque]
    pub open spec fn of(desired: Option<InterfaceModel>, current: Option<InterfaceModel>) -> MergedModel
        recommends
            desired is Some || current is Some,
    {
        MergedModel {
            merged: match current {
                Some(c) => merged_of(desired, c),
                None => desired->0,
            },
            desired,
            current,
            for_apply: match desired {
                Some(d) => Some(for_apply_of(d, current)),
                None => None,
            },
            for_verify: match desired {
                Some(d) => for_verify_of(for_apply_of(d, current)),
                None => None,
            },
        }
    }

    /// Whether the interface was asked for.
    pub open spec fn is_desired(self) -> bool {
        self.desired is Some
    }

    /// Whether the instruction for the backend differs from what was
    /// observed.
    pub open spec fn is_changed(self) -> bool {
        self.for_apply is Some && self.for_apply != self.current
    }

    /// Whether the interface is to be gone.
    pub open spec fn is_absent(self) -> bool {
        self.merged.is_absent()
    }

    /// Whether asked for and observed are not both missing.
    pub open spec fn wf(self) -> bool {
        self.desired is Some || self.current is Some
    }
}

impl Clone for MergedInterface {
    fn clone(&self) -> (r: Self)
        ensures
            r@ == self@,
    {
        MergedInterface {
            merged: self.merged.clone(),
            desired: clone_opt_iface(&self.desired),
            current: clone_opt_iface(&self.current),
            for_apply: clone_opt_iface(&self.for_apply),
            for_verify: clone_opt_iface(&self.for_verify),
        }
    }
}

/// The record for an OVS interface whose device in the kernel is a TUN
/// device.
fn build_ovs_over_tun(tun: &Interface, ovs: &Interface) -> (r: Interface)
    requires
        ovs@.specific is OvsInterface,
    ensures
        r@ == ovs_over_tun(tun@, ovs@),
{
    let mut base = tun.base_iface().clone();
    base.state = ovs.base_iface().state;
    base.iface_type = InterfaceType::OvsInterface;
    base.controller = clone_opt_string(&ovs.base_iface().controller);
    base.controller_type = ovs.base_iface().controller_type;
    let mut new_iface = ovs.clone();
    let b = new_iface.base_iface_mut();
    *b = base;
    new_iface.update(ovs);
    new_iface
}

fn meets_tun(desired: &Interface, current: &Interface) -> (r: bool)
    ensures
        r == ovs_meets_tun(desired@, current@),
{
    current.iface_type() == InterfaceType::Tun && desired.iface_type()
        == InterfaceType::OvsInterface && matches!(desired, Interface::OvsInterface(_))
}

/// What is said of a record without an interface.
pub open spec fn nothing_to_merge_text() -> Seq<char> {
    "Got both desired and current interface set to none"@
}

/// The observed interface with what was asked for laid over it.
fn merged_iface(desired: &Option<Interface>, current: &Interface) -> (r: Interface)
    ensures
        r@ == merged_of(opt_view(*desired), current@),
{
    match desired {
        Some(d) => {
            if meets_tun(d, current) {
                build_ovs_over_tun(current, d)
            } else {
                let mut m = current.clone();
                m.update(d);
                m
            }
        },
        None => current.clone(),
    }
}

/// The instruction for the backend, for a `desired` that holds no trigger
/// that cannot be.
fn apply_iface(desired: &Interface, current: &Option<Interface>) -> (r: Interface)
    ensures
        r@ == for_apply_of(desired@, opt_view(*current)),
{
    match current {
        Some(c) => {
            if meets_tun(desired, c) {
                let mut a = build_ovs_over_tun(c, desired);
                let _ = a.sanitize(false);
                a
            } else {
                let mut a = desired.clone();
                let _ = a.sanitize(false);
                a
            }
        },
        None => {
            let mut a = desired.clone();
            let _ = a.sanitize(false);
            a
        },
    }
}

/// What is expected to be observed after the apply.
fn verify_iface(for_apply: &Interface) -> (r: Option<Interface>)
    ensures
        opt_view(r) == for_verify_of(for_apply@),
{
    if for_apply.is_down() && !for_apply.is_virtual() {
        None
    } else {
        let mut v = for_apply.clone();
        v.sanitize_desired_for_verify();
        Some(v)
    }
}

/// Whether the record holds a trigger that cannot be.
fn has_invalid_trigger(i: &Interface) -> (r: bool)
    ensures
        r == i@.has_invalid_trigger(),
{
    let mut probe = i.clone();
    probe.sanitize(true).is_err()
}

impl MergedInterface {
    /// The record of an interface that was asked for, `desired`, and
    /// observed, `current`. Fails with `Bug` where both are missing, and
    /// with `InvalidArgument` where `desired` holds a trigger that cannot
    /// be.
    pub fn new(desired: Option<Interface>, current: Option<Interface>) -> (r: Result<
        Self,
        NipartError,
    >)
        ensures
            match r {
                Ok(m) => (desired is Some || current is Some) && !(desired matches Some(d)
                    && d@.has_invalid_trigger()) && m@.wf() && m@ == MergedModel::of(
                    opt_view(desired),
                    opt_view(current),
                ),
                Err(e) => if desired is None && current is None {
                    e.kind == ErrorKind::Bug && e.msg@ == nothing_to_merge_text()
                } else {
                    desired matches Some(d) && d@.has_invalid_trigger() && e.kind
                        == ErrorKind::InvalidArgument && e.msg@ == invalid_trigger_text()
                },
            },
    {
        proof {
            reveal(MergedModel::of);
        }
        let merged = match (&desired, &current) {
            (_, Some(c)) => merged_iface(&desired, c),
            (Some(d), None) => d.clone(),
            (None, None) => {
                return Err(
                    NipartError::new(
                        ErrorKind::Bug,
                        "Got both desired and current interface set to none".to_owned(),
                    ),
                );
            },
        };
        let for_apply = match &desired {
            Some(d) => {
                if has_invalid_trigger(d) {
                    return Err(
                        NipartError::new(
                            ErrorKind::InvalidArgument,
                            "The trigger wifi-up-not does not take the SSID *, use never instead".to_owned(),
                        ),
                    );
                }
                Some(apply_iface(d, &current))
            },
            None => None,
        };
        let for_verify = match &for_apply {
            Some(a) => verify_iface(a),
            None => None,
        };
        Ok(MergedInterface { merged, desired, current, for_apply, for_verify })
    }

    /// Whether the interface was asked for.
    pub fn is_desired(&self) -> (r: bool)
        ensures
            r == self@.is_desired(),
    {
        self.desired.is_some()
    }

    /// Whether the instruction for the backend differs from what was
    /// observed.
    pub fn is_changed(&self) -> (r: bool)
        ensures
            r == self@.is_changed(),
    {
        match (&self.for_apply, &self.current) {
            (Some(a), Some(c)) => *a != *c,
            (Some(_), None) => true,
            _ => false,
        }
    }

    /// Whether the interface is to be gone.
    pub fn is_absent(&self) -> (r: bool)
        ensures
            r == self@.is_absent(),
    {
        self.merged.is_absent()
    }
}


/// The reconciliation records of a state, in the two partitions of its
/// interfaces, with the policy of the reconciliation.
#[derive(Debug)]
pub struct MergedInterfaces {
    pub kernel_ifaces: Vec<MergedInterface>,
    pub user_ifaces: Vec<MergedInterface>,
    /// The interfaces kept out of merging and verification, by name and
    /// kind.
    pub ignored_ifaces: Vec<(String, InterfaceType)>,
    /// Whether an observed OVS bridge may hold patch ports that were not
    /// asked for.
    pub allow_extra_ovs_patch_ports: bool,
    /// The settings that the backend in use does not control, and that are
    /// left out of verification. None, until the caller names some.
    pub uncontrolled_fields: Vec<BaseField>,
}

/// Mathematical model of the reconciliation records of a state.
pub struct MergedInterfacesModel {
    pub kernel: Seq<MergedModel>,
    pub user: Seq<MergedModel>,
    pub ignored: Seq<(Seq<char>, InterfaceType)>,
    pub allow_extra_ovs_patch_ports: bool,
    pub uncontrolled_fields: Seq<BaseField>,
}

impl View for MergedInterfaces {
    type V = MergedInterfacesModel;

    open spec fn view(&self) -> MergedInterfacesModel {
        MergedInterfacesModel {
            kernel: vec_view(self.kernel_ifaces),
            user: vec_view(self.user_ifaces),
            ignored: identities_view(self.ignored_ifaces),
            allow_extra_ovs_patch_ports: self.allow_extra_ovs_patch_ports,
            uncontrolled_fields: self.uncontrolled_fields@,
        }
    }
}

/// The kind by which an interface is found in its partition: none in the
/// kernel's.
pub open spec fn kind_key(i: InterfaceModel, by_kind: bool) -> Option<InterfaceType> {
    if by_kind {
        Some(i.base.iface_type)
    } else {
        None
    }
}

/// The records of the observed interfaces `c`, each with the interface of
/// its identity in `d`, where there is one, as what was asked for.
pub open spec fn merge_observed(d: Seq<InterfaceModel>, c: Seq<InterfaceModel>, by_kind: bool) -> Seq<
    MergedModel,
> {
    Seq::new(
        c.len(),
        |j: int|
            MergedModel::of(
                at_place(d, first_of(d, c[j].base.name, kind_key(c[j], by_kind))),
                Some(c[j]),
            ),
    )
}

/// The records of the interfaces of `d`, in order, that were not observed
/// in `c`.
pub open spec fn merge_new(d: Seq<InterfaceModel>, c: Seq<InterfaceModel>, by_kind: bool) -> Seq<
    MergedModel,
>
    decreases d.len(),
{
    if d.len() == 0 {
        Seq::empty()
    } else if first_of(c, d.last().base.name, kind_key(d.last(), by_kind)) is None {
        merge_new(d.drop_last(), c, by_kind).push(MergedModel::of(Some(d.last()), None))
    } else {
        merge_new(d.drop_last(), c, by_kind)
    }
}

/// The records of a partition: those of the observed interfaces, in their
/// order, then those of the interfaces that were asked for and not
/// observed.
pub open spec fn merge_partition(d: Seq<InterfaceModel>, c: Seq<InterfaceModel>, by_kind: bool) -> Seq<
    MergedModel,
> {
    merge_observed(d, c, by_kind) + merge_new(d, c, by_kind)
}

/// Whether some interface of `s` holds a trigger that cannot be.
pub open spec fn some_invalid_trigger(s: Seq<InterfaceModel>) -> bool {
    exists|i: int| 0 <= i < s.len() && (#[trigger] s[i]).has_invalid_trigger()
}

impl MergedInterfacesModel {
    /// The records of the interfaces asked for, `desired`, and observed,
    /// `current`, but for those that `ignored` names.
    pub open spec fn of(
        desired: InterfacesModel,
        current: InterfacesModel,
        ignored: Seq<(Seq<char>, InterfaceType)>,
        allow_extra_ovs_patch_ports: bool,
    ) -> MergedInterfacesModel {
        let d = desired.without_ignored(ignored);
        let c = current.without_ignored(ignored);
        MergedInterfacesModel {
            kernel: merge_partition(d.kernel, c.kernel, false),
            user: merge_partition(d.user, c.user, true),
            ignored,
            allow_extra_ovs_patch_ports,
            uncontrolled_fields: Seq::empty(),
        }
    }

    /// All records: the kernel's, then those beside the kernel's.
    pub open spec fn all(self) -> Seq<MergedModel> {
        self.kernel + self.user
    }
}

/// A copy of the records `v`.
pub fn clone_records(v: &Vec<MergedInterface>) -> (r: Vec<MergedInterface>)
    ensures
        vec_view(r) == vec_view(*v),
{
    let mut r: Vec<MergedInterface> = Vec::new();
    let mut i: usize = 0;
    while i < v.len()
        invariant
            i <= v.len(),
            r.len() == i,
            forall|j: int| 0 <= j < i ==> (#[trigger] r[j])@ == v[j]@,
        decreases v.len() - i,
    {
        r.push(v[i].clone());
        i += 1;
    }
    assert(vec_view(r) =~= vec_view(*v));
    r
}

/// A copy of a list of names and kinds.
pub fn clone_identities(v: &Vec<(String, InterfaceType)>) -> (r: Vec<(String, InterfaceType)>)
    ensures
        identities_view(r) == identities_view(*v),
{
    let mut r: Vec<(String, InterfaceType)> = Vec::new();
    let mut i: usize = 0;
    while i < v.len()
        invariant
            i <= v.len(),
            r.len() == i,
            forall|j: int| 0 <= j < i ==> (#[trigger] r[j]).0@ == v[j].0@ && r[j].1 == v[j].1,
        decreases v.len() - i,
    {
        r.push((v[i].0.clone(), v[i].1));
        i += 1;
    }
    assert(identities_view(r) =~= identities_view(*v));
    r
}

impl Clone for MergedInterfaces {
    fn clone(&self) -> (r: Self)
        ensures
            r@ == self@,
    {
        MergedInterfaces {
            kernel_ifaces: clone_records(&self.kernel_ifaces),
            user_ifaces: clone_records(&self.user_ifaces),
            ignored_ifaces: clone_identities(&self.ignored_ifaces),
            allow_extra_ovs_patch_ports: self.allow_extra_ovs_patch_ports,
            uncontrolled_fields: self.uncontrolled_fields.clone(),
        }
    }
}

/// Whether some interface of `v` holds a trigger that cannot be.
fn any_invalid_trigger(v: &Vec<Interface>) -> (r: bool)
    ensures
        r == some_invalid_trigger(vec_view(*v)),
{
    let mut i: usize = 0;
    while i < v.len()
        invariant
            i <= v.len(),
            forall|j: int| 0 <= j < i ==> !(#[trigger] vec_view(*v)[j]).has_invalid_trigger(),
        decreases v.len() - i,
    {
        assert(vec_view(*v)[i as int] == v[i as int]@);
        if has_invalid_trigger(&v[i]) {
            return true;
        }
        i += 1;
    }
    false
}

/// The records of one partition.
fn merge_ifaces(d: &Vec<Interface>, c: &Vec<Interface>, by_kind: bool) -> (r: Result<
    Vec<MergedInterface>,
    NipartError,
>)
    requires
        !some_invalid_trigger(vec_view(*d)),
    ensures
        r matches Ok(v) && vec_view(v) == merge_partition(vec_view(*d), vec_view(*c), by_kind),
{
    let ghost ds = vec_view(*d);
    let ghost cs = vec_view(*c);
    let mut out: Vec<MergedInterface> = Vec::new();
    let mut j: usize = 0;
    assert(vec_view(out) =~= merge_observed(ds, cs, by_kind).take(0));
    while j < c.len()
        invariant
            j <= c.len(),
            ds == vec_view(*d),
            cs == vec_view(*c),
            !some_invalid_trigger(ds),
            vec_view(out) == merge_observed(ds, cs, by_kind).take(j as int),
        decreases c.len() - j,
    {
        assert(cs[j as int] == c[j as int]@);
        let t = if by_kind {
            Some(c[j].iface_type())
        } else {
            None
        };
        let desired = match find_iface(d, c[j].name(), t) {
            Some(at) => {
                assert(ds[at as int] == d[at as int]@);
                assert(!ds[at as int].has_invalid_trigger());
                Some(d[at].clone())
            },
            None => None,
        };
        let record = MergedInterface::new(desired, Some(c[j].clone()));
        let ghost before = vec_view(out);
        match record {
            Ok(m) => {
                out.push(m);
                assert(vec_view(out) =~= before.push(m@));
                assert(vec_view(out) =~= merge_observed(ds, cs, by_kind).take(j + 1));
            },
            Err(e) => {
                return Err(e);
            },
        }
        j += 1;
    }
    assert(merge_observed(ds, cs, by_kind).take(j as int) =~= merge_observed(ds, cs, by_kind));
    let mut k: usize = 0;
    assert(ds.take(0) =~= Seq::<InterfaceModel>::empty());
    assert(vec_view(out) =~= merge_observed(ds, cs, by_kind) + merge_new(ds.take(0), cs, by_kind));
    while k < d.len()
        invariant
            k <= d.len(),
            ds == vec_view(*d),
            cs == vec_view(*c),
            !some_invalid_trigger(ds),
            vec_view(out) == merge_observed(ds, cs, by_kind) + merge_new(
                ds.take(k as int),
                cs,
                by_kind,
            ),
        decreases d.len() - k,
    {
        proof {
            assert(ds.take(k + 1).drop_last() =~= ds.take(k as int));
            assert(ds.take(k + 1).last() == d[k as int]@);
            assert(ds[k as int] == d[k as int]@);
            assert(!ds[k as int].has_invalid_trigger());
        }
        let t = if by_kind {
            Some(d[k].iface_type())
        } else {
            None
        };
        if find_iface(c, d[k].name(), t).is_none() {
            let record = MergedInterface::new(Some(d[k].clone()), None);
            let ghost before = vec_view(out);
            match record {
                Ok(m) => {
                    out.push(m);
                    assert(vec_view(out) =~= before.push(m@));
                    assert(vec_view(out) =~= merge_observed(ds, cs, by_kind) + merge_new(
                        ds.take(k + 1),
                        cs,
                        by_kind,
                    ));
                },
                Err(e) => {
                    return Err(e);
                },
            }
        }
        k += 1;
    }
    assert(ds.take(k as int) =~= ds);
    Ok(out)
}

impl MergedInterfaces {
    /// The records of the interfaces asked for, `desired`, and observed,
    /// `current`, but for those that `ignored` names. Fails with
    /// `InvalidArgument` where an interface that is asked for, and not
    /// ignored, holds a trigger that cannot be.
    pub fn new(
        desired: Interfaces,
        current: Interfaces,
        ignored: Vec<(String, InterfaceType)>,
        allow_extra_ovs_patch_ports: bool,
    ) -> (r: Result<Self, NipartError>)
        ensures
            match r {
                Ok(m) => !some_invalid_trigger(
                    desired@.without_ignored(identities_view(ignored)).all(),
                ) && m@ == MergedInterfacesModel::of(
                    desired@,
                    current@,
                    identities_view(ignored),
                    allow_extra_ovs_patch_ports,
                ),
                Err(e) => some_invalid_trigger(
                    desired@.without_ignored(identities_view(ignored)).all(),
                ) && e.kind == ErrorKind::InvalidArgument && e.msg@ == invalid_trigger_text(),
            },
    {
        let mut desired = desired;
        let mut current = current;
        desired.remove_ignored_ifaces(&ignored);
        current.remove_ignored_ifaces(&ignored);
        let d_kernel = desired.kernel_ifaces();
        let d_user = desired.user_ifaces();
        let ghost all = desired@.all();
        if any_invalid_trigger(d_kernel) {
            proof {
                let i = choose|i: int|
                    0 <= i < desired@.kernel.len() && (
                    #[trigger] desired@.kernel[i]).has_invalid_trigger();
                assert(all[i] == desired@.kernel[i]);
            }
            return Err(
                NipartError::new(
                    ErrorKind::InvalidArgument,
                    "The trigger wifi-up-not does not take the SSID *, use never instead".to_owned(),
                ),
            );
        }
        if any_invalid_trigger(d_user) {
            proof {
                let i = choose|i: int|
                    0 <= i < desired@.user.len() && (
                    #[trigger] desired@.user[i]).has_invalid_trigger();
                assert(all[desired@.kernel.len() + i] == desired@.user[i]);
            }
            return Err(
                NipartError::new(
                    ErrorKind::InvalidArgument,
                    "The trigger wifi-up-not does not take the SSID *, use never instead".to_owned(),
                ),
            );
        }
        proof {
            if some_invalid_trigger(all) {
                let i = choose|i: int| 0 <= i < all.len() && (#[trigger] all[i]).has_invalid_trigger();
                if i < desired@.kernel.len() {
                    assert(desired@.kernel[i].has_invalid_trigger());
                } else {
                    assert(desired@.user[i - desired@.kernel.len()].has_invalid_trigger());
                }
            }
        }
        let kernel_ifaces = match merge_ifaces(d_kernel, current.kernel_ifaces(), false) {
            Ok(v) => v,
            Err(e) => {
                return Err(e);
            },
        };
        let user_ifaces = match merge_ifaces(d_user, current.user_ifaces(), true) {
            Ok(v) => v,
            Err(e) => {
                return Err(e);
            },
        };
        Ok(
            MergedInterfaces {
                kernel_ifaces,
                user_ifaces,
                ignored_ifaces: ignored,
                allow_extra_ovs_patch_ports,
                uncontrolled_fields: Vec::new(),
            },
        )
    }

    /// A copy of all records: the kernel's, then those beside the kernel's.
    pub fn to_vec(&self) -> (r: Vec<MergedInterface>)
        ensures
            vec_view(r) == self@.all(),
    {
        let mut r = clone_records(&self.kernel_ifaces);
        let mut j: usize = 0;
        while j < self.user_ifaces.len()
            invariant
                j <= self.user_ifaces.len(),
                vec_view(r) == self@.kernel + self@.user.take(j as int),
            decreases self.user_ifaces.len() - j,
        {
            let ghost before = vec_view(r);
            r.push(self.user_ifaces[j].clone());
            assert(vec_view(r) =~= before.push(self.user_ifaces[j as int]@));
            assert(vec_view(r) =~= self@.kernel + self@.user.take(j + 1));
            j += 1;
        }
        assert(self@.user.take(j as int) =~= self@.user);
        r
    }
}

} // verus!
