use crate::base::{BaseModel, ChangeContext, InterfaceType};
use crate::codec::{iface_decode, iface_encode, not_an_interface};
use crate::error::{ErrorKind, NipartError};
use crate::iface::{Interface, InterfaceModel};
use crate::ifaces::{Interfaces, InterfacesModel};
use crate::merged::{MergedInterface, MergedInterfaces, MergedModel};
use crate::json::Json;
use crate::value::{gen_diff_json_value, json_diff, json_merge, merge_json_value};
use crate::value_laws::lemma_diff_applied_leaves_none;
use crate::views::vec_view;
use vstd::prelude::*;

verus! {

/// The record that a difference starts from: the identity of `apply` and
/// its state.
pub open spec fn diff_skeleton(apply: InterfaceModel) -> InterfaceModel {
    InterfaceModel {
        base: BaseModel { state: apply.base.state, ..apply.name_type_only().base },
        specific: apply.name_type_only().specific,
    }
}

/// What one reconciliation record adds to the difference of a state.
pub enum DiffEntry {
    /// Nothing: the interface is not asked for, or is as asked for.
    Nothing,
    /// A record of what is to change.
    Record(InterfaceModel),
    /// The difference is no well-formed interface.
    Fault,
}

/// What is to change on the observed interface `cur`, in normal form, to
/// meet the instruction `apply`: the identity and the state of the
/// instruction with the settings that `cur` does not meet, noted as worked
/// out against the state of `cur`.
pub open spec fn changed_record(apply: InterfaceModel, cur: InterfaceModel) -> DiffEntry {
    match json_diff(iface_encode(apply), iface_encode(cur)) {
        None => DiffEntry::Nothing,
        Some(x) => match iface_decode(json_merge(iface_encode(diff_skeleton(apply)), x)) {
            Some(n) => DiffEntry::Record(
                n.with_context(
                    ChangeContext { current_state: cur.base.state, desired_state: None },
                ),
            ),
            None => DiffEntry::Fault,
        },
    }
}

/// What the record `m` adds to the difference of its state.
///
/// An interface that is asked for, and not equal to what was observed, is
/// compared with the observed interface in normal form. Where nothing was
/// observed the difference is what was asked for, as it stands.
pub open spec fn diff_entry(m: MergedModel) -> DiffEntry {
    if !(m.is_desired() && m.desired != m.current) {
        DiffEntry::Nothing
    } else {
        match (m.for_apply, m.current) {
            (None, _) => DiffEntry::Nothing,
            (Some(_), None) => DiffEntry::Record(m.desired->0),
            (Some(a), Some(c)) => changed_record(a, c.sanitized()),
        }
    }
}

/// The difference that the first `n` records of `records` make, one put in
/// after the other, or none where one of them is at fault.
pub open spec fn diff_fold(records: Seq<MergedModel>, n: nat) -> Option<InterfacesModel>
    decreases n,
{
    if n == 0 || n > records.len() {
        Some(InterfacesModel::empty())
    } else {
        match diff_fold(records, (n - 1) as nat) {
            None => None,
            Some(acc) => match diff_entry(records[n - 1]) {
                DiffEntry::Nothing => Some(acc),
                DiffEntry::Record(i) => Some(acc.pushed(i)),
                DiffEntry::Fault => None,
            },
        }
    }
}

/// Diff idempotence: once the difference of a record has been applied to
/// the observed interface exactly, so that the interface then observed is
/// the old one with the difference laid over it, the record adds nothing to
/// the difference any more.
pub proof fn lemma_diff_settles(m: MergedModel, observed_after: InterfaceModel)
    requires
        m.for_apply is Some,
        m.current is Some,
        json_diff(iface_encode(m.for_apply->0), iface_encode(m.current->0.sanitized())) matches Some(
            x,
        ) && iface_encode(observed_after.sanitized()) == json_merge(
            iface_encode(m.current->0.sanitized()),
            x,
        ),
    ensures
        diff_entry(MergedModel { current: Some(observed_after), ..m }) is Nothing,
{
    lemma_diff_applied_leaves_none(
        iface_encode(m.for_apply->0),
        iface_encode(m.current->0.sanitized()),
    );
}

/// The record that a difference starts from.
fn skeleton_of(des_iface: &Interface) -> (r: Interface)
    ensures
        r@ == diff_skeleton(des_iface@),
{
    let mut new_iface = des_iface.clone_name_type_only();
    new_iface.base_iface_mut().state = des_iface.base_iface().state;
    new_iface
}

/// What is to change on `cur_iface` to meet `des_iface`: `Ok(None)` for
/// nothing.
fn changed_against(des_iface: &Interface, cur_iface: &Interface) -> (r: Result<
    Option<Interface>,
    NipartError,
>)
    ensures
        match r {
            Ok(None) => changed_record(des_iface@, cur_iface@) is Nothing,
            Ok(Some(i)) => changed_record(des_iface@, cur_iface@) == DiffEntry::Record(i@),
            Err(e) => changed_record(des_iface@, cur_iface@) is Fault
                && e.kind == ErrorKind::StructuralError
                && e.msg@ == not_an_interface(),
        },
{
    let desired_value = des_iface.to_value();
    let current_value = cur_iface.to_value();
    match gen_diff_json_value(&desired_value, &current_value) {
        Some(diff_value) => {
            let mut new_iface_value = skeleton_of(des_iface).to_value();
            merge_json_value(&mut new_iface_value, &diff_value);
            match Interface::from_value(&new_iface_value) {
                Ok(i) => {
                    let mut new_iface = i;
                    new_iface.include_diff_context(cur_iface);
                    Ok(Some(new_iface))
                },
                Err(e) => Err(e),
            }
        },
        None => Ok(None),
    }
}

/// The observed interface in normal form.
fn sanitized_copy(i: &Interface) -> (r: Interface)
    ensures
        r@ == i@.sanitized(),
{
    let mut cur_iface = i.clone();
    let _ = cur_iface.sanitize(false);
    cur_iface
}

/// What the record adds to a difference: `Ok(None)` for nothing.
fn record_diff(m: &MergedInterface) -> (r: Result<Option<Interface>, NipartError>)
    ensures
        match r {
            Ok(None) => diff_entry(m@) is Nothing,
            Ok(Some(i)) => diff_entry(m@) == DiffEntry::Record(i@),
            Err(e) => diff_entry(m@) is Fault
                && e.kind == ErrorKind::StructuralError
                && e.msg@ == not_an_interface(),
        },
{
    if !(m.is_desired() && m.desired != m.current) {
        return Ok(None);
    }
    match (&m.for_apply, &m.current) {
        (None, _) => Ok(None),
        (Some(_), None) => match &m.desired {
            Some(origin_des_iface) => Ok(Some(origin_des_iface.clone())),
            None => Ok(None),
        },
        (Some(des_iface), Some(i)) => {
            let cur_iface = sanitized_copy(i);
            changed_against(des_iface, &cur_iface)
        },
    }
}

/// The difference that the records make, one put in after the other.
fn diff_of_records(records: &Vec<MergedInterface>) -> (r: Result<Interfaces, NipartError>)
    ensures
        match r {
            Ok(ifaces) => diff_fold(vec_view(*records), records.len() as nat) == Some(ifaces@),
            Err(e) => diff_fold(vec_view(*records), records.len() as nat) is None
                && e.kind == ErrorKind::StructuralError
                && e.msg@ == not_an_interface(),
        },
{
    let mut ret = Interfaces::new();
    let ghost all = vec_view(*records);
    let mut i: usize = 0;
    while i < records.len()
        invariant
            i <= records.len(),
            all == vec_view(*records),
            diff_fold(all, i as nat) == Some(ret@),
        decreases records.len() - i,
    {
        assert(all[i as int] == records[i as int]@);
        match record_diff(&records[i]) {
            Ok(Some(iface)) => {
                ret.push(iface);
            },
            Ok(None) => {},
            Err(e) => {
                proof {
                    assert(diff_fold(all, (i + 1) as nat) is None);
                    lemma_diff_fold_fault(all, (i + 1) as nat, all.len());
                }
                return Err(e);
            },
        }
        i += 1;
    }
    Ok(ret)
}

impl MergedInterfaces {
    /// The difference of the state: for each interface that is asked for
    /// and not as observed, a record of what is to change, in the order of
    /// the reconciliation records. Fails with `StructuralError` where what
    /// is to change is no well-formed interface.
    pub fn gen_diff(&self) -> (r: Result<Interfaces, NipartError>)
        ensures
            match r {
                Ok(ifaces) => diff_fold(self@.all(), self@.all().len()) == Some(ifaces@),
                Err(e) => diff_fold(self@.all(), self@.all().len()) is None
                    && e.kind == ErrorKind::StructuralError
                    && e.msg@ == not_an_interface(),
            },
    {
        let records = self.to_vec();
        diff_of_records(&records)
    }
}

/// A fault stays a fault however many more records are gone through.
pub proof fn lemma_diff_fold_fault(records: Seq<MergedModel>, n: nat, k: nat)
    requires
        n <= k <= records.len(),
        diff_fold(records, n) is None,
    ensures
        diff_fold(records, k) is None,
    decreases k,
{
    if k > n {
        lemma_diff_fold_fault(records, n, (k - 1) as nat);
    }
}


/// Whether the interfaces hold one of the name and the kind.
pub open spec fn holds_identity(r: InterfacesModel, name: Seq<char>, t: InterfaceType) -> bool {
    exists|i: int|
        0 <= i < r.all().len() && (#[trigger] r.all()[i]).base.name == name
            && r.all()[i].base.iface_type == t
}

/// Whether what the record adds to a difference is a record of the name and
/// the kind.
pub open spec fn adds_identity(m: MergedModel, name: Seq<char>, t: InterfaceType) -> bool {
    diff_entry(m) is Record && diff_entry(m)->Record_0.base.name == name && diff_entry(
        m,
    )->Record_0.base.iface_type == t
}

/// Whether the record is met: its instruction asks for nothing that the
/// observed interface, in normal form, does not hold.
pub open spec fn is_met(m: MergedModel) -> bool {
    m.for_apply is Some && m.current is Some && json_diff(
        iface_encode(m.for_apply->0),
        iface_encode(m.current->0.sanitized()),
    ) is None
}

/// A record that is met adds nothing to the difference.
pub proof fn lemma_met_adds_nothing(m: MergedModel)
    requires
        is_met(m),
    ensures
        diff_entry(m) is Nothing,
{
}

/// A difference holds no interface of a name and kind that none of its
/// records adds.
pub proof fn lemma_diff_lacks_identity(
    records: Seq<MergedModel>,
    n: nat,
    name: Seq<char>,
    t: InterfaceType,
)
    requires
        forall|j: int| 0 <= j < n && j < records.len() ==> !adds_identity(#[trigger] records[j], name, t),
    ensures
        diff_fold(records, n) matches Some(r) ==> !holds_identity(r, name, t),
    decreases n,
{
    if n == 0 || n > records.len() {
        assert(InterfacesModel::empty().all() =~= Seq::<InterfaceModel>::empty());
    } else {
        lemma_diff_lacks_identity(records, (n - 1) as nat, name, t);
        match diff_fold(records, (n - 1) as nat) {
            None => {},
            Some(acc) => {
                assert(!adds_identity(records[n - 1], name, t));
                match diff_entry(records[n - 1]) {
                    DiffEntry::Record(x) => {
                        let r = acc.pushed(x);
                        crate::ifaces::lemma_put_in_members(acc.kernel, x, false);
                        crate::ifaces::lemma_put_in_members(acc.user, x, true);
                        if holds_identity(r, name, t) {
                            let i = choose|i: int|
                                0 <= i < r.all().len() && (#[trigger] r.all()[i]).base.name == name
                                    && r.all()[i].base.iface_type == t;
                            let found = r.all()[i];
                            if found != x {
                                if i < r.kernel.len() {
                                    assert(r.kernel[i] == found);
                                    assert(acc.kernel[i] == found);
                                    assert(acc.all()[i] == found);
                                } else {
                                    let u = i - r.kernel.len();
                                    assert(r.user[u] == found);
                                    assert(acc.user[u] == found);
                                    assert(acc.all()[acc.kernel.len() + u] == found);
                                }
                                assert(holds_identity(acc, name, t));
                            }
                        }
                    },
                    _ => {},
                }
            },
        }
    }
}


/// What is to change on an interface has the name and the kind of the
/// instruction.
pub proof fn lemma_changed_record_identity(apply: InterfaceModel, cur: InterfaceModel)
    ensures
        changed_record(apply, cur) matches DiffEntry::Record(x) ==> x.base.name == apply.base.name
            && x.base.iface_type == apply.base.iface_type,
{
    reveal(iface_encode);
    reveal(iface_decode);
    crate::codec_laws::lemma_keys_differ();
    crate::base::lemma_type_name_round_trip(apply.base.iface_type);
    let d = iface_encode(apply);
    let c = iface_encode(cur);
    let start = iface_encode(diff_skeleton(apply));
    match json_diff(d, c) {
        None => {},
        Some(x) => {
            let dm = d->Object_0;
            let sm = start->Object_0;
            let name = Json::Text(apply.base.name);
            let kind = Json::Text(apply.base.iface_type.name());
            assert(crate::codec::base_entries(apply.base)["name"@] == name);
            assert(crate::codec::base_entries(apply.base)["type"@] == kind);
            assert(dm["name"@] == name && dm["type"@] == kind);
            assert(crate::codec::base_entries(diff_skeleton(apply).base)["name"@] == name);
            assert(crate::codec::base_entries(diff_skeleton(apply).base)["type"@] == kind);
            assert(sm["name"@] == name && sm["type"@] == kind);
            let xm = crate::value::diff_entries(d, c);
            assert(x == Json::Object(xm));
            let merged = json_merge(start, x);
            let mm = crate::value::merge_entries(start, x);
            assert(merged == Json::Object(mm));
            assert(xm.dom().contains("name"@) ==> xm["name"@] == name);
            assert(xm.dom().contains("type"@) ==> xm["type"@] == kind);
            assert(mm["name"@] == name);
            assert(mm["type"@] == kind);
        },
    }
}

/// The name and the kind of what a record adds to a difference, where it
/// adds a record: those of its instruction, or, where nothing was observed,
/// of what was asked for.
pub open spec fn entry_identity(m: MergedModel) -> (Seq<char>, InterfaceType) {
    match m.current {
        Some(_) => (m.for_apply->0.base.name, m.for_apply->0.base.iface_type),
        None => (m.desired->0.base.name, m.desired->0.base.iface_type),
    }
}

/// What a record adds to a difference has the name and the kind that
/// `entry_identity` gives.
pub proof fn lemma_entry_identity(m: MergedModel)
    ensures
        diff_entry(m) matches DiffEntry::Record(x) ==> (x.base.name, x.base.iface_type)
            == entry_identity(m),
{
    if m.for_apply is Some && m.current is Some {
        lemma_changed_record_identity(m.for_apply->0, m.current->0.sanitized());
    }
}

/// Diff idempotence, for the whole difference: where the record at `k` is
/// met by what is observed after the apply, and no other record that is
/// asked for is of its name and kind, the difference holds no interface of
/// that name and kind.
pub proof fn lemma_gen_diff_settled(records: Seq<MergedModel>, k: int)
    requires
        0 <= k < records.len(),
        is_met(records[k]),
        forall|j: int|
            0 <= j < records.len() && j != k && (#[trigger] records[j]).is_desired()
                ==> entry_identity(records[j]) != entry_identity(records[k]),
    ensures
        diff_fold(records, records.len()) matches Some(r) ==> !holds_identity(
            r,
            entry_identity(records[k]).0,
            entry_identity(records[k]).1,
        ),
{
    let id = entry_identity(records[k]);
    assert forall|j: int| 0 <= j < records.len() implies !adds_identity(
        #[trigger] records[j],
        id.0,
        id.1,
    ) by {
        lemma_entry_identity(records[j]);
        if j == k {
            lemma_met_adds_nothing(records[k]);
        }
    }
    lemma_diff_lacks_identity(records, records.len(), id.0, id.1);
}

/// Diff idempotence, for a state that is met throughout: where every
/// record that is asked for is met by what is observed after the apply, the
/// difference is empty.
pub proof fn lemma_gen_diff_empty(records: Seq<MergedModel>, n: nat)
    requires
        n <= records.len(),
        forall|j: int|
            0 <= j < n ==> !(#[trigger] records[j]).is_desired() || is_met(records[j]),
    ensures
        diff_fold(records, n) == Some(InterfacesModel::empty()),
    decreases n,
{
    if n > 0 {
        lemma_gen_diff_empty(records, (n - 1) as nat);
        let m = records[n - 1];
        if m.is_desired() {
            lemma_met_adds_nothing(m);
        }
    }
}

} // verus!
