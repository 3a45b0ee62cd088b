use crate::base::{BaseModel, ChangeContext, InterfaceState};
use crate::codec::{base_entries, iface_decode, iface_encode, not_an_interface};
use crate::codec_laws::{
    lemma_contained_iface, lemma_iface_round_trip, lemma_keys_differ, without_context,
};
use crate::error::{ErrorKind, NipartError};
use crate::iface::{Interface, InterfaceModel};
use crate::json::Json;
use crate::merged::{MergedInterface, MergedModel};
use crate::value::{gen_revert_state, json_merge, json_revert};
use crate::value_laws::{
    json_agrees, json_contained, json_keys_within, json_strip, lemma_agrees_with_itself,
    lemma_revert_contained, lemma_revert_is_desired, lemma_revert_round_trip,
    revert_start_covered, revert_start_within,
};
use vstd::prelude::*;

verus! {

/// The record that a revert starts from: the identity of the observed
/// interface and its state.
pub open spec fn revert_skeleton(current: InterfaceModel) -> InterfaceModel {
    InterfaceModel {
        base: BaseModel { state: current.base.state, ..current.name_type_only().base },
        specific: current.name_type_only().specific,
    }
}

/// The interface that undoes the instruction `apply` on the interface
/// `current`, observed before the apply; none where the outcome is no
/// well-formed interface.
///
/// Where `apply` takes the interface away, the revert is `current` in full.
/// Else it holds, for each setting that `apply` states, what `current` held,
/// and is noted as worked out from the two.
pub open spec fn revert_of(apply: InterfaceModel, current: InterfaceModel) -> Option<InterfaceModel> {
    if apply.is_absent() {
        Some(current)
    } else {
        match iface_decode(
            json_revert(
                iface_encode(apply),
                iface_encode(current),
                iface_encode(revert_skeleton(current)),
            ),
        ) {
            Some(r) => Some(
                r.with_context(
                    ChangeContext {
                        current_state: current.base.state,
                        desired_state: Some(apply.base.state),
                    },
                ),
            ),
            None => None,
        }
    }
}

/// The record that takes away an interface that did not exist before.
pub open spec fn absent_record(apply: InterfaceModel) -> InterfaceModel {
    InterfaceModel {
        base: BaseModel { state: InterfaceState::Absent, ..apply.name_type_only().base },
        specific: apply.name_type_only().specific,
    }
}

/// The revert of a reconciliation record: an error where it is no
/// well-formed interface, nothing where there is nothing to undo.
///
/// Without an instruction there is nothing to undo. An interface that did
/// not exist before is taken away again. Else the revert is worked out
/// from the instruction and the observed interface, and dropped where it
/// says what the instruction says.
pub open spec fn merged_revert(m: MergedModel) -> Result<Option<InterfaceModel>, ()> {
    match m.for_apply {
        None => Ok(None),
        Some(apply) => match m.current {
            Some(current) => match revert_of(apply, current) {
                Some(r) => if iface_encode(r) == iface_encode(apply) {
                    Ok(None)
                } else {
                    Ok(Some(r))
                },
                None => Err(()),
            },
            None => Ok(Some(absent_record(apply))),
        },
    }
}

/// Whether the revert says what the instruction says, so that there is
/// nothing to undo.
pub fn is_no_op(revert_iface: &Interface, desired_iface: &Interface) -> (r: bool)
    ensures
        r == (iface_encode(revert_iface@) == iface_encode(desired_iface@)),
{
    let revert_value = revert_iface.to_value();
    let desired_value = desired_iface.to_value();
    revert_value.same(&desired_value)
}

impl Interface {
    /// The interface that undoes this instruction on the interface
    /// `current`, observed before the apply. Fails with `StructuralError`
    /// where the outcome is no well-formed interface.
    pub fn generate_revert(&self, current: &Self) -> (r: Result<Self, NipartError>)
        ensures
            match r {
                Ok(i) => revert_of(self@, current@) == Some(i@),
                Err(e) => revert_of(self@, current@) is None
                    && e.kind == ErrorKind::StructuralError
                    && e.msg@ == not_an_interface(),
            },
    {
        if self.is_absent() {
            return Ok(current.clone());
        }
        let mut skeleton = current.clone_name_type_only();
        skeleton.base_iface_mut().state = current.base_iface().state;
        let mut revert_value = skeleton.to_value();
        let desired_value = self.to_value();
        let current_value = current.to_value();
        gen_revert_state(&desired_value, &current_value, &mut revert_value);
        let mut revert_iface = match Interface::from_value(&revert_value) {
            Ok(i) => i,
            Err(e) => {
                return Err(e);
            },
        };
        revert_iface.include_revert_context(self, current);
        Ok(revert_iface)
    }
}

impl MergedInterface {
    /// The interface that undoes the instruction of the record, if there is
    /// anything to undo. Fails with `StructuralError` where the outcome is
    /// no well-formed interface.
    pub fn generate_revert(&self) -> (r: Result<Option<Interface>, NipartError>)
        ensures
            match r {
                Ok(o) => merged_revert(self@) == Ok::<Option<InterfaceModel>, ()>(
                    crate::views::opt_view(o),
                ),
                Err(e) => merged_revert(self@) is Err
                    && e.kind == ErrorKind::StructuralError
                    && e.msg@ == not_an_interface(),
            },
    {
        let apply_iface = match self.for_apply.as_ref() {
            Some(i) => i,
            None => {
                return Ok(None);
            },
        };
        if let Some(cur_iface) = self.current.as_ref() {
            let revert_iface = match apply_iface.generate_revert(cur_iface) {
                Ok(i) => i,
                Err(e) => {
                    return Err(e);
                },
            };
            if !is_no_op(&revert_iface, apply_iface) {
                Ok(Some(revert_iface))
            } else {
                Ok(None)
            }
        } else {
            let mut revert_iface = apply_iface.clone_name_type_only();
            revert_iface.base_iface_mut().state = InterfaceState::Absent;
            Ok(Some(revert_iface))
        }
    }
}

/// The structural value of a record does not hold what the record was
/// worked out against.
pub proof fn lemma_encode_ignores_context(i: InterfaceModel, context: ChangeContext)
    ensures
        iface_encode(i.with_context(context)) == iface_encode(i),
        iface_encode(without_context(i)) == iface_encode(i),
{
    reveal(iface_encode);
    assert(base_entries(i.with_context(context).base) == base_entries(i.base));
    assert(base_entries(without_context(i).base) == base_entries(i.base));
}

/// Every key of the record that a revert starts from is a key of the
/// structural value of any interface.
pub proof fn lemma_skeleton_covered(current: InterfaceModel, apply: InterfaceModel)
    ensures
        revert_start_covered(iface_encode(revert_skeleton(current)), iface_encode(apply)),
{
    reveal(iface_encode);
    lemma_keys_differ();
    let sm = iface_encode(revert_skeleton(current))->Object_0;
    let dm = iface_encode(apply)->Object_0;
    assert forall|k: Seq<char>| #[trigger] sm.dom().contains(k) implies dm.dom().contains(k)
        && revert_start_covered(sm[k], dm[k]) by {
        assert(k == "name"@ || k == "type"@ || k == "state"@);
        assert(base_entries(apply.base).dom().contains(k));
    }
}

/// The record that a revert starts from says nothing that the observed
/// interface does not say.
pub proof fn lemma_skeleton_within(current: InterfaceModel)
    ensures
        revert_start_within(iface_encode(revert_skeleton(current)), iface_encode(current)),
{
    reveal(iface_encode);
    lemma_keys_differ();
    let sm = iface_encode(revert_skeleton(current))->Object_0;
    let cm = iface_encode(current)->Object_0;
    assert forall|k: Seq<char>| #[trigger] sm.dom().contains(k) implies cm.dom().contains(k)
        && json_contained(sm[k], cm[k]) by {
        assert(k == "name"@ || k == "type"@ || k == "state"@);
        assert(base_entries(current.base).dom().contains(k));
        assert(base_entries(current.base)[k] == sm[k]);
        assert(cm[k] == base_entries(current.base)[k]);
    }
}

/// Revert round trip, on the structural values that the revert is worked
/// out from: lay the instruction over the observed interface, then lay over
/// the outcome the value that the revert record is read from. What comes
/// out is the observed interface again, key for key, but for keys that hold
/// `Null`, which stand for settings that the observed interface did not
/// have.
pub proof fn lemma_revert_value_round_trip(apply: InterfaceModel, current: InterfaceModel)
    ensures
        json_strip(
            json_merge(
                json_merge(iface_encode(current), iface_encode(apply)),
                json_revert(
                    iface_encode(apply),
                    iface_encode(current),
                    iface_encode(revert_skeleton(current)),
                ),
            ),
        ) == json_strip(iface_encode(current)),
{
    lemma_skeleton_within(current);
    lemma_revert_round_trip(
        iface_encode(apply),
        iface_encode(current),
        iface_encode(revert_skeleton(current)),
    );
}

/// Revert round trip, of the record that is returned: where the observed
/// interface says something at every place that the instruction speaks of,
/// the revert record says exactly what the observed interface held at
/// those places, and nothing is lost in it. Lay the instruction over the
/// observed interface, then lay the revert record over the outcome: what
/// comes out is the observed interface again.
pub proof fn lemma_revert_record_round_trip(apply: InterfaceModel, current: InterfaceModel)
    requires
        current.wf(),
        !apply.is_absent(),
        json_keys_within(iface_encode(apply), iface_encode(current)),
        revert_of(apply, current) is Some,
    ensures
        iface_encode(revert_of(apply, current)->0) == json_revert(
            iface_encode(apply),
            iface_encode(current),
            iface_encode(revert_skeleton(current)),
        ),
        json_strip(
            json_merge(
                json_merge(iface_encode(current), iface_encode(apply)),
                iface_encode(revert_of(apply, current)->0),
            ),
        ) == json_strip(iface_encode(current)),
{
    let d = iface_encode(apply);
    let c = iface_encode(current);
    let start = iface_encode(revert_skeleton(current));
    let rv = json_revert(d, c, start);
    lemma_skeleton_within(current);
    lemma_revert_contained(d, c, start);
    assert(rv matches Json::Object(m) && m.dom().contains("state"@)) by {
        reveal(iface_encode);
        lemma_keys_differ();
        assert(start->Object_0.dom().contains("state"@));
        assert(rv == Json::Object(crate::value::revert_entries(d, c, start)));
    }
    lemma_contained_iface(rv, current);
    lemma_encode_ignores_context(
        iface_decode(rv)->0,
        ChangeContext {
            current_state: current.base.state,
            desired_state: Some(apply.base.state),
        },
    );
    lemma_revert_value_round_trip(apply, current);
}

/// No-op revert: where the observed interface already holds, for every
/// setting that the instruction states, what the instruction says, there is
/// nothing to undo. For an instruction that takes the interface away this
/// is so where the observed interface says no more than the instruction.
pub proof fn lemma_no_effect_no_revert(m: MergedModel)
    requires
        m.for_apply is Some,
        m.current is Some,
        m.for_apply->0.wf(),
        json_agrees(iface_encode(m.for_apply->0), iface_encode(m.current->0)),
        m.for_apply->0.is_absent() ==> iface_encode(m.current->0) == iface_encode(m.for_apply->0),
    ensures
        merged_revert(m) == Ok::<Option<InterfaceModel>, ()>(None),
{
    let apply = m.for_apply->0;
    let current = m.current->0;
    if !apply.is_absent() {
        let d = iface_encode(apply);
        let c = iface_encode(current);
        let start = iface_encode(revert_skeleton(current));
        lemma_skeleton_covered(current, apply);
        lemma_revert_is_desired(d, c, start);
        lemma_iface_round_trip(apply);
        lemma_encode_ignores_context(
            without_context(apply),
            ChangeContext {
                current_state: current.base.state,
                desired_state: Some(apply.base.state),
            },
        );
        lemma_encode_ignores_context(
            apply,
            ChangeContext { current_state: current.base.state, desired_state: None },
        );
    }
}

/// An instruction that asks for exactly what was observed leaves nothing to
/// undo.
pub proof fn lemma_same_as_current_no_revert(m: MergedModel)
    requires
        m.for_apply is Some,
        m.current == m.for_apply,
        m.for_apply->0.wf(),
    ensures
        merged_revert(m) == Ok::<Option<InterfaceModel>, ()>(None),
{
    lemma_agrees_with_itself(iface_encode(m.for_apply->0));
    lemma_no_effect_no_revert(m);
}

} // verus!
