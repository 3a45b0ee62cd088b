use crate::base::InterfaceType;
use crate::codec::iface_encode;
use crate::error::{ErrorKind, NipartError};
use crate::iface::{Interface, InterfaceModel, SpecificModel};
use crate::iface_ops::{describes_mismatch, BaseField};
use crate::ifaces::{find_iface, first_of, Interfaces, InterfacesModel};
use crate::json::Json;
use crate::merged::{MergedInterface, MergedInterfaces, MergedInterfacesModel, MergedModel};
use crate::render::serde_json_text;
use crate::value::{json_diff, json_revert};
use crate::views::{strings_contain, vec_view};
use vstd::prelude::*;
use vstd::string::StringExecFns;

verus! {

/// Whether `port` names an OVS patch port among the kernel's interfaces of
/// `cur`.
pub open spec fn is_patch_port(cur: InterfacesModel, port: Seq<char>) -> bool {
    match first_of(cur.kernel, port, None) {
        Some(at) => cur.kernel[at].specific matches SpecificModel::OvsInterface {
            patch_peer: Some(_),
        },
        None => false,
    }
}

/// The ports of `l`, in order, but for the patch ports of `cur` that are
/// not among `wanted`.
pub open spec fn without_extra_patch(
    l: Seq<Seq<char>>,
    wanted: Seq<Seq<char>>,
    cur: InterfacesModel,
) -> Seq<Seq<char>>
    decreases l.len(),
{
    if l.len() == 0 {
        l
    } else if is_patch_port(cur, l.last()) && !wanted.contains(l.last()) {
        without_extra_patch(l.drop_last(), wanted, cur)
    } else {
        without_extra_patch(l.drop_last(), wanted, cur).push(l.last())
    }
}

/// The ports that `v` lists, none where it lists none.
pub open spec fn wanted_ports(v: InterfaceModel) -> Seq<Seq<char>> {
    match v.specific.ports() {
        Some(l) => l,
        None => Seq::empty(),
    }
}

/// The observed bridge `b` without the patch ports that the expected bridge
/// `v` does not list.
pub open spec fn tolerant_bridge(
    b: InterfaceModel,
    v: InterfaceModel,
    cur: InterfacesModel,
) -> InterfaceModel {
    match b.specific.ports() {
        Some(l) => InterfaceModel {
            base: b.base,
            specific: b.specific.with_ports(Some(without_extra_patch(l, wanted_ports(v), cur))),
        },
        None => b,
    }
}

/// Whether the record expects an OVS bridge.
pub open spec fn expects_ovs_bridge(rec: MergedModel) -> bool {
    rec.is_desired() && rec.for_verify is Some && rec.for_verify->0.specific is OvsBridge
}

/// `cur` after the record `rec` has been allowed its extra patch ports: the
/// observed OVS bridge of the name that the record expects loses the patch
/// ports that the record does not list.
pub open spec fn tolerate_step(cur: InterfacesModel, rec: MergedModel) -> InterfacesModel {
    if expects_ovs_bridge(rec) {
        match first_of(cur.user, rec.for_verify->0.base.name, Some(InterfaceType::OvsBridge)) {
            Some(at) => cur.replaced(
                true,
                at,
                tolerant_bridge(cur.user[at], rec.for_verify->0, cur),
            ),
            None => cur,
        }
    } else {
        cur
    }
}

/// `cur` after the first `n` records have been allowed their extra patch
/// ports, one after the other.
pub open spec fn tolerate_fold(cur: InterfacesModel, records: Seq<MergedModel>, n: nat) -> InterfacesModel
    decreases n,
{
    if n == 0 || n > records.len() {
        cur
    } else {
        tolerate_step(tolerate_fold(cur, records, (n - 1) as nat), records[n - 1])
    }
}

/// The observed interfaces as the policy of `m` on extra patch ports lets
/// them be compared.
pub open spec fn tolerated(m: MergedInterfacesModel, cur: InterfacesModel) -> InterfacesModel {
    if m.allow_extra_ovs_patch_ports {
        tolerate_fold(cur, m.user, m.user.len())
    } else {
        cur
    }
}

/// An interface in the form in which it is compared: in normal form,
/// without what no backend reports, and without the settings `fields` that
/// the backend in use does not control.
pub open spec fn verify_form(i: InterfaceModel, fields: Seq<BaseField>) -> InterfaceModel {
    i.sanitized().for_verify().without_fields(fields)
}

/// Bringing an interface into the form in which it is compared twice is
/// the same as once.
pub proof fn lemma_verify_form_idempotent(i: InterfaceModel, fields: Seq<BaseField>)
    ensures
        verify_form(verify_form(i, fields), fields) == verify_form(i, fields),
{
}

impl InterfacesModel {
    /// Each interface in the form in which it is compared.
    pub open spec fn in_verify_form(self, fields: Seq<BaseField>) -> InterfacesModel {
        InterfacesModel {
            kernel: Seq::new(self.kernel.len(), |j: int| verify_form(self.kernel[j], fields)),
            user: Seq::new(self.user.len(), |j: int| verify_form(self.user[j], fields)),
        }
    }
}

/// The observed interfaces as they are compared with what `m` expects:
/// without the ignored interfaces and the ports of unknown kind, with the
/// extra patch ports allowed for, each interface in the form in which it is
/// compared.
pub open spec fn prepared_current(m: MergedInterfacesModel, current: InterfacesModel) -> InterfacesModel {
    tolerated(
        m,
        current.without_ignored(m.ignored).cleaned_of_unknown_ports(),
    ).in_verify_form(m.uncontrolled_fields)
}

/// Whether `at` is the first place in `l` of a virtual function that `cur`
/// does not hold as an Ethernet interface.
pub open spec fn is_first_missing(l: Seq<Seq<char>>, cur: InterfacesModel, at: int) -> bool {
    &&& 0 <= at < l.len()
    &&& cur.lookup(l[at], InterfaceType::Ethernet) is None
    &&& forall|j: int| 0 <= j < at ==> cur.lookup(#[trigger] l[j], InterfaceType::Ethernet) is Some
}

/// The first virtual function of `l` that `cur` does not hold, if there is
/// one.
pub open spec fn first_missing(l: Seq<Seq<char>>, cur: InterfacesModel) -> Option<Seq<char>> {
    if exists|at: int| is_first_missing(l, cur, at) {
        Some(l[choose|at: int| is_first_missing(l, cur, at)])
    } else {
        None
    }
}

/// What the comparison of one expected interface with the observed state
/// comes to.
pub enum Verdict {
    Pass,
    /// The interface was to be gone, and is still there as the interface
    /// given.
    StillFound(InterfaceModel),
    /// The settings given are not so in the observed interface given.
    Mismatch(Json, InterfaceModel),
    /// The interface was to be up, and is not there.
    NotFound,
    /// The virtual function named is not there.
    VfNotFound(Seq<char>),
}

/// What it comes to that `cur_iface` is observed where `des_iface` was to
/// be gone: software has to be gone, hardware may stay.
pub open spec fn absent_verdict(cur_iface: InterfaceModel) -> Verdict {
    if cur_iface.is_virtual() && !cur_iface.is_absent() {
        Verdict::StillFound(cur_iface)
    } else {
        Verdict::Pass
    }
}

/// What the comparison of an interface that is to be up with the observed
/// one comes to: every setting has to be met, and every virtual function
/// has to be there.
pub open spec fn up_verdict(v: InterfaceModel, c: InterfaceModel, cur: InterfacesModel) -> Verdict {
    match json_diff(iface_encode(v), iface_encode(c)) {
        Some(d) => Verdict::Mismatch(d, c),
        None => match v.specific {
            SpecificModel::Ethernet { sr_iov_vfs: Some(l), .. } => if l.len() > 0 {
                match first_missing(l, cur) {
                    Some(name) => Verdict::VfNotFound(name),
                    None => Verdict::Pass,
                }
            } else {
                Verdict::Pass
            },
            _ => Verdict::Pass,
        },
    }
}

/// What the comparison of the expected interface `v` with the observed
/// state `cur` comes to.
///
/// An interface that is to be gone, or that is software and to be down,
/// must not be observed as software that is still there. Any other
/// interface is compared only where it is to be up: it has to be there and
/// to meet what is expected.
pub open spec fn iface_verdict(v: InterfaceModel, cur: InterfacesModel) -> Verdict {
    let found = cur.lookup(v.base.name, v.base.iface_type);
    if v.is_absent() || (v.is_virtual() && v.is_down()) {
        match found {
            Some(c) => absent_verdict(c),
            None => Verdict::Pass,
        }
    } else {
        match found {
            Some(c) => if v.is_up() {
                up_verdict(v, c, cur)
            } else {
                Verdict::Pass
            },
            None => if v.is_up() {
                Verdict::NotFound
            } else {
                Verdict::Pass
            },
        }
    }
}

/// What the comparison of a record with the observed state comes to: only
/// what is asked for, and expected, is compared.
pub open spec fn record_verdict(
    rec: MergedModel,
    cur: InterfacesModel,
    fields: Seq<BaseField>,
) -> Verdict {
    if rec.is_desired() && rec.for_verify is Some {
        iface_verdict(verify_form(rec.for_verify->0, fields), cur)
    } else {
        Verdict::Pass
    }
}

pub open spec fn still_found_text(name: Seq<char>, kind: Seq<char>, found: Seq<char>) -> Seq<char> {
    "Absent/Down interface "@ + name + "/"@ + kind + " still found as "@ + found
}

pub open spec fn not_found_text(name: Seq<char>, kind: Seq<char>) -> Seq<char> {
    "Failed to find desired interface "@ + name + " "@ + kind
}

pub open spec fn vf_not_found_text(vf: Seq<char>, name: Seq<char>) -> Seq<char> {
    "SR-IOV VF interface "@ + vf + " of "@ + name + " not found in current state"@
}

/// Whether `msg` says what the failed comparison of `v` came to.
pub open spec fn describes_verdict(v: InterfaceModel, verdict: Verdict, msg: Seq<char>) -> bool {
    match verdict {
        Verdict::Pass => false,
        Verdict::StillFound(c) => msg == still_found_text(
            v.base.name,
            v.base.iface_type.name(),
            serde_json_text(iface_encode(c)),
        ),
        Verdict::Mismatch(d, c) => describes_mismatch(
            v,
            d,
            json_revert(d, iface_encode(c), Json::Null),
            msg,
        ),
        Verdict::NotFound => msg == not_found_text(v.base.name, v.base.iface_type.name()),
        Verdict::VfNotFound(vf) => msg == vf_not_found_text(vf, v.base.name),
    }
}

/// Whether `at` is the first record whose comparison fails.
pub open spec fn is_first_failure(
    records: Seq<MergedModel>,
    cur: InterfacesModel,
    fields: Seq<BaseField>,
    at: int,
) -> bool {
    &&& 0 <= at < records.len()
    &&& !(record_verdict(records[at], cur, fields) is Pass)
    &&& forall|j: int| 0 <= j < at ==> record_verdict(#[trigger] records[j], cur, fields) is Pass
}

/// Checks that an interface that was to be gone, `des_iface`, and is
/// observed as `cur_iface`, is hardware, or gone: software has to be gone.
/// Fails with `VerificationError`, naming the interface, where it is not.
pub fn verify_desire_absent_but_found_in_current(
    des_iface: &Interface,
    cur_iface: &Interface,
) -> (r: Result<(), NipartError>)
    ensures
        match r {
            Ok(_) => absent_verdict(cur_iface@) is Pass,
            Err(e) => e.kind == ErrorKind::VerificationError && describes_verdict(
                des_iface@,
                absent_verdict(cur_iface@),
                e.msg@,
            ),
        },
{
    if cur_iface.is_virtual() && !cur_iface.is_absent() {
        let found = cur_iface.to_value().render();
        let mut msg = "Absent/Down interface ".to_owned();
        msg.append(des_iface.name());
        msg.append("/");
        msg.append(des_iface.iface_type().as_str());
        msg.append(" still found as ");
        msg.append(found.as_str());
        proof {
            assert(msg@ =~= still_found_text(
                des_iface@.base.name,
                des_iface@.base.iface_type.name(),
                found@,
            ));
        }
        Err(NipartError::new(ErrorKind::VerificationError, msg))
    } else {
        Ok(())
    }
}

/// There is one first missing virtual function at most.
proof fn lemma_first_missing(l: Seq<Seq<char>>, cur: InterfacesModel, at: int)
    requires
        is_first_missing(l, cur, at),
    ensures
        first_missing(l, cur) == Some(l[at]),
{
    let other = choose|x: int| is_first_missing(l, cur, x);
    if other < at {
        assert(cur.lookup(l[other], InterfaceType::Ethernet) is Some);
    }
    if at < other {
        assert(cur.lookup(l[at], InterfaceType::Ethernet) is Some);
    }
}

/// The first virtual function of `vfs` that `current` does not hold.
fn find_missing_vf(vfs: &Vec<String>, current: &Interfaces) -> (r: Option<usize>)
    ensures
        match r {
            Some(at) => at < vfs.len() && first_missing(vec_view(*vfs), current@) == Some(
                vfs[at as int]@,
            ),
            None => first_missing(vec_view(*vfs), current@) is None,
        },
{
    let ghost l = vec_view(*vfs);
    let mut i: usize = 0;
    while i < vfs.len()
        invariant
            i <= vfs.len(),
            l == vec_view(*vfs),
            forall|j: int|
                0 <= j < i ==> current@.lookup(#[trigger] l[j], InterfaceType::Ethernet) is Some,
        decreases vfs.len() - i,
    {
        assert(l[i as int] == vfs[i as int]@);
        if current.get_iface(vfs[i].as_str(), InterfaceType::Ethernet).is_none() {
            proof {
                lemma_first_missing(l, current@, i as int);
            }
            return Some(i);
        }
        i += 1;
    }
    proof {
        if exists|at: int| is_first_missing(l, current@, at) {
            let at = choose|at: int| is_first_missing(l, current@, at);
            assert(current@.lookup(l[at], InterfaceType::Ethernet) is Some);
        }
    }
    None
}

/// Checks that every virtual function of `iface` is observed in `current`.
fn verify_sriov(iface: &Interface, current: &Interfaces) -> (r: Result<(), NipartError>)
    requires
        iface@.sriov_is_enabled(),
    ensures
        match r {
            Ok(_) => first_missing(iface@.specific->Ethernet_sr_iov_vfs->0, current@) is None,
            Err(e) => e.kind == ErrorKind::VerificationError && first_missing(
                iface@.specific->Ethernet_sr_iov_vfs->0,
                current@,
            ) is Some && e.msg@ == vf_not_found_text(
                first_missing(iface@.specific->Ethernet_sr_iov_vfs->0, current@)->0,
                iface@.base.name,
            ),
        },
{
    match iface {
        Interface::Ethernet(eth) => match &eth.sr_iov_vfs {
            Some(vfs) => match find_missing_vf(vfs, current) {
                Some(at) => {
                    let mut msg = "SR-IOV VF interface ".to_owned();
                    msg.append(vfs[at].as_str());
                    msg.append(" of ");
                    msg.append(iface.name());
                    msg.append(" not found in current state");
                    proof {
                        assert(msg@ =~= vf_not_found_text(vfs[at as int]@, iface@.base.name));
                    }
                    Err(NipartError::new(ErrorKind::VerificationError, msg))
                },
                None => Ok(()),
            },
            None => Ok(()),
        },
        _ => Ok(()),
    }
}

/// Compares an interface that is to be up with the observed one.
fn verify_up(v: &Interface, c: &Interface, current: &Interfaces) -> (r: Result<(), NipartError>)
    ensures
        match r {
            Ok(_) => up_verdict(v@, c@, current@) is Pass,
            Err(e) => e.kind == ErrorKind::VerificationError && describes_verdict(
                v@,
                up_verdict(v@, c@, current@),
                e.msg@,
            ),
        },
{
    match v.verify(c) {
        Ok(_) => {},
        Err(e) => {
            return Err(e);
        },
    }
    if v.sriov_is_enabled() {
        verify_sriov(v, current)
    } else {
        Ok(())
    }
}

/// Compares the expected interface `v` with the observed state.
fn verify_iface(v: &Interface, current: &Interfaces) -> (r: Result<(), NipartError>)
    ensures
        match r {
            Ok(_) => iface_verdict(v@, current@) is Pass,
            Err(e) => e.kind == ErrorKind::VerificationError && describes_verdict(
                v@,
                iface_verdict(v@, current@),
                e.msg@,
            ),
        },
{
    let found = current.get_iface(v.name(), v.iface_type());
    if v.is_absent() || (v.is_virtual() && v.is_down()) {
        match found {
            Some(cur_iface) => verify_desire_absent_but_found_in_current(v, cur_iface),
            None => Ok(()),
        }
    } else {
        match found {
            Some(cur_iface) => {
                if v.is_up() {
                    verify_up(v, cur_iface, current)
                } else {
                    Ok(())
                }
            },
            None => {
                if v.is_up() {
                    let mut msg = "Failed to find desired interface ".to_owned();
                    msg.append(v.name());
                    msg.append(" ");
                    msg.append(v.iface_type().as_str());
                    proof {
                        assert(msg@ =~= not_found_text(v@.base.name, v@.base.iface_type.name()));
                    }
                    Err(NipartError::new(ErrorKind::VerificationError, msg))
                } else {
                    Ok(())
                }
            },
        }
    }
}

/// Compares what a record expects with the observed state.
fn verify_record(rec: &MergedInterface, current: &Interfaces, fields: &Vec<BaseField>) -> (r:
    Result<(), NipartError>)
    ensures
        match r {
            Ok(_) => record_verdict(rec@, current@, fields@) is Pass,
            Err(e) => e.kind == ErrorKind::VerificationError && rec@.for_verify is Some
                && describes_verdict(
                verify_form(rec@.for_verify->0, fields@),
                record_verdict(rec@, current@, fields@),
                e.msg@,
            ),
        },
{
    if !rec.is_desired() {
        return Ok(());
    }
    match &rec.for_verify {
        Some(i) => {
            let mut v = i.clone();
            let _ = v.sanitize(false);
            v.sanitize_desired_for_verify();
            v.drop_fields(fields);
            verify_iface(&v, current)
        },
        None => Ok(()),
    }
}


/// Whether `port` names an OVS patch port among the kernel's interfaces.
fn port_is_patch(current: &Interfaces, port: &str) -> (r: bool)
    ensures
        r == is_patch_port(current@, port@),
{
    let kernel = current.kernel_ifaces();
    match find_iface(kernel, port, None) {
        Some(at) => {
            assert(vec_view(*kernel)[at as int] == kernel[at as int]@);
            match &kernel[at] {
                Interface::OvsInterface(o) => o.patch_peer.is_some(),
                _ => false,
            }
        },
        None => false,
    }
}

/// The ports of `l` but for the patch ports that are not among `wanted`.
fn ports_without_extra_patch(l: &Vec<String>, wanted: Option<&Vec<String>>, current: &Interfaces) -> (r:
    Vec<String>)
    ensures
        vec_view(r) == without_extra_patch(
            vec_view(*l),
            match wanted {
                Some(w) => vec_view(*w),
                None => Seq::empty(),
            },
            current@,
        ),
{
    let ghost s = vec_view(*l);
    let ghost w = match wanted {
        Some(w) => vec_view(*w),
        None => Seq::<Seq<char>>::empty(),
    };
    let mut out: Vec<String> = Vec::new();
    let mut i: usize = 0;
    assert(vec_view(out) =~= without_extra_patch(s.take(0), w, current@));
    while i < l.len()
        invariant
            i <= l.len(),
            s == vec_view(*l),
            w == (match wanted {
                Some(w) => vec_view(*w),
                None => Seq::<Seq<char>>::empty(),
            }),
            vec_view(out) == without_extra_patch(s.take(i as int), w, current@),
        decreases l.len() - i,
    {
        proof {
            assert(s.take(i + 1).drop_last() =~= s.take(i as int));
            assert(s.take(i + 1).last() == l[i as int]@);
        }
        let is_wanted = match wanted {
            Some(w) => strings_contain(w, l[i].as_str()),
            None => false,
        };
        if !(port_is_patch(current, l[i].as_str()) && !is_wanted) {
            let ghost before = vec_view(out);
            out.push(l[i].clone());
            assert(vec_view(out) =~= before.push(l[i as int]@));
        }
        i += 1;
    }
    assert(s.take(i as int) =~= s);
    out
}

/// Allows the record its extra patch ports.
fn tolerate_record(rec: &MergedInterface, current: &mut Interfaces)
    ensures
        final(current)@ == tolerate_step(old(current)@, rec@),
{
    if !rec.is_desired() {
        return ;
    }
    let v = match &rec.for_verify {
        Some(v) => v,
        None => {
            return ;
        },
    };
    if !matches!(v, Interface::OvsBridge(_)) {
        return ;
    }
    let user = current.user_ifaces();
    let at = match find_iface(user, v.name(), Some(InterfaceType::OvsBridge)) {
        Some(at) => at,
        None => {
            return ;
        },
    };
    assert(vec_view(*user)[at as int] == user[at as int]@);
    let mut bridge = user[at].clone();
    let ports = match bridge.ports() {
        Some(l) => Some(ports_without_extra_patch(l, v.ports(), current)),
        None => None,
    };
    match ports {
        Some(l) => {
            bridge.set_ports(Some(l));
        },
        None => {},
    }
    current.replace_at(true, at, bridge);
}

impl MergedInterfaces {
    /// Allows for patch ports that were not asked for: where the policy
    /// says so, each observed OVS bridge that is expected loses the patch
    /// ports that its record does not list.
    pub fn process_allow_extra_ovs_patch_ports_for_verify(&self, current: &mut Interfaces)
        ensures
            final(current)@ == tolerated(self@, old(current)@),
    {
        if !self.allow_extra_ovs_patch_ports {
            return ;
        }
        let ghost start = current@;
        let ghost records = self@.user;
        let mut i: usize = 0;
        while i < self.user_ifaces.len()
            invariant
                i <= self.user_ifaces.len(),
                records == vec_view(self.user_ifaces),
                current@ == tolerate_fold(start, records, i as nat),
            decreases self.user_ifaces.len() - i,
        {
            assert(records[i as int] == self.user_ifaces[i as int]@);
            tolerate_record(&self.user_ifaces[i], current);
            i += 1;
        }
    }
}

/// Brings the interfaces of one partition into the form in which they are
/// compared.
fn partition_to_verify_form(current: &mut Interfaces, user: bool, fields: &Vec<BaseField>)
    ensures
        final(current)@.partition(user) == Seq::new(
            old(current)@.partition(user).len(),
            |j: int| verify_form(old(current)@.partition(user)[j], fields@),
        ),
        final(current)@.partition(!user) == old(current)@.partition(!user),
{
    let ghost start = current@;
    let n = if user {
        current.user_ifaces().len()
    } else {
        current.kernel_ifaces().len()
    };
    let mut i: usize = 0;
    while i < n
        invariant
            i <= n,
            n == start.partition(user).len(),
            current@.partition(user).len() == n,
            current@.partition(!user) == start.partition(!user),
            forall|j: int| 0 <= j < i ==> #[trigger] current@.partition(user)[j] == verify_form(
                start.partition(user)[j],
                fields@,
            ),
            forall|j: int| i <= j < n ==> #[trigger] current@.partition(user)[j] == start.partition(
                user,
            )[j],
        decreases n - i,
    {
        let part = if user {
            current.user_ifaces()
        } else {
            current.kernel_ifaces()
        };
        assert(vec_view(*part)[i as int] == part[i as int]@);
        let mut iface = part[i].clone();
        let _ = iface.sanitize(false);
        iface.sanitize_current_for_verify();
        iface.drop_fields(fields);
        current.replace_at(user, i, iface);
        i += 1;
    }
    assert(current@.partition(user) =~= Seq::new(
        start.partition(user).len(),
        |j: int| verify_form(start.partition(user)[j], fields@),
    ));
}

impl Interfaces {
    /// Brings every interface into the form in which it is compared:
    /// normal form, without what no backend reports, and without the
    /// settings `fields` that the backend in use does not control.
    pub fn sanitize_for_verify(&mut self, fields: &Vec<BaseField>)
        ensures
            final(self)@ == old(self)@.in_verify_form(fields@),
    {
        partition_to_verify_form(self, false, fields);
        partition_to_verify_form(self, true, fields);
    }
}

/// Compares what the records expect with the observed state, record by
/// record.
fn verify_records(
    records: &Vec<MergedInterface>,
    current: &Interfaces,
    fields: &Vec<BaseField>,
) -> (r: Result<(), NipartError>)
    ensures
        match r {
            Ok(_) => forall|k: int|
                0 <= k < records.len() ==> record_verdict(
                    #[trigger] vec_view(*records)[k],
                    current@,
                    fields@,
                ) is Pass,
            Err(e) => e.kind == ErrorKind::VerificationError && exists|at: int|
                #[trigger] is_first_failure(vec_view(*records), current@, fields@, at)
                    && describes_verdict(
                    verify_form(vec_view(*records)[at].for_verify->0, fields@),
                    record_verdict(vec_view(*records)[at], current@, fields@),
                    e.msg@,
                ),
        },
{
    let ghost all = vec_view(*records);
    let mut i: usize = 0;
    while i < records.len()
        invariant
            i <= records.len(),
            all == vec_view(*records),
            forall|k: int| 0 <= k < i ==> record_verdict(#[trigger] all[k], current@, fields@) is Pass,
        decreases records.len() - i,
    {
        assert(all[i as int] == records[i as int]@);
        match verify_record(&records[i], current, fields) {
            Ok(_) => {},
            Err(e) => {
                assert(is_first_failure(all, current@, fields@, i as int));
                return Err(e);
            },
        }
        i += 1;
    }
    Ok(())
}

impl MergedInterfaces {
    /// Checks that the observed state `current` is what the records expect.
    ///
    /// The observed interfaces are prepared on a copy: the ignored ones and
    /// the ports of unknown kind are taken out, extra patch ports are
    /// allowed for, and each interface is brought into the form in which it
    /// is compared, which leaves out the settings that the backend in use
    /// does not control. Then each record that is asked for is compared, in
    /// order. Fails with `VerificationError` at the first record that is not
    /// met, and says what is not so.
    pub fn verify(&self, current: &Interfaces) -> (r: Result<(), NipartError>)
        ensures
            match r {
                Ok(_) => forall|k: int|
                    0 <= k < self@.all().len() ==> record_verdict(
                        #[trigger] self@.all()[k],
                        prepared_current(self@, current@),
                        self@.uncontrolled_fields,
                    ) is Pass,
                Err(e) => e.kind == ErrorKind::VerificationError && exists|at: int|
                    #[trigger] is_first_failure(
                        self@.all(),
                        prepared_current(self@, current@),
                        self@.uncontrolled_fields,
                        at,
                    ) && describes_verdict(
                        verify_form(self@.all()[at].for_verify->0, self@.uncontrolled_fields),
                        record_verdict(
                            self@.all()[at],
                            prepared_current(self@, current@),
                            self@.uncontrolled_fields,
                        ),
                        e.msg@,
                    ),
            },
    {
        let mut current = current.clone();
        current.remove_ignored_ifaces(&self.ignored_ifaces);
        current.remove_unknown_type_port();
        self.process_allow_extra_ovs_patch_ports_for_verify(&mut current);
        current.sanitize_for_verify(&self.uncontrolled_fields);
        let records = self.to_vec();
        verify_records(&records, &current, &self.uncontrolled_fields)
    }
}

} // verus!
