use crate::base::InterfaceType;
use crate::iface::{Interface, InterfaceModel};
use crate::ifaces::{
    lemma_interfaces_view, lemma_same_identities_wf, Interfaces, InterfacesModel,
};
use crate::views::vec_view;
use vstd::prelude::*;

verus! {

/// Whether `port` names no interface of `cur`, or one of unknown kind.
pub open spec fn port_is_unknown(cur: InterfacesModel, port: Seq<char>) -> bool {
    match cur.lookup(port, InterfaceType::Unknown) {
        Some(x) => x.base.iface_type == InterfaceType::Unknown,
        None => true,
    }
}

/// The ports of `l`, in order, that name no interface of `cur`, or one of
/// unknown kind.
pub open spec fn only_unknown(l: Seq<Seq<char>>, cur: InterfacesModel) -> Seq<Seq<char>>
    decreases l.len(),
{
    if l.len() == 0 {
        l
    } else if port_is_unknown(cur, l.last()) {
        only_unknown(l.drop_last(), cur).push(l.last())
    } else {
        only_unknown(l.drop_last(), cur)
    }
}

/// The ports of `i` that name no interface of `cur`, or one of unknown kind.
pub open spec fn unknown_ports_of(i: InterfaceModel, cur: InterfacesModel) -> Seq<Seq<char>> {
    match i.specific.ports() {
        Some(l) => only_unknown(l, cur),
        None => Seq::empty(),
    }
}

/// `i` without the first `n` ports of `ports`, taken out one after the
/// other.
pub open spec fn without_ports(i: InterfaceModel, ports: Seq<Seq<char>>, n: nat) -> InterfaceModel
    decreases n,
{
    if n == 0 || n > ports.len() {
        i
    } else {
        without_ports(i, ports, (n - 1) as nat).without_port(ports[n - 1])
    }
}

/// A controller without the ports that name no interface of `cur`, or one
/// of unknown kind; any other interface as it is.
pub open spec fn without_unknown_ports(i: InterfaceModel, cur: InterfacesModel) -> InterfaceModel {
    if i.is_controller() {
        without_ports(i, unknown_ports_of(i, cur), unknown_ports_of(i, cur).len())
    } else {
        i
    }
}

/// Whether the list `ignored` names `i`: an interface of the kernel by its
/// name, beside any kernel kind; one beside the kernel's by name and kind.
pub open spec fn is_ignored(i: InterfaceModel, ignored: Seq<(Seq<char>, InterfaceType)>) -> bool {
    exists|k: int|
        0 <= k < ignored.len() && (#[trigger] ignored[k]).0 == i.base.name && (
        if i.is_userspace() {
            ignored[k].1 == i.base.iface_type
        } else {
            !ignored[k].1.spec_is_userspace()
        })
}

/// The interfaces of `s`, in order, that `ignored` does not name.
pub open spec fn keep_unignored(
    s: Seq<InterfaceModel>,
    ignored: Seq<(Seq<char>, InterfaceType)>,
) -> Seq<InterfaceModel>
    decreases s.len(),
{
    if s.len() == 0 {
        s
    } else if is_ignored(s.last(), ignored) {
        keep_unignored(s.drop_last(), ignored)
    } else {
        keep_unignored(s.drop_last(), ignored).push(s.last())
    }
}

/// The model of a list of names and kinds.
pub open spec fn identities_view(v: Vec<(String, InterfaceType)>) -> Seq<
    (Seq<char>, InterfaceType),
> {
    Seq::new(v.len() as nat, |k: int| (v[k].0@, v[k].1))
}

impl InterfacesModel {
    /// The interfaces with each controller freed of the ports that name no
    /// interface, or one of unknown kind.
    pub open spec fn cleaned_of_unknown_ports(self) -> InterfacesModel {
        InterfacesModel {
            kernel: Seq::new(
                self.kernel.len(),
                |j: int| without_unknown_ports(self.kernel[j], self),
            ),
            user: Seq::new(self.user.len(), |j: int| without_unknown_ports(self.user[j], self)),
        }
    }

    /// The interfaces that `ignored` does not name.
    pub open spec fn without_ignored(self, ignored: Seq<(Seq<char>, InterfaceType)>) -> InterfacesModel {
        InterfacesModel {
            kernel: keep_unignored(self.kernel, ignored),
            user: keep_unignored(self.user, ignored),
        }
    }
}

/// The ports of `iface` that name no interface of `cur_ifaces`, or one of
/// unknown kind.
pub fn find_unknown_type_port(iface: &Interface, cur_ifaces: &Interfaces) -> (r: Vec<String>)
    ensures
        vec_view(r) == unknown_ports_of(iface@, cur_ifaces@),
{
    let mut ret: Vec<String> = Vec::new();
    assert(vec_view(ret) =~= Seq::<Seq<char>>::empty());
    if let Some(port_names) = iface.ports() {
        let ghost l = vec_view(*port_names);
        let mut i: usize = 0;
        while i < port_names.len()
            invariant
                i <= port_names.len(),
                l == vec_view(*port_names),
                vec_view(ret) == only_unknown(l.take(i as int), cur_ifaces@),
            decreases port_names.len() - i,
        {
            proof {
                assert(l.take(i + 1).drop_last() =~= l.take(i as int));
                assert(l.take(i + 1).last() == port_names[i as int]@);
            }
            let port_name = &port_names[i];
            let ghost before = vec_view(ret);
            if let Some(port_iface) = cur_ifaces.get_iface(port_name.as_str(), InterfaceType::Unknown) {
                if port_iface.iface_type() == InterfaceType::Unknown {
                    ret.push(port_name.clone());
                    assert(vec_view(ret) =~= before.push(port_name@));
                }
            } else {
                ret.push(port_name.clone());
                assert(vec_view(ret) =~= before.push(port_name@));
            }
            i += 1;
        }
        assert(l.take(i as int) =~= l);
    }
    ret
}

/// Takes the ports of `ports` out of `iface`, one after the other.
fn remove_ports(iface: &mut Interface, ports: &Vec<String>)
    ensures
        final(iface)@ == without_ports(old(iface)@, vec_view(*ports), ports.len() as nat),
{
    let mut i: usize = 0;
    while i < ports.len()
        invariant
            i <= ports.len(),
            iface@ == without_ports(old(iface)@, vec_view(*ports), i as nat),
        decreases ports.len() - i,
    {
        assert(vec_view(*ports)[i as int] == ports[i as int]@);
        iface.remove_port(ports[i].as_str());
        i += 1;
    }
}

/// Taking ports out keeps the identity of an interface.
pub proof fn lemma_without_ports_identity(i: InterfaceModel, ports: Seq<Seq<char>>, n: nat)
    ensures
        without_ports(i, ports, n).base == i.base,
        without_ports(i, ports, n).is_controller() == i.is_controller(),
    decreases n,
{
    if n == 0 || n > ports.len() {
    } else {
        lemma_without_ports_identity(i, ports, (n - 1) as nat);
    }
}

/// The interfaces of `v`, each controller freed of its unknown ports as
/// `whole` knows them.
fn clean_partition(v: &mut Vec<Interface>, whole: &Interfaces)
    ensures
        vec_view(*final(v)) == Seq::new(
            old(v).len() as nat,
            |j: int| without_unknown_ports(vec_view(*old(v))[j], whole@),
        ),
{
    let ghost start = vec_view(*v);
    let n = v.len();
    let mut i: usize = 0;
    while i < n
        invariant
            i <= n,
            v.len() == n,
            start.len() == n,
            forall|j: int| 0 <= j < i ==> (#[trigger] v[j])@ == without_unknown_ports(start[j], whole@),
            forall|j: int| i <= j < n ==> (#[trigger] v[j])@ == start[j],
        decreases n - i,
    {
        assert(start[i as int] == v[i as int]@);
        if v[i].is_controller() {
            let unknown = find_unknown_type_port(&v[i], whole);
            let mut iface = v[i].clone();
            remove_ports(&mut iface, &unknown);
            v.set(i, iface);
        }
        i += 1;
    }
    assert(vec_view(*v) =~= Seq::new(
        start.len(),
        |j: int| without_unknown_ports(start[j], whole@),
    ));
}

/// Whether `ignored` names `iface`.
fn iface_is_ignored(iface: &Interface, ignored: &Vec<(String, InterfaceType)>) -> (r: bool)
    ensures
        r == is_ignored(iface@, identities_view(*ignored)),
{
    let userspace = iface.is_userspace();
    let mut k: usize = 0;
    while k < ignored.len()
        invariant
            k <= ignored.len(),
            userspace == iface@.is_userspace(),
            forall|j: int|
                0 <= j < k ==> !((#[trigger] identities_view(*ignored)[j]).0 == iface@.base.name && (
                if iface@.is_userspace() {
                    identities_view(*ignored)[j].1 == iface@.base.iface_type
                } else {
                    !identities_view(*ignored)[j].1.spec_is_userspace()
                })),
        decreases ignored.len() - k,
    {
        assert(identities_view(*ignored)[k as int] == (ignored[k as int].0@, ignored[k as int].1));
        let same_name = ignored[k].0 == iface.base_iface().name;
        let same_kind = if userspace {
            ignored[k].1 == iface.iface_type()
        } else {
            !ignored[k].1.is_userspace()
        };
        if same_name && same_kind {
            return true;
        }
        k += 1;
    }
    false
}

/// Whether each interface of `r` is one of `s`, in the order of `s`.
spec fn is_selection(r: Seq<InterfaceModel>, s: Seq<InterfaceModel>, places: Seq<int>) -> bool {
    &&& places.len() == r.len()
    &&& forall|j: int| 0 <= j < r.len() ==> 0 <= #[trigger] places[j] < s.len() && r[j] == s[places[j]]
    &&& forall|a: int, b: int| 0 <= a < b < r.len() ==> #[trigger] places[a] < #[trigger] places[b]
}

/// The interfaces of `v` that `ignored` does not name.
fn keep_partition(v: &Vec<Interface>, ignored: &Vec<(String, InterfaceType)>) -> (r: (
    Vec<Interface>,
    Ghost<Seq<int>>,
))
    ensures
        vec_view(r.0) == keep_unignored(vec_view(*v), identities_view(*ignored)),
        is_selection(vec_view(r.0), vec_view(*v), r.1@),
{
    let ghost s = vec_view(*v);
    let ghost ig = identities_view(*ignored);
    let mut out: Vec<Interface> = Vec::new();
    let ghost mut places: Seq<int> = Seq::empty();
    let mut i: usize = 0;
    assert(vec_view(out) =~= keep_unignored(s.take(0), ig));
    while i < v.len()
        invariant
            i <= v.len(),
            s == vec_view(*v),
            ig == identities_view(*ignored),
            vec_view(out) == keep_unignored(s.take(i as int), ig),
            is_selection(vec_view(out), s, places),
            forall|j: int| 0 <= j < places.len() ==> #[trigger] places[j] < i,
        decreases v.len() - i,
    {
        proof {
            assert(s.take(i + 1).drop_last() =~= s.take(i as int));
            assert(s.take(i + 1).last() == v[i as int]@);
        }
        if !iface_is_ignored(&v[i], ignored) {
            let ghost before = vec_view(out);
            out.push(v[i].clone());
            proof {
                assert(vec_view(out) =~= before.push(v[i as int]@));
                places = places.push(i as int);
            }
        }
        i += 1;
    }
    assert(s.take(i as int) =~= s);
    (out, Ghost(places))
}

impl Interfaces {
    /// Frees each controller of the ports that name no interface, or one of
    /// unknown kind.
    pub fn remove_unknown_type_port(&mut self)
        ensures
            final(self)@ == old(self)@.cleaned_of_unknown_ports(),
    {
        proof {
            use_type_invariant(&*self);
            lemma_interfaces_view(*self);
        }
        let ghost start = self@;
        let mut kernel_ifaces = self.kernel_ifaces().clone();
        let mut user_ifaces = self.user_ifaces().clone();
        proof {
            assert(vec_view(kernel_ifaces) =~= start.kernel);
            assert(vec_view(user_ifaces) =~= start.user);
        }
        clean_partition(&mut kernel_ifaces, self);
        clean_partition(&mut user_ifaces, self);
        proof {
            let after = InterfacesModel {
                kernel: vec_view(kernel_ifaces),
                user: vec_view(user_ifaces),
            };
            assert forall|i: int| 0 <= i < start.kernel.len() implies (
            #[trigger] start.kernel[i]).base == after.kernel[i].base by {
                lemma_without_ports_identity(
                    start.kernel[i],
                    unknown_ports_of(start.kernel[i], start),
                    unknown_ports_of(start.kernel[i], start).len(),
                );
            }
            assert forall|i: int| 0 <= i < start.user.len() implies (#[trigger] start.user[i]).base
                == after.user[i].base by {
                lemma_without_ports_identity(
                    start.user[i],
                    unknown_ports_of(start.user[i], start),
                    unknown_ports_of(start.user[i], start).len(),
                );
            }
            lemma_same_identities_wf(start, after);
            lemma_interfaces_view(Interfaces { kernel_ifaces, user_ifaces });
        }
        let r = Interfaces { kernel_ifaces, user_ifaces };
        proof {
            lemma_interfaces_view(r);
        }
        *self = r;
    }

    /// Takes out the interfaces that `ignored` names: an interface of the
    /// kernel by its name, beside any kernel kind; one beside the kernel's
    /// by name and kind.
    pub fn remove_ignored_ifaces(&mut self, ignored: &Vec<(String, InterfaceType)>)
        ensures
            final(self)@ == old(self)@.without_ignored(identities_view(*ignored)),
    {
        proof {
            use_type_invariant(&*self);
            lemma_interfaces_view(*self);
        }
        let ghost start = self@;
        let kept_kernel = keep_partition(&self.kernel_ifaces, ignored);
        let kept_user = keep_partition(&self.user_ifaces, ignored);
        let kernel_ifaces = kept_kernel.0;
        let user_ifaces = kept_user.0;
        proof {
            let kp = kept_kernel.1@;
            let up = kept_user.1@;
            let k = vec_view(kernel_ifaces);
            let u = vec_view(user_ifaces);
            assert forall|i: int| 0 <= i < k.len() implies !(#[trigger] k[i]).is_userspace() by {
                assert(k[i] == start.kernel[kp[i]]);
            }
            assert forall|i: int| 0 <= i < u.len() implies (#[trigger] u[i]).is_userspace() by {
                assert(u[i] == start.user[up[i]]);
            }
            assert forall|i: int, j: int| 0 <= i < k.len() && 0 <= j < k.len() && i != j implies (
            #[trigger] k[i]).base.name != (#[trigger] k[j]).base.name by {
                assert(k[i] == start.kernel[kp[i]] && k[j] == start.kernel[kp[j]]);
                if i < j {
                    assert(kp[i] < kp[j]);
                } else {
                    assert(kp[j] < kp[i]);
                }
            }
            assert forall|i: int, j: int| 0 <= i < u.len() && 0 <= j < u.len() && i != j implies !((
            #[trigger] u[i]).base.name == (#[trigger] u[j]).base.name && u[i].base.iface_type
                == u[j].base.iface_type) by {
                assert(u[i] == start.user[up[i]] && u[j] == start.user[up[j]]);
                if i < j {
                    assert(up[i] < up[j]);
                } else {
                    assert(up[j] < up[i]);
                }
            }
            lemma_interfaces_view(Interfaces { kernel_ifaces, user_ifaces });
        }
        let r = Interfaces { kernel_ifaces, user_ifaces };
        proof {
            lemma_interfaces_view(r);
        }
        *self = r;
    }
}

} // verus!
