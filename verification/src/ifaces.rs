use crate::base::{BaseModel, InterfaceType};
use crate::iface::{Interface, InterfaceModel, OvsInterface};
use crate::views::clone_opt_string;
use crate::views::{opt_view, vec_view};
use vstd::prelude::*;

verus! {

/// The interfaces of a state, in two partitions: those of the kernel, found
/// by name, and those beside the kernel's, found by name and kind. Each
/// partition keeps the order in which its interfaces were put.
#[derive(Debug)]
pub struct Interfaces {
    pub(crate) kernel_ifaces: Vec<Interface>,
    pub(crate) user_ifaces: Vec<Interface>,
}

/// Mathematical model of the interfaces of a state.
pub struct InterfacesModel {
    pub kernel: Seq<InterfaceModel>,
    pub user: Seq<InterfaceModel>,
}

/// Whether `i` has the name `name` and, where `t` names a kind, that kind.
pub open spec fn has_identity(i: InterfaceModel, name: Seq<char>, t: Option<InterfaceType>) -> bool {
    i.base.name == name && (t matches Some(x) ==> i.base.iface_type == x)
}

/// Whether `at` is the first place in `s` of an interface of the identity.
pub open spec fn is_first_of(
    s: Seq<InterfaceModel>,
    name: Seq<char>,
    t: Option<InterfaceType>,
    at: int,
) -> bool {
    &&& 0 <= at < s.len()
    &&& has_identity(s[at], name, t)
    &&& forall|j: int| 0 <= j < at ==> !has_identity(#[trigger] s[j], name, t)
}

/// The first place in `s` of an interface of the identity, if there is one.
pub open spec fn first_of(s: Seq<InterfaceModel>, name: Seq<char>, t: Option<InterfaceType>) -> Option<
    int,
> {
    if exists|at: int| is_first_of(s, name, t, at) {
        Some(choose|at: int| is_first_of(s, name, t, at))
    } else {
        None
    }
}

/// There is one first place at most.
pub proof fn lemma_first_of(s: Seq<InterfaceModel>, name: Seq<char>, t: Option<InterfaceType>, at: int)
    requires
        is_first_of(s, name, t, at),
    ensures
        first_of(s, name, t) == Some(at),
{
    let other = choose|x: int| is_first_of(s, name, t, x);
    if other < at {
        assert(!has_identity(s[other], name, t));
    }
    if at < other {
        assert(!has_identity(s[at], name, t));
    }
}

/// Where no interface of `s` has the identity, there is no first place.
pub proof fn lemma_first_of_none(s: Seq<InterfaceModel>, name: Seq<char>, t: Option<InterfaceType>)
    requires
        forall|j: int| 0 <= j < s.len() ==> !has_identity(#[trigger] s[j], name, t),
    ensures
        first_of(s, name, t) is None,
{
    if exists|at: int| is_first_of(s, name, t, at) {
        let at = choose|at: int| is_first_of(s, name, t, at);
        assert(!has_identity(s[at], name, t));
    }
}

/// The interface at a place that may be missing.
pub open spec fn at_place(s: Seq<InterfaceModel>, at: Option<int>) -> Option<InterfaceModel> {
    match at {
        Some(i) => Some(s[i]),
        None => None,
    }
}

/// `s` with `i` in the place of the first interface of its identity, or at
/// the end where there is none. In the kernel's partition the name alone is
/// the identity.
pub open spec fn put_in(s: Seq<InterfaceModel>, i: InterfaceModel, by_kind: bool) -> Seq<
    InterfaceModel,
> {
    let t = if by_kind {
        Some(i.base.iface_type)
    } else {
        None
    };
    match first_of(s, i.base.name, t) {
        Some(at) => s.update(at, i),
        None => s.push(i),
    }
}

impl InterfacesModel {
    pub open spec fn empty() -> InterfacesModel {
        InterfacesModel { kernel: Seq::empty(), user: Seq::empty() }
    }

    /// All interfaces: the kernel's, then those beside the kernel's.
    pub open spec fn all(self) -> Seq<InterfaceModel> {
        self.kernel + self.user
    }

    /// The interface with the name `name` and the kind `t`. A kind beside
    /// the kernel's is looked up by name and kind, a kernel kind by name
    /// alone. The unknown kind stands for any: the kernel's interface of the
    /// name, else the first of the name beside the kernel's.
    pub open spec fn lookup(self, name: Seq<char>, t: InterfaceType) -> Option<InterfaceModel> {
        if t == InterfaceType::Unknown {
            match first_of(self.kernel, name, None) {
                Some(at) => Some(self.kernel[at]),
                None => at_place(self.user, first_of(self.user, name, None)),
            }
        } else if t.spec_is_userspace() {
            at_place(self.user, first_of(self.user, name, Some(t)))
        } else {
            at_place(self.kernel, first_of(self.kernel, name, None))
        }
    }

    /// The interfaces with `i` put into its partition, in the place of the
    /// interface of its identity where there is one.
    pub open spec fn pushed(self, i: InterfaceModel) -> InterfacesModel {
        if i.is_userspace() {
            InterfacesModel { kernel: self.kernel, user: put_in(self.user, i, true) }
        } else {
            InterfacesModel { kernel: put_in(self.kernel, i, false), user: self.user }
        }
    }

    /// Whether each interface stands in its partition, and no two of a
    /// partition have the same identity.
    pub open spec fn wf(self) -> bool {
        &&& forall|i: int| 0 <= i < self.kernel.len() ==> !(#[trigger] self.kernel[i]).is_userspace()
        &&& forall|i: int| 0 <= i < self.user.len() ==> (#[trigger] self.user[i]).is_userspace()
        &&& forall|i: int, j: int|
            0 <= i < self.kernel.len() && 0 <= j < self.kernel.len() && i != j ==> (
            #[trigger] self.kernel[i]).base.name != (#[trigger] self.kernel[j]).base.name
        &&& forall|i: int, j: int|
            0 <= i < self.user.len() && 0 <= j < self.user.len() && i != j ==> !((
            #[trigger] self.user[i]).base.name == (#[trigger] self.user[j]).base.name
                && self.user[i].base.iface_type == self.user[j].base.iface_type)
    }
}

impl View for Interfaces {
    type V = InterfacesModel;

    closed spec fn view(&self) -> InterfacesModel {
        InterfacesModel { kernel: vec_view(self.kernel_ifaces), user: vec_view(self.user_ifaces) }
    }
}

/// Where the first interface of the identity stands in `v`.
pub(crate) fn find_iface(v: &Vec<Interface>, name: &str, t: Option<InterfaceType>) -> (r: Option<
    usize,
>)
    ensures
        match r {
            Some(at) => first_of(vec_view(*v), name@, t) == Some(at as int) && at < v.len(),
            None => first_of(vec_view(*v), name@, t) is None,
        },
{
    let owned = name.to_owned();
    let mut i: usize = 0;
    while i < v.len()
        invariant
            i <= v.len(),
            owned@ == name@,
            forall|j: int| 0 <= j < i ==> !has_identity(#[trigger] vec_view(*v)[j], name@, t),
        decreases v.len() - i,
    {
        let same_kind = match t {
            Some(x) => v[i].iface_type() == x,
            None => true,
        };
        if same_kind && v[i].base_iface().name == owned {
            proof {
                assert(vec_view(*v)[i as int] == v[i as int]@);
                lemma_first_of(vec_view(*v), name@, t, i as int);
            }
            return Some(i);
        }
        assert(vec_view(*v)[i as int] == v[i as int]@);
        i += 1;
    }
    proof {
        lemma_first_of_none(vec_view(*v), name@, t);
    }
    None
}

/// `v` with `iface` in the place of the first interface of its identity,
/// or at the end.
pub(crate) fn put_iface(v: &mut Vec<Interface>, iface: Interface, by_kind: bool)
    ensures
        vec_view(*final(v)) == put_in(vec_view(*old(v)), iface@, by_kind),
{
    let t = if by_kind {
        Some(iface.iface_type())
    } else {
        None
    };
    let found = find_iface(v, iface.name(), t);
    let ghost before = vec_view(*v);
    match found {
        Some(at) => {
            v.set(at, iface);
            assert(vec_view(*v) =~= before.update(at as int, iface@));
        },
        None => {
            v.push(iface);
            assert(vec_view(*v) =~= before.push(iface@));
        },
    }
}

/// `s` keeps distinct identities when `i` is put in.
pub proof fn lemma_put_in_distinct(s: Seq<InterfaceModel>, i: InterfaceModel, by_kind: bool)
    requires
        forall|a: int, b: int|
            0 <= a < s.len() && 0 <= b < s.len() && a != b ==> !((#[trigger] s[a]).base.name == (
            #[trigger] s[b]).base.name && (by_kind ==> s[a].base.iface_type
                == s[b].base.iface_type)),
    ensures
        forall|a: int, b: int|
            0 <= a < put_in(s, i, by_kind).len() && 0 <= b < put_in(s, i, by_kind).len() && a
                != b ==> !((#[trigger] put_in(s, i, by_kind)[a]).base.name == (#[trigger] put_in(
                s,
                i,
                by_kind,
            )[b]).base.name && (by_kind ==> put_in(s, i, by_kind)[a].base.iface_type == put_in(
                s,
                i,
                by_kind,
            )[b].base.iface_type)),
{
    let t = if by_kind {
        Some(i.base.iface_type)
    } else {
        None
    };
    let r = put_in(s, i, by_kind);
    match first_of(s, i.base.name, t) {
        Some(at) => {
            assert(is_first_of(s, i.base.name, t, at));
            assert forall|a: int, b: int| 0 <= a < r.len() && 0 <= b < r.len() && a != b implies !((
            #[trigger] r[a]).base.name == (#[trigger] r[b]).base.name && (by_kind
                ==> r[a].base.iface_type == r[b].base.iface_type)) by {
                if a == at {
                    assert(has_identity(s[at], i.base.name, t));
                    assert(!(s[at].base.name == s[b].base.name && (by_kind
                        ==> s[at].base.iface_type == s[b].base.iface_type)));
                } else if b == at {
                    assert(!(s[a].base.name == s[at].base.name && (by_kind
                        ==> s[a].base.iface_type == s[at].base.iface_type)));
                } else {
                    assert(r[a] == s[a] && r[b] == s[b]);
                }
            }
        },
        None => {
            assert forall|a: int, b: int| 0 <= a < r.len() && 0 <= b < r.len() && a != b implies !((
            #[trigger] r[a]).base.name == (#[trigger] r[b]).base.name && (by_kind
                ==> r[a].base.iface_type == r[b].base.iface_type)) by {
                if a == s.len() {
                    if has_identity(s[b], i.base.name, t) {
                        lemma_has_first(s, i.base.name, t, b);
                    }
                } else if b == s.len() {
                    if has_identity(s[a], i.base.name, t) {
                        lemma_has_first(s, i.base.name, t, a);
                    }
                } else {
                    assert(r[a] == s[a] && r[b] == s[b]);
                }
            }
        },
    }
}

/// Where some interface of `s` has the identity, there is a first one.
pub proof fn lemma_has_first(s: Seq<InterfaceModel>, name: Seq<char>, t: Option<InterfaceType>, at: int)
    requires
        0 <= at < s.len(),
        has_identity(s[at], name, t),
    ensures
        first_of(s, name, t) is Some,
    decreases at,
{
    if exists|j: int| 0 <= j < at && has_identity(#[trigger] s[j], name, t) {
        let j = choose|j: int| 0 <= j < at && has_identity(#[trigger] s[j], name, t);
        lemma_has_first(s, name, t, j);
    } else {
        assert(is_first_of(s, name, t, at));
    }
}

/// How the model follows from the two partitions.
pub(crate) proof fn lemma_interfaces_view(i: Interfaces)
    ensures
        i@ == (InterfacesModel { kernel: vec_view(i.kernel_ifaces), user: vec_view(i.user_ifaces) }),
{
}

impl Interfaces {
    #[verifier::type_invariant]
    pub(crate) open spec fn inv(self) -> bool {
        self@.wf()
    }

    /// No interfaces.
    pub fn new() -> (r: Self)
        ensures
            r@ == InterfacesModel::empty(),
    {
        let r = Interfaces { kernel_ifaces: Vec::new(), user_ifaces: Vec::new() };
        assert(r@.kernel =~= Seq::empty());
        assert(r@.user =~= Seq::empty());
        r
    }

    /// Whether there is no interface.
    pub fn is_empty(&self) -> (r: bool)
        ensures
            r == (self@.all().len() == 0),
    {
        self.kernel_ifaces.len() == 0 && self.user_ifaces.len() == 0
    }

    /// The interfaces of the kernel, in the order in which they were put.
    pub fn kernel_ifaces(&self) -> (r: &Vec<Interface>)
        ensures
            vec_view(*r) == self@.kernel,
            self@.wf(),
    {
        proof {
            use_type_invariant(self);
        }
        &self.kernel_ifaces
    }

    /// The interfaces beside the kernel's, in the order in which they were
    /// put.
    pub fn user_ifaces(&self) -> (r: &Vec<Interface>)
        ensures
            vec_view(*r) == self@.user,
            self@.wf(),
    {
        proof {
            use_type_invariant(self);
        }
        &self.user_ifaces
    }

    /// A copy of all interfaces: the kernel's, then those beside the
    /// kernel's.
    pub fn to_vec(&self) -> (r: Vec<Interface>)
        ensures
            vec_view(r) == self@.all(),
    {
        let mut r: Vec<Interface> = Vec::new();
        let mut i: usize = 0;
        while i < self.kernel_ifaces.len()
            invariant
                i <= self.kernel_ifaces.len(),
                vec_view(r) == self@.kernel.take(i as int),
            decreases self.kernel_ifaces.len() - i,
        {
            let ghost before = vec_view(r);
            r.push(self.kernel_ifaces[i].clone());
            assert(vec_view(r) =~= before.push(self.kernel_ifaces[i as int]@));
            assert(vec_view(r) =~= self@.kernel.take(i + 1));
            i += 1;
        }
        assert(self@.kernel.take(i as int) =~= self@.kernel);
        let mut j: usize = 0;
        while j < self.user_ifaces.len()
            invariant
                j <= self.user_ifaces.len(),
                vec_view(r) == self@.kernel + self@.user.take(j as int),
            decreases self.user_ifaces.len() - j,
        {
            let ghost before = vec_view(r);
            r.push(self.user_ifaces[j].clone());
            assert(vec_view(r) =~= before.push(self.user_ifaces[j as int]@));
            assert(vec_view(r) =~= self@.kernel + self@.user.take(j + 1));
            j += 1;
        }
        assert(self@.user.take(j as int) =~= self@.user);
        r
    }

    /// Puts `iface` into its partition, in the place of the interface of its
    /// identity where there is one, else at the end.
    pub fn push(&mut self, iface: Interface)
        ensures
            final(self)@ == old(self)@.pushed(iface@),
    {
        proof {
            use_type_invariant(&*self);
        }
        let mut taken = Interfaces { kernel_ifaces: Vec::new(), user_ifaces: Vec::new() };
        core::mem::swap(self, &mut taken);
        let Interfaces { kernel_ifaces, user_ifaces } = taken;
        let mut kernel_ifaces = kernel_ifaces;
        let mut user_ifaces = user_ifaces;
        let ghost m = iface@;
        if iface.is_userspace() {
            proof {
                lemma_put_in_distinct(vec_view(user_ifaces), m, true);
                lemma_put_in_members(vec_view(user_ifaces), m, true);
            }
            put_iface(&mut user_ifaces, iface, true);
        } else {
            proof {
                lemma_put_in_distinct(vec_view(kernel_ifaces), m, false);
                lemma_put_in_members(vec_view(kernel_ifaces), m, false);
            }
            put_iface(&mut kernel_ifaces, iface, false);
        }
        *self = Interfaces { kernel_ifaces, user_ifaces };
    }

    /// The interface with the name `name` and the kind `iface_type`, where
    /// the unknown kind stands for any.
    pub fn get_iface(&self, name: &str, iface_type: InterfaceType) -> (r: Option<&Interface>)
        ensures
            opt_view(r) == self@.lookup(name@, iface_type),
    {
        if iface_type == InterfaceType::Unknown {
            match find_iface(&self.kernel_ifaces, name, None) {
                Some(at) => Some(&self.kernel_ifaces[at]),
                None => match find_iface(&self.user_ifaces, name, None) {
                    Some(at) => Some(&self.user_ifaces[at]),
                    None => None,
                },
            }
        } else if iface_type.is_userspace() {
            match find_iface(&self.user_ifaces, name, Some(iface_type)) {
                Some(at) => Some(&self.user_ifaces[at]),
                None => None,
            }
        } else {
            match find_iface(&self.kernel_ifaces, name, None) {
                Some(at) => Some(&self.kernel_ifaces[at]),
                None => None,
            }
        }
    }
}

impl InterfacesModel {
    /// The interfaces with `i` in the place `at` of the partition beside the
    /// kernel's, where `user` says so, else of the kernel's.
    pub open spec fn replaced(self, user: bool, at: int, i: InterfaceModel) -> InterfacesModel {
        if user {
            InterfacesModel { kernel: self.kernel, user: self.user.update(at, i) }
        } else {
            InterfacesModel { kernel: self.kernel.update(at, i), user: self.user }
        }
    }

    /// The partition beside the kernel's, where `user` says so, else the
    /// kernel's.
    pub open spec fn partition(self, user: bool) -> Seq<InterfaceModel> {
        if user {
            self.user
        } else {
            self.kernel
        }
    }
}

impl Clone for Interfaces {
    fn clone(&self) -> (r: Self)
        ensures
            r@ == self@,
    {
        proof {
            use_type_invariant(self);
        }
        let kernel_ifaces = self.kernel_ifaces.clone();
        let user_ifaces = self.user_ifaces.clone();
        proof {
            assert(vec_view(kernel_ifaces) =~= vec_view(self.kernel_ifaces));
            assert(vec_view(user_ifaces) =~= vec_view(self.user_ifaces));
        }
        Interfaces { kernel_ifaces, user_ifaces }
    }
}

impl Interfaces {
    /// Puts `iface` in the place `at` of a partition, where the interface
    /// there has the same name and kind.
    pub(crate) fn replace_at(&mut self, user: bool, at: usize, iface: Interface)
        requires
            at < old(self)@.partition(user).len(),
            old(self)@.partition(user)[at as int].base.name == iface@.base.name,
            old(self)@.partition(user)[at as int].base.iface_type == iface@.base.iface_type,
        ensures
            final(self)@ == old(self)@.replaced(user, at as int, iface@),
    {
        proof {
            use_type_invariant(&*self);
        }
        let ghost start = self@;
        let ghost m = iface@;
        let mut taken = Interfaces { kernel_ifaces: Vec::new(), user_ifaces: Vec::new() };
        core::mem::swap(self, &mut taken);
        let Interfaces { kernel_ifaces, user_ifaces } = taken;
        let mut kernel_ifaces = kernel_ifaces;
        let mut user_ifaces = user_ifaces;
        if user {
            user_ifaces.set(at, iface);
            assert(vec_view(user_ifaces) =~= start.user.update(at as int, m));
        } else {
            kernel_ifaces.set(at, iface);
            assert(vec_view(kernel_ifaces) =~= start.kernel.update(at as int, m));
        }
        proof {
            lemma_same_identities_wf(start, start.replaced(user, at as int, m));
        }
        *self = Interfaces { kernel_ifaces, user_ifaces };
    }
}

/// Every interface of `s` with `i` put in is `i` or one of `s`.
pub proof fn lemma_put_in_members(s: Seq<InterfaceModel>, i: InterfaceModel, by_kind: bool)
    ensures
        forall|a: int|
            0 <= a < put_in(s, i, by_kind).len() ==> #[trigger] put_in(s, i, by_kind)[a] == i || (a
                < s.len() && put_in(s, i, by_kind)[a] == s[a]),
{
    let t = if by_kind {
        Some(i.base.iface_type)
    } else {
        None
    };
    if first_of(s, i.base.name, t) is Some {
        let at = first_of(s, i.base.name, t)->0;
        assert(is_first_of(s, i.base.name, t, at));
    }
}


/// The record for an OVS interface whose device in the kernel is the TUN
/// device `tun`: the base record of `tun`, with the kind, state and
/// controller of `ovs`, and what is specific to `ovs`; then every setting of
/// `ovs` laid over it.
pub open spec fn ovs_over_tun(tun: InterfaceModel, ovs: InterfaceModel) -> InterfaceModel {
    InterfaceModel {
        base: BaseModel {
            state: ovs.base.state,
            iface_type: InterfaceType::OvsInterface,
            controller: ovs.base.controller,
            controller_type: ovs.base.controller_type,
            ..tun.base
        },
        specific: ovs.specific,
    }.updated(ovs)
}

/// What one interface `o` of another collection does to `cur`, and to the
/// interfaces that wait to be put in: it is laid over the interface of its
/// identity, or waits where there is none. An OVS interface that meets a
/// TUN device of its name waits too, as the record that `ovs_over_tun`
/// gives.
pub open spec fn update_step(
    acc: (InterfacesModel, Seq<InterfaceModel>),
    o: InterfaceModel,
) -> (InterfacesModel, Seq<InterfaceModel>) {
    let cur = acc.0;
    let pending = acc.1;
    if o.is_userspace() {
        match first_of(cur.user, o.base.name, Some(o.base.iface_type)) {
            Some(at) => (
                InterfacesModel {
                    kernel: cur.kernel,
                    user: cur.user.update(at, cur.user[at].updated(o)),
                },
                pending,
            ),
            None => (cur, pending.push(o)),
        }
    } else {
        match first_of(cur.kernel, o.base.name, None) {
            Some(at) => if cur.kernel[at].base.iface_type == InterfaceType::Tun
                && o.base.iface_type == InterfaceType::OvsInterface {
                if o.specific is OvsInterface {
                    (cur, pending.push(ovs_over_tun(cur.kernel[at], o)))
                } else {
                    (cur, pending)
                }
            } else {
                (
                    InterfacesModel {
                        kernel: cur.kernel.update(at, cur.kernel[at].updated(o)),
                        user: cur.user,
                    },
                    pending,
                )
            },
            None => (cur, pending.push(o)),
        }
    }
}

/// What the first `n` interfaces of `items` do to `cur`, one after the
/// other.
pub open spec fn update_fold(cur: InterfacesModel, items: Seq<InterfaceModel>, n: nat) -> (
    InterfacesModel,
    Seq<InterfaceModel>,
)
    decreases n,
{
    if n == 0 || n > items.len() {
        (cur, Seq::empty())
    } else {
        update_step(update_fold(cur, items, (n - 1) as nat), items[n - 1])
    }
}

/// `cur` with the first `n` interfaces of `pending` put in, one after the
/// other.
pub open spec fn push_all(cur: InterfacesModel, pending: Seq<InterfaceModel>, n: nat) -> InterfacesModel
    decreases n,
{
    if n == 0 || n > pending.len() {
        cur
    } else {
        push_all(cur, pending, (n - 1) as nat).pushed(pending[n - 1])
    }
}

impl InterfacesModel {
    /// The interfaces with those of `other` merged in: each interface of
    /// `other`, the kernel's first, is laid over the interface of its
    /// identity; those that find none are put in after that, in their
    /// order.
    pub open spec fn updated(self, other: InterfacesModel) -> InterfacesModel {
        let folded = update_fold(self, other.all(), other.all().len());
        push_all(folded.0, folded.1, folded.1.len())
    }

    /// Whether some interface is an OVS bridge or an OVS interface.
    pub open spec fn has_ovs(self) -> bool {
        exists|i: int|
            0 <= i < self.all().len() && ((#[trigger] self.all()[i]).base.iface_type
                == InterfaceType::OvsBridge || self.all()[i].base.iface_type
                == InterfaceType::OvsInterface)
    }

    /// Whether `other` has the same identities in the same places.
    pub open spec fn same_identities(self, other: InterfacesModel) -> bool {
        &&& self.kernel.len() == other.kernel.len()
        &&& self.user.len() == other.user.len()
        &&& forall|i: int|
            0 <= i < self.kernel.len() ==> (#[trigger] self.kernel[i]).base.name
                == other.kernel[i].base.name && self.kernel[i].base.iface_type
                == other.kernel[i].base.iface_type
        &&& forall|i: int|
            0 <= i < self.user.len() ==> (#[trigger] self.user[i]).base.name
                == other.user[i].base.name && self.user[i].base.iface_type
                == other.user[i].base.iface_type
    }
}

/// Collections with the same identities in the same places are well formed
/// together.
pub proof fn lemma_same_identities_wf(a: InterfacesModel, b: InterfacesModel)
    requires
        a.wf(),
        a.same_identities(b),
    ensures
        b.wf(),
{
    assert forall|i: int| 0 <= i < b.kernel.len() implies !(#[trigger] b.kernel[i]).is_userspace() by {
        assert(!a.kernel[i].is_userspace());
    }
    assert forall|i: int| 0 <= i < b.user.len() implies (#[trigger] b.user[i]).is_userspace() by {
        assert(a.user[i].is_userspace());
    }
    assert forall|i: int, j: int|
        0 <= i < b.kernel.len() && 0 <= j < b.kernel.len() && i != j implies (
    #[trigger] b.kernel[i]).base.name != (#[trigger] b.kernel[j]).base.name by {
        assert(a.kernel[i].base.name != a.kernel[j].base.name);
    }
    assert forall|i: int, j: int|
        0 <= i < b.user.len() && 0 <= j < b.user.len() && i != j implies !((
    #[trigger] b.user[i]).base.name == (#[trigger] b.user[j]).base.name
        && b.user[i].base.iface_type == b.user[j].base.iface_type) by {
        assert(!(a.user[i].base.name == a.user[j].base.name && a.user[i].base.iface_type
            == a.user[j].base.iface_type));
    }
}

/// The record for an OVS interface whose device in the kernel is a TUN
/// device.
fn make_ovs_over_tun(tun: &Interface, ovs: &OvsInterface, other: &Interface) -> (r: Interface)
    requires
        other@ == Interface::OvsInterface(*ovs)@,
    ensures
        r@ == ovs_over_tun(tun@, other@),
{
    let mut base = tun.base_iface().clone();
    base.state = ovs.base.state;
    base.iface_type = InterfaceType::OvsInterface;
    base.controller = clone_opt_string(&ovs.base.controller);
    base.controller_type = ovs.base.controller_type;
    let mut new_iface = Interface::OvsInterface(
        OvsInterface { base, patch_peer: clone_opt_string(&ovs.patch_peer) },
    );
    new_iface.update(other);
    new_iface
}

impl Interfaces {
    /// Whether some interface is an OVS bridge or an OVS interface.
    pub fn has_up_ovs_iface(&self) -> (r: bool)
        ensures
            r == self@.has_ovs(),
    {
        let all = self.to_vec();
        let mut i: usize = 0;
        while i < all.len()
            invariant
                i <= all.len(),
                vec_view(all) == self@.all(),
                forall|j: int|
                    0 <= j < i ==> !((#[trigger] self@.all()[j]).base.iface_type
                        == InterfaceType::OvsBridge || self@.all()[j].base.iface_type
                        == InterfaceType::OvsInterface),
            decreases all.len() - i,
        {
            assert(vec_view(all)[i as int] == all[i as int]@);
            let t = all[i].iface_type();
            if t == InterfaceType::OvsBridge || t == InterfaceType::OvsInterface {
                return true;
            }
            i += 1;
        }
        false
    }

    /// Merges the interfaces of `other` in: each interface of `other`, the
    /// kernel's first, is laid over the interface of its identity; those
    /// that find none are put in after that, in their order. An OVS
    /// interface of `other` whose device in the kernel is a TUN device takes
    /// the place of that device, with the identity and state of the device
    /// as its base.
    pub fn update(&mut self, other: &Self)
        ensures
            final(self)@ == old(self)@.updated(other@),
    {
        proof {
            use_type_invariant(&*self);
        }
        let ghost start = self@;
        let mut taken = Interfaces { kernel_ifaces: Vec::new(), user_ifaces: Vec::new() };
        core::mem::swap(self, &mut taken);
        let Interfaces { kernel_ifaces, user_ifaces } = taken;
        let mut kernel_ifaces = kernel_ifaces;
        let mut user_ifaces = user_ifaces;
        let mut new_ifaces: Vec<Interface> = Vec::new();
        let other_ifaces = other.to_vec();
        let ghost items = other@.all();
        let mut i: usize = 0;
        assert(vec_view(new_ifaces) =~= Seq::<InterfaceModel>::empty());
        while i < other_ifaces.len()
            invariant
                i <= other_ifaces.len(),
                vec_view(other_ifaces) == items,
                start.wf(),
                start.same_identities(
                    InterfacesModel {
                        kernel: vec_view(kernel_ifaces),
                        user: vec_view(user_ifaces),
                    },
                ),
                update_fold(start, items, i as nat) == (
                    InterfacesModel {
                        kernel: vec_view(kernel_ifaces),
                        user: vec_view(user_ifaces),
                    },
                    vec_view(new_ifaces),
                ),
            decreases other_ifaces.len() - i,
        {
            let other_iface = &other_ifaces[i];
            assert(items[i as int] == other_iface@);
            let ghost kernel_before = vec_view(kernel_ifaces);
            let ghost user_before = vec_view(user_ifaces);
            let ghost pending_before = vec_view(new_ifaces);
            if other_iface.is_userspace() {
                match find_iface(&user_ifaces, other_iface.name(), Some(other_iface.iface_type())) {
                    Some(at) => {
                        let mut self_iface = user_ifaces[at].clone();
                        self_iface.update(other_iface);
                        proof {
                            crate::iface_ops::lemma_updated_identity(
                                user_before[at as int],
                                other_iface@,
                            );
                        }
                        user_ifaces.set(at, self_iface);
                        assert(vec_view(user_ifaces) =~= user_before.update(
                            at as int,
                            user_before[at as int].updated(other_iface@),
                        ));
                    },
                    None => {
                        new_ifaces.push(other_iface.clone());
                        assert(vec_view(new_ifaces) =~= pending_before.push(other_iface@));
                    },
                }
            } else {
                match find_iface(&kernel_ifaces, other_iface.name(), None) {
                    Some(at) => {
                        if kernel_ifaces[at].iface_type() == InterfaceType::Tun
                            && other_iface.iface_type() == InterfaceType::OvsInterface {
                            if let Interface::OvsInterface(other_ovs_iface) = other_iface {
                                let new_iface = make_ovs_over_tun(
                                    &kernel_ifaces[at],
                                    other_ovs_iface,
                                    other_iface,
                                );
                                new_ifaces.push(new_iface);
                                assert(vec_view(new_ifaces) =~= pending_before.push(
                                    ovs_over_tun(kernel_before[at as int], other_iface@),
                                ));
                            }
                        } else {
                            let mut self_iface = kernel_ifaces[at].clone();
                            self_iface.update(other_iface);
                            proof {
                                crate::iface_ops::lemma_updated_identity(
                                    kernel_before[at as int],
                                    other_iface@,
                                );
                            }
                            kernel_ifaces.set(at, self_iface);
                            assert(vec_view(kernel_ifaces) =~= kernel_before.update(
                                at as int,
                                kernel_before[at as int].updated(other_iface@),
                            ));
                        }
                    },
                    None => {
                        new_ifaces.push(other_iface.clone());
                        assert(vec_view(new_ifaces) =~= pending_before.push(other_iface@));
                    },
                }
            }
            i += 1;
        }
        proof {
            lemma_same_identities_wf(
                start,
                InterfacesModel { kernel: vec_view(kernel_ifaces), user: vec_view(user_ifaces) },
            );
        }
        *self = Interfaces { kernel_ifaces, user_ifaces };
        let ghost folded = self@;
        let mut j: usize = 0;
        while j < new_ifaces.len()
            invariant
                j <= new_ifaces.len(),
                self@ == push_all(folded, vec_view(new_ifaces), j as nat),
            decreases new_ifaces.len() - j,
        {
            assert(vec_view(new_ifaces)[j as int] == new_ifaces[j as int]@);
            self.push(new_ifaces[j].clone());
            j += 1;
        }
    }
}

} // verus!
