use crate::base::{InterfaceIp, InterfaceType, IpModel};
use crate::error::NipartError;
use crate::iface::{Interface, InterfaceModel, SpecificModel};
use crate::merged::{MergedInterface, MergedInterfaces, MergedModel};
use crate::views::{
    clone_opt_string, clone_strings, opt_view, strings_contain, vec_view,
};
use vstd::prelude::*;
use vstd::string::StrSliceExecFns;

verus! {

/// The kinds of interface that the backend programs.
#[derive(Debug, Clone, Copy, PartialEq, Eq, Structural)]
pub enum NisporIfaceType {
    Bridge,
    Bond,
    Ethernet,
    Veth,
    Vlan,
    Unknown,
}

/// What the backend is to do with an interface.
#[derive(Debug, Clone, Copy, PartialEq, Eq, Structural)]
pub enum NisporIfaceState {
    Up,
    Absent,
}

/// The settings of a VLAN for the backend.
#[derive(Debug, PartialEq, Eq)]
pub struct NisporVlanConf {
    pub vlan_id: u16,
    pub base_iface: String,
}

/// Mathematical model of the settings of a VLAN for the backend.
pub struct NisporVlanModel {
    pub vlan_id: u16,
    pub base_iface: Seq<char>,
}

impl View for NisporVlanConf {
    type V = NisporVlanModel;

    open spec fn view(&self) -> NisporVlanModel {
        NisporVlanModel { vlan_id: self.vlan_id, base_iface: self.base_iface@ }
    }
}

/// The instruction for one interface, as plain values for the backend.
#[derive(Debug, PartialEq, Eq)]
pub struct NisporIfaceConf {
    pub name: String,
    pub iface_type: Option<NisporIfaceType>,
    pub state: NisporIfaceState,
    pub controller: Option<String>,
    /// The addresses that the interface is to have, where it has addresses
    /// of its own.
    pub ipv4: Option<Vec<String>>,
    pub ipv6: Option<Vec<String>>,
    pub mac_address: Option<String>,
    pub veth_peer: Option<String>,
    pub vlan: Option<NisporVlanConf>,
}

/// Mathematical model of the instruction for one interface.
pub struct NisporConfModel {
    pub name: Seq<char>,
    pub iface_type: Option<NisporIfaceType>,
    pub state: NisporIfaceState,
    pub controller: Option<Seq<char>>,
    pub ipv4: Option<Seq<Seq<char>>>,
    pub ipv6: Option<Seq<Seq<char>>>,
    pub mac_address: Option<Seq<char>>,
    pub veth_peer: Option<Seq<char>>,
    pub vlan: Option<NisporVlanModel>,
}

impl View for NisporIfaceConf {
    type V = NisporConfModel;

    open spec fn view(&self) -> NisporConfModel {
        NisporConfModel {
            name: self.name@,
            iface_type: self.iface_type,
            state: self.state,
            controller: opt_view(self.controller),
            ipv4: crate::views::opt_vec_view(self.ipv4),
            ipv6: crate::views::opt_vec_view(self.ipv6),
            mac_address: opt_view(self.mac_address),
            veth_peer: opt_view(self.veth_peer),
            vlan: opt_view(self.vlan),
        }
    }
}

/// The kind of the backend for a kind of interface.
pub open spec fn np_type_of(t: InterfaceType) -> NisporIfaceType {
    match t {
        InterfaceType::LinuxBridge => NisporIfaceType::Bridge,
        InterfaceType::Bond => NisporIfaceType::Bond,
        InterfaceType::Ethernet => NisporIfaceType::Ethernet,
        InterfaceType::Veth => NisporIfaceType::Veth,
        InterfaceType::Vlan => NisporIfaceType::Vlan,
        _ => NisporIfaceType::Unknown,
    }
}

/// The addresses that an address family is to have: those that are set,
/// where the family is on, else none.
pub open spec fn np_addresses(ip: Option<IpModel>) -> Seq<Seq<char>> {
    match ip {
        Some(c) => if c.enabled == Some(true) {
            match c.addresses {
                Some(l) => l,
                None => Seq::empty(),
            }
        } else {
            Seq::empty()
        },
        None => Seq::empty(),
    }
}

/// The peer of a veth pair, where the interface is one end of one.
pub open spec fn veth_peer_of(i: InterfaceModel) -> Option<Seq<char>> {
    match i.specific {
        SpecificModel::Ethernet { veth_peer, .. } => veth_peer,
        _ => None,
    }
}

/// The settings of a VLAN that names both its base interface and its
/// number.
pub open spec fn np_vlan_of(i: InterfaceModel) -> Option<NisporVlanModel> {
    match i.specific {
        SpecificModel::Vlan { vlan_base_iface: Some(b), vlan_id: Some(n) } => Some(
            NisporVlanModel { vlan_id: n, base_iface: b },
        ),
        _ => None,
    }
}

/// The instruction of the backend for an interface. An interface that is to
/// be gone is named with its kind, and nothing more. Any other is to be up,
/// with its controller, its hardware address, its addresses where it has
/// addresses of its own, and what is specific to a veth pair or a VLAN.
pub open spec fn np_conf_of(i: InterfaceModel) -> NisporConfModel {
    let kind = if i.specific is Ethernet && veth_peer_of(i) is Some {
        NisporIfaceType::Veth
    } else {
        np_type_of(i.base.iface_type)
    };
    if i.is_absent() {
        NisporConfModel {
            name: i.base.name,
            iface_type: Some(kind),
            state: NisporIfaceState::Absent,
            controller: None,
            ipv4: None,
            ipv6: None,
            mac_address: None,
            veth_peer: None,
            vlan: None,
        }
    } else {
        NisporConfModel {
            name: i.base.name,
            iface_type: Some(kind),
            state: NisporIfaceState::Up,
            controller: i.base.controller,
            ipv4: if i.base.can_have_ip() {
                Some(np_addresses(i.base.ipv4))
            } else {
                None
            },
            ipv6: if i.base.can_have_ip() {
                Some(np_addresses(i.base.ipv6))
            } else {
                None
            },
            mac_address: i.base.mac_address,
            veth_peer: veth_peer_of(i),
            vlan: np_vlan_of(i),
        }
    }
}

/// The kind of the backend for a kind of interface.
pub fn nipart_iface_type_to_np(nms_iface_type: &InterfaceType) -> (r: NisporIfaceType)
    ensures
        r == np_type_of(*nms_iface_type),
{
    match nms_iface_type {
        InterfaceType::LinuxBridge => NisporIfaceType::Bridge,
        InterfaceType::Bond => NisporIfaceType::Bond,
        InterfaceType::Ethernet => NisporIfaceType::Ethernet,
        InterfaceType::Veth => NisporIfaceType::Veth,
        InterfaceType::Vlan => NisporIfaceType::Vlan,
        _ => NisporIfaceType::Unknown,
    }
}

/// The addresses that an address family is to have.
pub fn nipart_ip_to_np(ip: Option<&InterfaceIp>) -> (r: Vec<String>)
    ensures
        vec_view(r) == np_addresses(opt_view(ip)),
{
    let none: Vec<String> = Vec::new();
    assert(vec_view(none) =~= Seq::<Seq<char>>::empty());
    match ip {
        Some(c) => {
            if c.enabled == Some(true) {
                match &c.addresses {
                    Some(l) => clone_strings(l),
                    None => none,
                }
            } else {
                none
            }
        },
        None => none,
    }
}

/// The instruction of the backend for an interface.
pub fn nipart_iface_to_np(nms_iface: &Interface) -> (r: Result<NisporIfaceConf, NipartError>)
    ensures
        r matches Ok(c) && c@ == np_conf_of(nms_iface@),
{
    let mut np_iface_type = nipart_iface_type_to_np(&nms_iface.iface_type());
    if let Interface::Ethernet(iface) = nms_iface {
        if iface.veth_peer.is_some() {
            np_iface_type = NisporIfaceType::Veth;
        }
    }
    let mut np_iface = NisporIfaceConf {
        name: nms_iface.name().to_owned(),
        iface_type: Some(np_iface_type),
        state: NisporIfaceState::Absent,
        controller: None,
        ipv4: None,
        ipv6: None,
        mac_address: None,
        veth_peer: None,
        vlan: None,
    };
    if nms_iface.is_absent() {
        return Ok(np_iface);
    }
    np_iface.state = NisporIfaceState::Up;
    let base_iface = nms_iface.base_iface();
    np_iface.controller = clone_opt_string(&base_iface.controller);
    if base_iface.can_have_ip() {
        np_iface.ipv4 = Some(nipart_ip_to_np(base_iface.ipv4.as_ref()));
        np_iface.ipv6 = Some(nipart_ip_to_np(base_iface.ipv6.as_ref()));
    }
    np_iface.mac_address = clone_opt_string(&base_iface.mac_address);
    if let Interface::Ethernet(eth_iface) = nms_iface {
        np_iface.veth_peer = clone_opt_string(&eth_iface.veth_peer);
    } else if let Interface::Vlan(vlan_iface) = nms_iface {
        np_iface.vlan = match (&vlan_iface.vlan_base_iface, vlan_iface.vlan_id) {
            (Some(b), Some(n)) => Some(NisporVlanConf { vlan_id: n, base_iface: b.clone() }),
            _ => None,
        };
    }
    Ok(np_iface)
}

/// Whether the record is handed to the backend for the apply: its
/// interface is of a known kind and not to be gone, and it has an
/// instruction.
pub open spec fn is_applied(m: MergedModel) -> bool {
    m.merged.base.iface_type != InterfaceType::Unknown && !m.merged.is_absent() && m.for_apply
        is Some
}

/// The instructions of the backend for the first `n` records, in their
/// order: one for each record that is handed to the backend.
pub open spec fn confs_fold(records: Seq<MergedModel>, n: nat) -> Seq<NisporConfModel>
    decreases n,
{
    if n == 0 || n > records.len() {
        Seq::empty()
    } else if is_applied(records[n - 1]) {
        confs_fold(records, (n - 1) as nat).push(np_conf_of(records[n - 1].for_apply->0))
    } else {
        confs_fold(records, (n - 1) as nat)
    }
}

/// The instructions of the backend for the records, in their order: one
/// for each record whose interface is of a known kind and not to be gone.
pub fn iface_confs(records: &Vec<MergedInterface>) -> (r: Vec<NisporIfaceConf>)
    ensures
        vec_view(r) == confs_fold(vec_view(*records), records.len() as nat),
{
    let ghost all = vec_view(*records);
    let mut np_ifaces: Vec<NisporIfaceConf> = Vec::new();
    let mut i: usize = 0;
    assert(vec_view(np_ifaces) =~= confs_fold(all, 0));
    while i < records.len()
        invariant
            i <= records.len(),
            all == vec_view(*records),
            vec_view(np_ifaces) == confs_fold(all, i as nat),
        decreases records.len() - i,
    {
        assert(all[i as int] == records[i as int]@);
        let merged_iface = &records[i];
        if merged_iface.merged.iface_type() != InterfaceType::Unknown
            && !merged_iface.merged.is_absent() {
            if let Some(iface) = merged_iface.for_apply.as_ref() {
                let ghost before = vec_view(np_ifaces);
                match nipart_iface_to_np(iface) {
                    Ok(c) => {
                        np_ifaces.push(c);
                        assert(vec_view(np_ifaces) =~= before.push(c@));
                    },
                    Err(_) => {},
                }
            }
        }
        i += 1;
    }
    np_ifaces
}

/// The peer of the veth pair that the record was observed as one end of.
pub open spec fn observed_peer(m: MergedModel) -> Option<Seq<char>> {
    match m.current {
        Some(c) => veth_peer_of(c),
        None => None,
    }
}

/// What the first `n` kernel records come to when the interfaces that are
/// to be gone are taken away: the instructions so far, and the names that
/// need no instruction any more, since one end of a veth pair takes the
/// other with it.
pub open spec fn delete_fold(records: Seq<MergedModel>, n: nat) -> (
    Seq<NisporConfModel>,
    Seq<Seq<char>>,
)
    decreases n,
{
    if n == 0 || n > records.len() {
        (Seq::empty(), Seq::empty())
    } else {
        let acc = delete_fold(records, (n - 1) as nat);
        let m = records[n - 1];
        if !m.merged.is_absent() || acc.1.contains(m.merged.base.name) {
            acc
        } else {
            let gone = match observed_peer(m) {
                Some(peer) => acc.1.push(m.current->0.base.name).push(peer),
                None => acc.1,
            };
            match m.for_apply {
                Some(a) => (acc.0.push(np_conf_of(a)), gone),
                None => (acc.0, gone),
            }
        }
    }
}

impl MergedInterfaces {
    /// The instructions of the backend that take away the interfaces of the
    /// kernel that are to be gone, in the order of the records. Of a veth
    /// pair one end is enough.
    pub fn absent_iface_confs(&self) -> (r: Vec<NisporIfaceConf>)
        ensures
            vec_view(r) == delete_fold(self@.kernel, self@.kernel.len()).0,
    {
        let ghost records = self@.kernel;
        let mut deleted_veths: Vec<String> = Vec::new();
        let mut np_ifaces: Vec<NisporIfaceConf> = Vec::new();
        let mut i: usize = 0;
        assert(vec_view(np_ifaces) =~= delete_fold(records, 0).0);
        assert(vec_view(deleted_veths) =~= delete_fold(records, 0).1);
        while i < self.kernel_ifaces.len()
            invariant
                i <= self.kernel_ifaces.len(),
                records == vec_view(self.kernel_ifaces),
                vec_view(np_ifaces) == delete_fold(records, i as nat).0,
                vec_view(deleted_veths) == delete_fold(records, i as nat).1,
            decreases self.kernel_ifaces.len() - i,
        {
            assert(records[i as int] == self.kernel_ifaces[i as int]@);
            let iface = &self.kernel_ifaces[i];
            if iface.merged.is_absent() && !strings_contain(&deleted_veths, iface.merged.name()) {
                if let Some(Interface::Ethernet(eth_iface)) = &iface.current {
                    if let Some(peer_name) = &eth_iface.veth_peer {
                        let ghost gone = vec_view(deleted_veths);
                        deleted_veths.push(eth_iface.base.name.clone());
                        deleted_veths.push(peer_name.clone());
                        assert(vec_view(deleted_veths) =~= gone.push(eth_iface.base.name@).push(
                            peer_name@,
                        ));
                    }
                }
                if let Some(apply_iface) = iface.for_apply.as_ref() {
                    let ghost before = vec_view(np_ifaces);
                    match nipart_iface_to_np(apply_iface) {
                        Ok(c) => {
                            np_ifaces.push(c);
                            assert(vec_view(np_ifaces) =~= before.push(c@));
                        },
                        Err(_) => {},
                    }
                }
            }
            i += 1;
        }
        np_ifaces
    }
}


/// The digit that a character stands for.
pub open spec fn digit_of(c: char) -> Option<nat> {
    if c == '0' {
        Some(0)
    } else if c == '1' {
        Some(1)
    } else if c == '2' {
        Some(2)
    } else if c == '3' {
        Some(3)
    } else if c == '4' {
        Some(4)
    } else if c == '5' {
        Some(5)
    } else if c == '6' {
        Some(6)
    } else if c == '7' {
        Some(7)
    } else if c == '8' {
        Some(8)
    } else if c == '9' {
        Some(9)
    } else {
        None
    }
}

/// The number that a text of decimal digits stands for; none for the empty
/// text and for a text that holds anything else.
pub open spec fn digits_value(s: Seq<char>) -> Option<nat>
    decreases s.len(),
{
    if s.len() == 0 {
        None
    } else {
        match digit_of(s.last()) {
            None => None,
            Some(d) => if s.len() == 1 {
                Some(d)
            } else {
                match digits_value(s.drop_last()) {
                    Some(v) => Some(v * 10 + d),
                    None => None,
                }
            },
        }
    }
}

/// Whether the first slash of `s` stands at `at`.
pub open spec fn first_slash(s: Seq<char>, at: int) -> bool {
    &&& 0 <= at < s.len()
    &&& s[at] == '/'
    &&& forall|j: int| 0 <= j < at ==> s[j] != '/'
}

/// The address and the prefix length of a text such as `192.0.2.1/24`: what
/// stands before the first slash, and the number from 0 to 255 that the
/// decimal digits behind it stand for. None where the text has no slash, or
/// no such number behind it.
pub open spec fn address_parts(s: Seq<char>) -> Option<(Seq<char>, u8)> {
    if exists|at: int| first_slash(s, at) {
        let at = choose|at: int| first_slash(s, at);
        match digits_value(s.subrange(at + 1, s.len() as int)) {
            Some(v) => if v <= 255 {
                Some((s.subrange(0, at), v as u8))
            } else {
                None
            },
            None => None,
        }
    } else {
        None
    }
}

/// A text does not stand for a smaller number than the text that it begins
/// with, where both stand for numbers.
proof fn lemma_digits_grow(s: Seq<char>, n: int)
    requires
        0 < n <= s.len(),
        digits_value(s) is Some,
    ensures
        digits_value(s.take(n)) is Some,
        digits_value(s.take(n))->0 <= digits_value(s)->0,
    decreases s.len() - n,
{
    if n < s.len() {
        assert(s.drop_last().take(n) =~= s.take(n));
        if n < s.len() - 1 {
            lemma_digits_grow(s.drop_last(), n);
        } else {
            assert(s.drop_last() =~= s.take(n));
        }
    } else {
        assert(s.take(n) =~= s);
    }
}

fn digit_value(c: char) -> (r: Option<u32>)
    ensures
        match r {
            Some(d) => digit_of(c) == Some(d as nat) && d < 10,
            None => digit_of(c) is None,
        },
{
    if c == '0' {
        Some(0)
    } else if c == '1' {
        Some(1)
    } else if c == '2' {
        Some(2)
    } else if c == '3' {
        Some(3)
    } else if c == '4' {
        Some(4)
    } else if c == '5' {
        Some(5)
    } else if c == '6' {
        Some(6)
    } else if c == '7' {
        Some(7)
    } else if c == '8' {
        Some(8)
    } else if c == '9' {
        Some(9)
    } else {
        None
    }
}

/// The number from 0 to 255 that the characters of `text` from `start` on
/// stand for.
fn prefix_length(text: &str, start: usize, len: usize) -> (r: Option<u8>)
    requires
        start <= len,
        len == text@.len(),
    ensures
        match r {
            Some(n) => digits_value(text@.subrange(start as int, len as int)) == Some(n as nat),
            None => match digits_value(text@.subrange(start as int, len as int)) {
                Some(v) => v > 255,
                None => true,
            },
        },
{
    let ghost tail = text@.subrange(start as int, len as int);
    if start == len {
        return None;
    }
    let mut value: u32 = 0;
    let mut i: usize = start;
    while i < len
        invariant
            start <= i <= len,
            len == text@.len(),
            tail == text@.subrange(start as int, len as int),
            value <= 255,
            i > start ==> digits_value(tail.take(i - start)) == Some(value as nat),
            i == start ==> value == 0,
        decreases len - i,
    {
        let c = text.get_char(i);
        let ghost upto = tail.take(i + 1 - start);
        proof {
            assert(upto.last() == c);
            assert(upto.drop_last() =~= tail.take(i - start));
        }
        match digit_value(c) {
            None => {
                proof {
                    if digits_value(tail) is Some {
                        lemma_digits_grow(tail, i + 1 - start);
                    }
                }
                return None;
            },
            Some(d) => {
                value = value * 10 + d;
                assert(digits_value(upto) == Some(value as nat));
                if value > 255 {
                    proof {
                        if digits_value(tail) is Some {
                            lemma_digits_grow(tail, i + 1 - start);
                        }
                    }
                    return None;
                }
            },
        }
        i += 1;
    }
    assert(tail.take(len - start) =~= tail);
    Some(value as u8)
}

/// The address and the prefix length of a text such as `192.0.2.1/24`.
pub fn split_address(text: &str) -> (r: Option<(String, u8)>)
    ensures
        match r {
            Some(p) => address_parts(text@) == Some((p.0@, p.1)),
            None => address_parts(text@) is None,
        },
{
    let len = text.unicode_len();
    let mut at: usize = 0;
    while at < len
        invariant
            at <= len,
            len == text@.len(),
            forall|j: int| 0 <= j < at ==> text@[j] != '/',
        decreases len - at,
    {
        if text.get_char(at) == '/' {
            proof {
                assert(first_slash(text@, at as int));
                let other = choose|x: int| first_slash(text@, x);
                if other < at {
                    assert(text@[other] != '/');
                }
                assert(other == at);
            }
            return match prefix_length(text, at + 1, len) {
                Some(n) => Some((text.substring_char(0, at).to_owned(), n)),
                None => None,
            };
        }
        at += 1;
    }
    proof {
        if exists|x: int| first_slash(text@, x) {
            let x = choose|x: int| first_slash(text@, x);
            assert(text@[x] != '/');
        }
    }
    None
}

} // verus!
