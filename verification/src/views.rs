use vstd::prelude::*;
use vstd::string::StringExecFns;

verus! {

/// The model of a value that may be missing.
pub open spec fn opt_view<T: View>(o: Option<T>) -> Option<T::V> {
    match o {
        Some(x) => Some(x@),
        None => None,
    }
}

/// The models of the items of a vector, in order.
pub open spec fn vec_view<T: View>(v: Vec<T>) -> Seq<T::V> {
    Seq::new(v.len() as nat, |i: int| v[i]@)
}

/// The models of the items of a vector that may be missing.
pub open spec fn opt_vec_view<T: View>(o: Option<Vec<T>>) -> Option<Seq<T::V>> {
    match o {
        Some(v) => Some(vec_view(v)),
        None => None,
    }
}

/// Whether `s` is the text `lit`.
pub fn text_is(s: &String, lit: &str) -> (r: bool)
    ensures
        r == (s@ == lit@),
{
    *s == lit.to_owned()
}

/// Whether two texts are the same.
pub fn str_same(a: &str, b: &str) -> (r: bool)
    ensures
        r == (a@ == b@),
{
    a.to_owned() == b.to_owned()
}

/// A copy of a text that may be missing.
pub fn clone_opt_string(o: &Option<String>) -> (r: Option<String>)
    ensures
        opt_view(r) == opt_view(*o),
{
    match o {
        Some(s) => Some(s.clone()),
        None => None,
    }
}

/// Whether two texts that may be missing are the same.
pub fn opt_string_eq(a: &Option<String>, b: &Option<String>) -> (r: bool)
    ensures
        r == (opt_view(*a) == opt_view(*b)),
{
    match (a, b) {
        (Some(x), Some(y)) => *x == *y,
        (None, None) => true,
        _ => false,
    }
}

/// A copy of a list of texts.
pub fn clone_strings(v: &Vec<String>) -> (r: Vec<String>)
    ensures
        vec_view(r) == vec_view(*v),
{
    let mut r: Vec<String> = Vec::new();
    let mut i: usize = 0;
    while i < v.len()
        invariant
            i <= v.len(),
            r.len() == i,
            forall|j: int| 0 <= j < i ==> (#[trigger] r[j])@ == v[j]@,
        decreases v.len() - i,
    {
        r.push(v[i].clone());
        i += 1;
    }
    assert(vec_view(r) =~= vec_view(*v));
    r
}

/// Whether two lists of texts are the same.
pub fn strings_eq(a: &Vec<String>, b: &Vec<String>) -> (r: bool)
    ensures
        r == (vec_view(*a) == vec_view(*b)),
{
    if a.len() != b.len() {
        assert(vec_view(*a).len() != vec_view(*b).len());
        return false;
    }
    let mut i: usize = 0;
    while i < a.len()
        invariant
            i <= a.len(),
            a.len() == b.len(),
            forall|j: int| 0 <= j < i ==> (#[trigger] a[j])@ == b[j]@,
        decreases a.len() - i,
    {
        if a[i] != b[i] {
            assert(vec_view(*a)[i as int] != vec_view(*b)[i as int]);
            return false;
        }
        i += 1;
    }
    assert(vec_view(*a) =~= vec_view(*b));
    true
}

/// A copy of a list of texts that may be missing.
pub fn clone_opt_strings(o: &Option<Vec<String>>) -> (r: Option<Vec<String>>)
    ensures
        opt_vec_view(r) == opt_vec_view(*o),
{
    match o {
        Some(v) => Some(clone_strings(v)),
        None => None,
    }
}

/// Whether two lists of texts that may be missing are the same.
pub fn opt_strings_eq(a: &Option<Vec<String>>, b: &Option<Vec<String>>) -> (r: bool)
    ensures
        r == (opt_vec_view(*a) == opt_vec_view(*b)),
{
    match (a, b) {
        (Some(x), Some(y)) => strings_eq(x, y),
        (None, None) => true,
        _ => false,
    }
}

/// Whether `list` holds the text `s`.
pub fn strings_contain(list: &Vec<String>, s: &str) -> (r: bool)
    ensures
        r == vec_view(*list).contains(s@),
{
    let owned = s.to_owned();
    let mut i: usize = 0;
    while i < list.len()
        invariant
            i <= list.len(),
            owned@ == s@,
            forall|j: int| 0 <= j < i ==> (#[trigger] list[j])@ != s@,
        decreases list.len() - i,
    {
        if list[i] == owned {
            assert(vec_view(*list)[i as int] == s@);
            return true;
        }
        i += 1;
    }
    assert(!vec_view(*list).contains(s@)) by {
        if vec_view(*list).contains(s@) {
            let j = choose|j: int| 0 <= j < vec_view(*list).len() && vec_view(*list)[j] == s@;
            assert(list[j]@ == s@);
        }
    }
    false
}


/// The texts of `list` in order, with `sep` between each two.
pub open spec fn joined(list: Seq<Seq<char>>, sep: Seq<char>) -> Seq<char>
    decreases list.len(),
{
    if list.len() == 0 {
        Seq::empty()
    } else if list.len() == 1 {
        list[0]
    } else {
        joined(list.drop_last(), sep) + sep + list.last()
    }
}

/// The texts of `list` in order, with `sep` between each two.
pub fn join_texts(list: &Vec<String>, sep: &str) -> (r: String)
    ensures
        r@ == joined(vec_view(*list), sep@),
{
    let mut r = String::new();
    let mut i: usize = 0;
    while i < list.len()
        invariant
            i <= list.len(),
            r@ == joined(vec_view(*list).take(i as int), sep@),
        decreases list.len() - i,
    {
        if i > 0 {
            r.append(sep);
        }
        r.append(list[i].as_str());
        proof {
            let l = vec_view(*list);
            assert(l.take(i + 1).drop_last() =~= l.take(i as int));
            assert(l.take(i + 1).last() == list[i as int]@);
            if i == 0 {
                assert(r@ =~= l.take(1)[0]);
            }
        }
        i += 1;
    }
    assert(vec_view(*list).take(i as int) =~= vec_view(*list));
    r
}

/// `a` followed by `b`.
pub fn concat(a: &str, b: &str) -> (r: String)
    ensures
        r@ == a@ + b@,
{
    let mut r = a.to_owned();
    r.append(b);
    r
}

/// `l` without the texts that are `t`.
pub open spec fn without_text(l: Seq<Seq<char>>, t: Seq<char>) -> Seq<Seq<char>>
    decreases l.len(),
{
    if l.len() == 0 {
        l
    } else if l.last() == t {
        without_text(l.drop_last(), t)
    } else {
        without_text(l.drop_last(), t).push(l.last())
    }
}

/// `l` without the texts that are `t`.
pub fn strings_without(l: &Vec<String>, t: &str) -> (r: Vec<String>)
    ensures
        vec_view(r) == without_text(vec_view(*l), t@),
{
    let owned = t.to_owned();
    let mut r: Vec<String> = Vec::new();
    let mut i: usize = 0;
    while i < l.len()
        invariant
            i <= l.len(),
            owned@ == t@,
            vec_view(r) == without_text(vec_view(*l).take(i as int), t@),
        decreases l.len() - i,
    {
        proof {
            let s = vec_view(*l);
            assert(s.take(i + 1).drop_last() =~= s.take(i as int));
            assert(s.take(i + 1).last() == l[i as int]@);
        }
        if l[i] != owned {
            let ghost before = vec_view(r);
            r.push(l[i].clone());
            assert(vec_view(r) =~= before.push(l[i as int]@));
        }
        i += 1;
    }
    assert(vec_view(*l).take(i as int) =~= vec_view(*l));
    r
}

} // verus!
