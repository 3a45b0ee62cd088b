use crate::views::vec_view;
use vstd::prelude::*;

verus! {

/// Whether the text `a` stands before the text `b`, or is `b`: texts are
/// ordered character by character, by code point, a text before those that
/// it begins.
pub open spec fn text_le(a: Seq<char>, b: Seq<char>) -> bool
    decreases a.len(),
{
    if a.len() == 0 {
        true
    } else if b.len() == 0 {
        false
    } else if a[0] != b[0] {
        (a[0] as int) < (b[0] as int)
    } else {
        text_le(a.drop_first(), b.drop_first())
    }
}

/// Whether the text `a` stands before the text `b`.
pub open spec fn text_lt(a: Seq<char>, b: Seq<char>) -> bool {
    text_le(a, b) && a != b
}

/// Of two texts one stands before the other, or they are the same.
pub proof fn lemma_text_le_total(a: Seq<char>, b: Seq<char>)
    ensures
        text_le(a, b) || text_le(b, a),
    decreases a.len(),
{
    if a.len() > 0 && b.len() > 0 {
        if a[0] == b[0] {
            lemma_text_le_total(a.drop_first(), b.drop_first());
        } else {
            let x = a[0];
            let y = b[0];
            assert((x as int) != (y as int));
        }
    }
}

/// Two texts of which each stands before the other, or is it, are the same.
pub proof fn lemma_text_le_antisymmetric(a: Seq<char>, b: Seq<char>)
    requires
        text_le(a, b),
        text_le(b, a),
    ensures
        a == b,
    decreases a.len(),
{
    if a.len() == 0 || b.len() == 0 {
        assert(a =~= b);
    } else {
        lemma_text_le_antisymmetric(a.drop_first(), b.drop_first());
        assert(a =~= seq![a[0]] + a.drop_first());
        assert(b =~= seq![b[0]] + b.drop_first());
    }
}

/// The order of texts carries over.
pub proof fn lemma_text_le_transitive(a: Seq<char>, b: Seq<char>, c: Seq<char>)
    requires
        text_le(a, b),
        text_le(b, c),
    ensures
        text_le(a, c),
    decreases a.len(),
{
    if a.len() > 0 && b.len() > 0 && c.len() > 0 {
        if a[0] == b[0] && b[0] == c[0] {
            lemma_text_le_transitive(a.drop_first(), b.drop_first(), c.drop_first());
        }
    }
}

/// `str`'s `<=`, which std documents as the lexicographic order of the
/// bytes of the two texts, and so of their code points: the result is
/// `text_le` of the two texts.
#[verifier::external_body]
pub(crate) fn str_le(a: &str, b: &str) -> (r: bool)
    ensures
        r == text_le(a@, b@),
{
    a <= b
}

/// Whether each text of `l` stands before those behind it.
pub open spec fn strictly_sorted(l: Seq<Seq<char>>) -> bool {
    forall|i: int, j: int| 0 <= i < j < l.len() ==> text_lt(#[trigger] l[i], #[trigger] l[j])
}

/// Whether `l` lists the texts of `s`, each once, in their order.
pub open spec fn lists_sorted(l: Seq<Seq<char>>, s: Set<Seq<char>>) -> bool {
    &&& forall|k: Seq<char>| #[trigger] s.contains(k) <==> l.contains(k)
    &&& strictly_sorted(l)
}

/// The texts of `s` in their order, for a finite `s`.
pub open spec fn sorted_texts(s: Set<Seq<char>>) -> Seq<Seq<char>> {
    choose|l: Seq<Seq<char>>| lists_sorted(l, s)
}

/// Two lists of the same texts in their order are the same list.
pub proof fn lemma_lists_sorted_unique(a: Seq<Seq<char>>, b: Seq<Seq<char>>, s: Set<Seq<char>>)
    requires
        lists_sorted(a, s),
        lists_sorted(b, s),
    ensures
        a == b,
    decreases a.len(),
{
    if a.len() == 0 {
        if b.len() > 0 {
            assert(b.contains(b[0]));
            assert(s.contains(b[0]));
        }
        assert(a =~= b);
    } else if b.len() == 0 {
        assert(a.contains(a[0]));
        assert(s.contains(a[0]));
    } else {
        assert(a.contains(a[0]) && b.contains(b[0]));
        assert(s.contains(a[0]) && s.contains(b[0]));
        let i = choose|i: int| 0 <= i < b.len() && b[i] == a[0];
        let j = choose|j: int| 0 <= j < a.len() && a[j] == b[0];
        if i > 0 {
            assert(text_lt(b[0], b[i]));
        }
        if j > 0 {
            assert(text_lt(a[0], a[j]));
        }
        if i > 0 && j > 0 {
            lemma_text_le_antisymmetric(a[0], b[0]);
        }
        if i > 0 && j == 0 {
            assert(a[0] == b[0]);
        }
        assert(a[0] == b[0]);
        let first = a[0];
        let ta = a.drop_first();
        let tb = b.drop_first();
        let rest = s.remove(first);
        assert forall|k: Seq<char>| #[trigger] rest.contains(k) <==> ta.contains(k) by {
            if rest.contains(k) {
                let x = choose|x: int| 0 <= x < a.len() && a[x] == k;
                assert(x > 0);
                assert(ta[x - 1] == k);
            }
            if ta.contains(k) {
                let x = choose|x: int| 0 <= x < ta.len() && ta[x] == k;
                assert(a[x + 1] == k);
                assert(a.contains(k));
                assert(text_lt(a[0], a[x + 1]));
            }
        }
        assert forall|k: Seq<char>| #[trigger] rest.contains(k) <==> tb.contains(k) by {
            if rest.contains(k) {
                let x = choose|x: int| 0 <= x < b.len() && b[x] == k;
                assert(x > 0);
                assert(tb[x - 1] == k);
            }
            if tb.contains(k) {
                let x = choose|x: int| 0 <= x < tb.len() && tb[x] == k;
                assert(b[x + 1] == k);
                assert(b.contains(k));
                assert(text_lt(b[0], b[x + 1]));
            }
        }
        assert forall|x: int, y: int| 0 <= x < y < ta.len() implies text_lt(
            #[trigger] ta[x],
            #[trigger] ta[y],
        ) by {
            assert(text_lt(a[x + 1], a[y + 1]));
        }
        assert forall|x: int, y: int| 0 <= x < y < tb.len() implies text_lt(
            #[trigger] tb[x],
            #[trigger] tb[y],
        ) by {
            assert(text_lt(b[x + 1], b[y + 1]));
        }
        lemma_lists_sorted_unique(ta, tb, rest);
        assert(a =~= seq![first] + ta);
        assert(b =~= seq![first] + tb);
    }
}

/// A list of the texts of `s` in their order is the list that
/// `sorted_texts` names.
pub proof fn lemma_sorted_texts(l: Seq<Seq<char>>, s: Set<Seq<char>>)
    requires
        lists_sorted(l, s),
    ensures
        sorted_texts(s) == l,
{
    lemma_lists_sorted_unique(sorted_texts(s), l, s);
}

/// Puts `t` into `out`, which is in order and does not hold `t`, in its
/// place.
fn insert_text(out: &mut Vec<String>, t: String)
    requires
        strictly_sorted(vec_view(*old(out))),
        !vec_view(*old(out)).contains(t@),
    ensures
        strictly_sorted(vec_view(*final(out))),
        forall|k: Seq<char>|
            #[trigger] vec_view(*final(out)).contains(k) <==> vec_view(*old(out)).contains(k) || k
                == t@,
{
    let ghost before = vec_view(*out);
    let mut at: usize = 0;
    while at < out.len() && str_le(out[at].as_str(), t.as_str())
        invariant
            at <= out.len(),
            before == vec_view(*out),
            forall|j: int| 0 <= j < at ==> text_le(#[trigger] before[j], t@),
        decreases out.len() - at,
    {
        assert(before[at as int] == out[at as int]@);
        at += 1;
    }
    let ghost x = t@;
    proof {
        if at < out.len() {
            assert(before[at as int] == out[at as int]@);
            lemma_text_le_total(before[at as int], x);
        }
    }
    out.insert(at, t);
    proof {
        let after = vec_view(*out);
        assert(after =~= before.insert(at as int, x));
        assert forall|i: int, j: int| 0 <= i < j < after.len() implies text_lt(
            #[trigger] after[i],
            #[trigger] after[j],
        ) by {
            if j < at {
                assert(after[i] == before[i] && after[j] == before[j]);
            } else if j == at {
                assert(after[i] == before[i]);
                assert(before.contains(before[i]));
            } else if i == at {
                assert(after[j] == before[j - 1]);
                assert(before.contains(before[j - 1]));
                if j - 1 > at {
                    assert(text_lt(before[at as int], before[j - 1]));
                    lemma_text_le_transitive(x, before[at as int], before[j - 1]);
                }
            } else if i < at {
                assert(after[i] == before[i] && after[j] == before[j - 1]);
            } else {
                assert(after[i] == before[i - 1] && after[j] == before[j - 1]);
            }
        }
        assert forall|k: Seq<char>| #[trigger] after.contains(k) <==> before.contains(k) || k
            == x by {
            if after.contains(k) {
                let i = choose|i: int| 0 <= i < after.len() && after[i] == k;
                if i < at {
                    assert(before[i] == k);
                } else if i > at {
                    assert(before[i - 1] == k);
                }
            }
            if before.contains(k) {
                let i = choose|i: int| 0 <= i < before.len() && before[i] == k;
                if i < at {
                    assert(after[i] == k);
                } else {
                    assert(after[i + 1] == k);
                }
            }
            if k == x {
                assert(after[at as int] == k);
            }
        }
    }
}

/// The texts of `v`, which holds none twice, in their order.
pub(crate) fn sort_texts(v: &Vec<String>) -> (r: Vec<String>)
    requires
        vec_view(*v).no_duplicates(),
    ensures
        strictly_sorted(vec_view(r)),
        forall|k: Seq<char>| #[trigger] vec_view(r).contains(k) <==> vec_view(*v).contains(k),
{
    let ghost s = vec_view(*v);
    let mut out: Vec<String> = Vec::new();
    let mut i: usize = 0;
    while i < v.len()
        invariant
            i <= v.len(),
            s == vec_view(*v),
            s.no_duplicates(),
            strictly_sorted(vec_view(out)),
            forall|k: Seq<char>| #[trigger] vec_view(out).contains(k) <==> s.take(i as int).contains(k),
        decreases v.len() - i,
    {
        proof {
            let t0 = s.take(i as int);
            let t1 = s.take(i + 1);
            assert(s[i as int] == v[i as int]@);
            if t0.contains(s[i as int]) {
                let j = choose|j: int| 0 <= j < t0.len() && t0[j] == s[i as int];
                assert(s[j] == s[i as int]);
            }
            assert forall|k: Seq<char>| #[trigger] t1.contains(k) <==> t0.contains(k) || k
                == s[i as int] by {
                if t1.contains(k) {
                    let j = choose|j: int| 0 <= j < t1.len() && t1[j] == k;
                    if j < i {
                        assert(t0[j] == k);
                    }
                }
                if t0.contains(k) {
                    let j = choose|j: int| 0 <= j < t0.len() && t0[j] == k;
                    assert(t1[j] == k);
                }
                if k == s[i as int] {
                    assert(t1[i as int] == k);
                }
            }
        }
        insert_text(&mut out, v[i].clone());
        i += 1;
    }
    assert(s.take(i as int) =~= s);
    out
}


/// Whether each text of `l` stands before the next one, or is it.
pub open spec fn ordered(l: Seq<Seq<char>>) -> bool {
    forall|i: int| 0 <= i < l.len() - 1 ==> text_le(#[trigger] l[i], l[i + 1])
}

/// Whether `at` is the place of `x` in `s`: behind the texts from the start
/// of `s` on that stand before `x` or are `x`.
pub open spec fn is_text_place(s: Seq<Seq<char>>, x: Seq<char>, at: int) -> bool {
    &&& 0 <= at <= s.len()
    &&& forall|j: int| 0 <= j < at ==> text_le(#[trigger] s[j], x)
    &&& at < s.len() ==> !text_le(s[at], x)
}

/// The place of `x` in `s`.
pub open spec fn text_place(s: Seq<Seq<char>>, x: Seq<char>) -> int {
    choose|at: int| is_text_place(s, x, at)
}

/// A text has one place.
pub proof fn lemma_text_place(s: Seq<Seq<char>>, x: Seq<char>, at: int)
    requires
        is_text_place(s, x, at),
    ensures
        text_place(s, x) == at,
{
    let other = text_place(s, x);
    if other < at {
        assert(text_le(s[other], x));
    }
    if at < other {
        assert(text_le(s[at], x));
    }
}

/// The first `n` texts of `l` in the order of texts, each put in its place
/// among those before it.
pub open spec fn in_order(l: Seq<Seq<char>>, n: nat) -> Seq<Seq<char>>
    decreases n,
{
    if n == 0 || n > l.len() {
        Seq::empty()
    } else {
        let sorted = in_order(l, (n - 1) as nat);
        sorted.insert(text_place(sorted, l[n - 1]), l[n - 1])
    }
}

/// The texts of `l`, each as often as `l` holds it, in the order of texts.
pub open spec fn sorted_list(l: Seq<Seq<char>>) -> Seq<Seq<char>> {
    in_order(l, l.len())
}

/// Puts `t` into `out`, which is in order, in its place.
fn insert_in_place(out: &mut Vec<String>, t: String)
    requires
        ordered(vec_view(*old(out))),
    ensures
        ordered(vec_view(*final(out))),
        vec_view(*final(out)) == vec_view(*old(out)).insert(
            text_place(vec_view(*old(out)), t@),
            t@,
        ),
{
    let ghost before = vec_view(*out);
    let mut at: usize = 0;
    while at < out.len() && str_le(out[at].as_str(), t.as_str())
        invariant
            at <= out.len(),
            before == vec_view(*out),
            forall|j: int| 0 <= j < at ==> text_le(#[trigger] before[j], t@),
        decreases out.len() - at,
    {
        assert(before[at as int] == out[at as int]@);
        at += 1;
    }
    let ghost x = t@;
    proof {
        if at < out.len() {
            assert(before[at as int] == out[at as int]@);
            lemma_text_le_total(before[at as int], x);
        }
        lemma_text_place(before, x, at as int);
    }
    out.insert(at, t);
    proof {
        let after = vec_view(*out);
        assert(after =~= before.insert(at as int, x));
        assert forall|i: int| 0 <= i < after.len() - 1 implies text_le(
            #[trigger] after[i],
            after[i + 1],
        ) by {
            if i + 1 < at {
                assert(after[i] == before[i] && after[i + 1] == before[i + 1]);
            } else if i + 1 == at {
                assert(after[i] == before[i]);
            } else if i == at {
                assert(after[i + 1] == before[i]);
            } else {
                assert(after[i] == before[i - 1] && after[i + 1] == before[i]);
                assert(text_le(before[i - 1], before[i - 1 + 1]));
            }
        }
    }
}

/// The texts of `v`, each as often as `v` holds it, in the order of texts.
pub fn sort_list(v: &Vec<String>) -> (r: Vec<String>)
    ensures
        vec_view(r) == sorted_list(vec_view(*v)),
        ordered(vec_view(r)),
{
    let ghost s = vec_view(*v);
    let mut out: Vec<String> = Vec::new();
    let mut i: usize = 0;
    assert(vec_view(out) =~= in_order(s, 0));
    while i < v.len()
        invariant
            i <= v.len(),
            s == vec_view(*v),
            vec_view(out) == in_order(s, i as nat),
            ordered(vec_view(out)),
        decreases v.len() - i,
    {
        assert(s[i as int] == v[i as int]@);
        insert_in_place(&mut out, v[i].clone());
        i += 1;
    }
    out
}

} // verus!
