use vstd::prelude::*;
use vstd::seq_lib::{to_multiset_build, to_multiset_insert};
use crate::registry::views;
use crate::text::{seq_lt, str_lt};

verus! {

/// The entry that leads back to the parent node, first in every opened listing.
pub open spec fn go_up() -> Seq<char> {
    ".."@
}

/// From index `first` on, no name comes before the one preceding it.
pub open spec fn sorted_from(s: Seq<Seq<char>>, first: int) -> bool {
    forall|i: int| first <= i && i + 1 < s.len() ==> !seq_lt(#[trigger] s[i + 1], s[i])
}

/// `p` is where `x` goes among the names from `first` on: every name in
/// between comes before `x`, and the name at `p`, if any, does not.
pub open spec fn is_sorted_position(s: Seq<Seq<char>>, first: int, x: Seq<char>, p: int) -> bool {
    &&& first <= p <= s.len()
    &&& forall|i: int| first <= i < p ==> seq_lt(#[trigger] s[i], x)
    &&& p < s.len() ==> !seq_lt(s[p], x)
}

/// Lexicographic order is asymmetric.
pub proof fn lemma_lt_asymmetric(a: Seq<char>, b: Seq<char>)
    ensures
        seq_lt(a, b) ==> !seq_lt(b, a),
{
    if seq_lt(a, b) && seq_lt(b, a) {
        let k1 = choose|k: int|
            0 <= k <= a.len() && k <= b.len() && a.subrange(0, k) == b.subrange(0, k) && (
            (k == a.len() && k < b.len()) || (k < a.len() && k < b.len() && (a[k] as u32) < (
            b[k] as u32)));
        let k2 = choose|k: int|
            0 <= k <= b.len() && k <= a.len() && b.subrange(0, k) == a.subrange(0, k) && (
            (k == b.len() && k < a.len()) || (k < b.len() && k < a.len() && (b[k] as u32) < (
            a[k] as u32)));
        if k1 < k2 {
            assert(a.subrange(0, k2)[k1] == b.subrange(0, k2)[k1]);
        } else if k2 < k1 {
            assert(a.subrange(0, k1)[k2] == b.subrange(0, k1)[k2]);
        }
    }
}

/// Inserting a name where it goes keeps a sorted list sorted.
pub proof fn lemma_sorted_insert(s: Seq<Seq<char>>, first: int, x: Seq<char>, p: int)
    requires
        0 <= first,
        sorted_from(s, first),
        is_sorted_position(s, first, x, p),
    ensures
        sorted_from(s.insert(p, x), first),
        s.insert(p, x)[p] == x,
{
    let t = s.insert(p, x);
    assert forall|i: int| first <= i && i + 1 < t.len() implies !seq_lt(#[trigger] t[i + 1], t[i]) by {
        if i + 1 < p {
            assert(t[i + 1] == s[i + 1] && t[i] == s[i]);
        } else if i + 1 == p {
            lemma_lt_asymmetric(s[i], x);
        } else if i == p {
            assert(t[i + 1] == s[p] && t[i] == x);
        } else {
            assert(t[i + 1] == s[i] && t[i] == s[i - 1]);
            assert(!seq_lt(s[(i - 1) + 1], s[i - 1]));
        }
    }
}

/// Where `name` goes among `names` from index `first` on: past every name
/// that comes before it.
pub fn sorted_position(names: &Vec<String>, first: usize, name: &str) -> (r: usize)
    requires
        first <= names.len(),
    ensures
        is_sorted_position(views(names@), first as int, name@, r as int),
{
    let mut i: usize = first;
    while i < names.len() && str_lt(names[i].as_str(), name)
        invariant
            first <= i <= names.len(),
            forall|j: int| first <= j < i ==> seq_lt(#[trigger] views(names@)[j], name@),
        decreases names.len() - i,
    {
        i = i + 1;
    }
    i
}

/// Index of the first name equal to `name` from `first` on.
pub fn position_of(names: &Vec<String>, first: usize, name: &str) -> (r: Option<usize>)
    ensures
        match r {
            Some(p) => first <= p < names.len() && names@[p as int]@ == name@ && forall|j: int|
                first <= j < p ==> #[trigger] names@[j]@ != name@,
            None => forall|j: int| first <= j < names.len() ==> #[trigger] names@[j]@ != name@,
        },
{
    let mut i: usize = first;
    while i < names.len()
        invariant
            first <= i || names.len() <= i,
            forall|j: int| first <= j < i && j < names.len() ==> #[trigger] names@[j]@ != name@,
        decreases names.len() - i,
    {
        if crate::registry::str_eq(names[i].as_str(), name) {
            return Some(i);
        }
        i = i + 1;
    }
    None
}

/// A copy of a list of names.
pub fn clone_names(v: &Vec<String>) -> (r: Vec<String>)
    ensures
        views(r@) == views(v@),
{
    let mut r: Vec<String> = Vec::new();
    let mut i: usize = 0;
    while i < v.len()
        invariant
            i <= v.len(),
            views(r@) =~= views(v@).subrange(0, i as int),
        decreases v.len() - i,
    {
        let ghost prev = r@;
        r.push(v[i].clone());
        assert(views(r@) =~= views(prev).push(v@[i as int]@));
        i = i + 1;
    }
    assert(views(v@).subrange(0, v@.len() as int) =~= views(v@));
    r
}

/// A listing of an opened node: the way back up, then its children in order.
pub fn create_subkeys(children: Vec<String>) -> (r: Vec<String>)
    ensures
        r@.len() == children@.len() + 1,
        r@[0]@ == go_up(),
        sorted_from(views(r@), 1),
        views(r@).subrange(1, r@.len() as int).to_multiset() == views(children@).to_multiset(),
{
    let mut r: Vec<String> = Vec::new();
    r.push("..".to_owned());
    let mut i: usize = 0;
    proof {
        assert(views(r@).subrange(1, 1) =~= Seq::<Seq<char>>::empty());
        assert(views(children@).subrange(0, 0) =~= Seq::<Seq<char>>::empty());
    }
    while i < children.len()
        invariant
            i <= children.len(),
            r@.len() == i + 1,
            r@[0]@ == go_up(),
            sorted_from(views(r@), 1),
            views(r@).subrange(1, r@.len() as int).to_multiset() == views(children@).subrange(
                0,
                i as int,
            ).to_multiset(),
        decreases children.len() - i,
    {
        let name = children[i].clone();
        let p = sorted_position(&r, 1, name.as_str());
        let ghost before = views(r@);
        proof {
            lemma_sorted_insert(before, 1, name@, p as int);
        }
        r.insert(p, name);
        proof {
            let after = views(r@);
            assert(after =~= before.insert(p as int, name@));
            let tail = before.subrange(1, before.len() as int);
            assert(after.subrange(1, after.len() as int) =~= tail.insert(p - 1, name@));
            to_multiset_insert(tail, p - 1, name@);
            let done = views(children@).subrange(0, i as int);
            assert(views(children@).subrange(0, i + 1) =~= done.push(name@));
            to_multiset_build(done, name@);
        }
        i = i + 1;
    }
    assert(views(children@).subrange(0, children@.len() as int) =~= views(children@));
    r
}

} // verus!
