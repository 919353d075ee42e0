//! What the differ asks of a node: a model, payload equality and copying.

use vstd::prelude::*;

verus! {

/// A node that can be compared with another of its kind and copied.
pub trait Comparable: View + Sized {
    /// Payload equality: the two models agree on the fields that make a node
    /// what it is. Children never take part.
    spec fn same(a: Self::V, b: Self::V) -> bool;

    /// Every model is the same as itself.
    proof fn lemma_same_reflexive(a: Self::V)
        ensures
            Self::same(a, a),
    ;

    /// Whether this node and `other` have the same payload.
    fn alike(&self, other: &Self) -> (r: bool)
        ensures
            r == Self::same(self@, other@),
    ;

    /// A copy of this node, children included.
    fn copy(&self) -> (r: Self)
        ensures
            r@ == self@,
    ;
}

/// The models of a list of nodes.
pub open spec fn views<T: View>(s: Seq<T>) -> Seq<T::V> {
    s.map_values(|x: T| x@)
}

/// The models of a list of pairs of nodes.
pub open spec fn pair_views<T: View>(s: Seq<(T, T)>) -> Seq<(T::V, T::V)> {
    s.map_values(|p: (T, T)| (p.0@, p.1@))
}

/// Two lists have the same length and the same payload place by place.
pub open spec fn all_same<C: Comparable>(a: Seq<C::V>, b: Seq<C::V>) -> bool {
    &&& a.len() == b.len()
    &&& forall|i: int| 0 <= i < a.len() ==> C::same(#[trigger] a[i], b[i])
}

/// Copies a list of nodes.
pub fn copy_all<C: Comparable>(v: &Vec<C>) -> (r: Vec<C>)
    ensures
        views(r@) == views(v@),
{
    let mut r: Vec<C> = Vec::new();
    let mut i: usize = 0;
    while i < v.len()
        invariant
            i <= v.len(),
            r.len() == i,
            forall|j: int| 0 <= j < i ==> r[j]@ == v[j]@,
        decreases v.len() - i,
    {
        r.push(v[i].copy());
        i += 1;
    }
    assert(views(r@) =~= views(v@));
    r
}

/// Whether two lists of nodes have the same payloads in the same order.
pub fn alike_all<C: Comparable>(a: &Vec<C>, b: &Vec<C>) -> (r: bool)
    ensures
        r == all_same::<C>(views(a@), views(b@)),
{
    if a.len() != b.len() {
        return false;
    }
    let mut i: usize = 0;
    while i < a.len()
        invariant
            i <= a.len(),
            a.len() == b.len(),
            forall|j: int| 0 <= j < i ==> C::same(#[trigger] views(a@)[j], views(b@)[j]),
        decreases a.len() - i,
    {
        if !a[i].alike(&b[i]) {
            assert(!C::same(views(a@)[i as int], views(b@)[i as int]));
            return false;
        }
        i += 1;
    }
    true
}

/// Whether two lists of nodes have the same models, for nodes whose payload
/// is the whole model.
pub(crate) fn equal_all<C: Comparable>(a: &Vec<C>, b: &Vec<C>) -> (r: bool)
    requires
        forall|x: C::V, y: C::V| C::same(x, y) == (x == y),
    ensures
        r == (views(a@) == views(b@)),
{
    let r = alike_all(a, b);
    proof {
        if r {
            assert(views(a@) =~= views(b@));
        }
    }
    r
}

} // verus!
