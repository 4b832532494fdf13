//! One term's worth of courses: a small bounded list of node indices, kept
//! in `tinyvec`'s `ArrayVec`. The contracts on `ArrayVec`'s methods are
//! stated here and not proved.

use vstd::prelude::*;
use tinyvec::ArrayVec;

verus! {

#[verifier::external_type_specification]
#[verifier::external_body]
#[verifier::reject_recursive_types(A)]
pub struct ExArrayVec<A>(ArrayVec<A>);

/// The items that an `ArrayVec` holds, in order.
pub uninterp spec fn array_vec_items(v: ArrayVec<[usize; 10]>) -> Seq<usize>;

/// The number of courses that fit in one set.
pub const SET_LIMIT: usize = 10;

/// `ArrayVec::new`: an empty list.
#[verifier::external_body]
fn array_vec_new() -> (v: ArrayVec<[usize; 10]>)
    ensures
        array_vec_items(v) == Seq::<usize>::empty(),
{
    ArrayVec::new()
}

/// `ArrayVec::len`: the number of items, never more than the array's ten.
#[verifier::external_body]
fn array_vec_len(v: &ArrayVec<[usize; 10]>) -> (n: usize)
    ensures
        n == array_vec_items(*v).len(),
        n <= SET_LIMIT,
{
    v.len()
}

/// `ArrayVec::try_push`: appends `item` and returns `None`, or, on a full
/// list, hands `item` back and changes nothing.
#[verifier::external_body]
fn array_vec_try_push(v: &mut ArrayVec<[usize; 10]>, item: usize) -> (back: Option<usize>)
    ensures
        array_vec_items(*old(v)).len() < SET_LIMIT ==> back.is_none() && array_vec_items(*final(v))
            == array_vec_items(*old(v)).push(item),
        array_vec_items(*old(v)).len() >= SET_LIMIT ==> back == Some(item) && array_vec_items(
            *final(v),
        ) == array_vec_items(*old(v)),
{
    v.try_push(item)
}

/// Indexing an `ArrayVec`: the item at `i`. It panics where `i` is not
/// below the length.
#[verifier::external_body]
fn array_vec_get(v: &ArrayVec<[usize; 10]>, i: usize) -> (item: usize)
    requires
        i < array_vec_items(*v).len(),
    ensures
        item == array_vec_items(*v)[i as int],
{
    v[i]
}

/// Indexing an `ArrayVec` mutably, to store `item` at `i`. It panics where
/// `i` is not below the length.
#[verifier::external_body]
fn array_vec_set(v: &mut ArrayVec<[usize; 10]>, i: usize, item: usize)
    requires
        i < array_vec_items(*old(v)).len(),
    ensures
        array_vec_items(*final(v)) == array_vec_items(*old(v)).update(i as int, item),
{
    v[i] = item;
}

/// The courses to take in one term, as indices of graph nodes.
#[derive(Clone, Copy, Debug)]
pub struct CourseSet {
    pub inner: ArrayVec<[usize; 10]>,
}

impl View for CourseSet {
    type V = Seq<usize>;

    open spec fn view(&self) -> Seq<usize> {
        array_vec_items(self.inner)
    }
}

impl Default for CourseSet {
    fn default() -> (r: Self)
        ensures
            r@ == Seq::<usize>::empty(),
    {
        CourseSet { inner: array_vec_new() }
    }
}

impl CourseSet {
    /// The number of courses in the set.
    pub fn len(&self) -> (n: usize)
        ensures
            n == self@.len(),
            n <= SET_LIMIT,
    {
        array_vec_len(&self.inner)
    }

    /// The course at position `i`.
    pub fn get(&self, i: usize) -> (node: usize)
        requires
            i < self@.len(),
        ensures
            node == self@[i as int],
    {
        array_vec_get(&self.inner, i)
    }

    /// Stores `node` at position `i`.
    pub fn set(&mut self, i: usize, node: usize)
        requires
            i < old(self)@.len(),
        ensures
            final(self)@ == old(self)@.update(i as int, node),
    {
        array_vec_set(&mut self.inner, i, node);
    }

    /// Appends `node`, unless the set is full: then the set stays as it
    /// is and the result is `false`.
    pub fn push(&mut self, node: usize) -> (pushed: bool)
        ensures
            pushed == (old(self)@.len() < SET_LIMIT),
            pushed ==> final(self)@ == old(self)@.push(node),
            !pushed ==> final(self)@ == old(self)@,
    {
        array_vec_try_push(&mut self.inner, node).is_none()
    }

    /// Whether `node` is in the set.
    pub fn contains(&self, node: usize) -> (found: bool)
        ensures
            found == self@.contains(node),
    {
        let n = self.len();
        let mut i: usize = 0;
        while i < n
            invariant
                n == self@.len(),
                i <= n,
                forall|j: int| 0 <= j < i ==> self@[j] != node,
            decreases n - i,
        {
            if self.get(i) == node {
                return true;
            }
            i += 1;
        }
        false
    }
}

} // verus!
