//! A persistent singly-linked list.
//!
//! A list value never changes. Putting an element in front of a list, or
//! leaving its first element out, gives a new list that shares every node
//! of the old one; the old list stays valid and keeps its contents. Nodes
//! are reference counted, so a node lives exactly as long as some list or
//! some other node still points at it.
//!
//! The model of a list is the sequence of its elements, front to back.
//! Reference counts are not part of the model: two lists with the same
//! elements are equal in contracts, whether or not they share nodes.

use std::rc::Rc;
use vstd::prelude::*;

verus! {

/// One cell of a list: an element and the link to the rest.
struct Node<T> {
    elem: T,
    next: Option<Rc<Node<T>>>,
}

/// A persistent list of `T`, viewed as a `Seq<T>` from front to back.
pub struct List<T> {
    first: Option<Rc<Node<T>>>,
}

/// A forward cursor over a list, viewed as the elements it has yet to yield.
pub struct Iter<'a, T> {
    next: Option<&'a Node<T>>,
}

/// The elements reachable from `link`, front to back.
spec fn chain<T>(link: Option<Rc<Node<T>>>) -> Seq<T>
    decreases link,
{
    match link {
        None => Seq::empty(),
        Some(node) => seq![node.elem] + chain(node.next),
    }
}

/// The number of nodes reachable from `link`.
spec fn depth<T>(link: Option<Rc<Node<T>>>) -> nat
    decreases link,
{
    match link {
        None => 0,
        Some(node) => 1 + depth(node.next),
    }
}

/// The sequence `s` with `elem` put in front of it.
pub open spec fn with_front<T>(s: Seq<T>, elem: T) -> Seq<T> {
    seq![elem] + s
}

/// The sequence `s` without its first element; the empty sequence stays empty.
pub open spec fn without_front<T>(s: Seq<T>) -> Seq<T> {
    if s.len() == 0 {
        s
    } else {
        s.drop_first()
    }
}

/// The first element of `s`, if it has one.
pub open spec fn front_of<T>(s: Seq<T>) -> Option<T> {
    if s.len() == 0 {
        None
    } else {
        Some(s[0])
    }
}

impl<T> View for List<T> {
    type V = Seq<T>;

    closed spec fn view(&self) -> Seq<T> {
        chain(self.first)
    }
}

impl<'a, T> View for Iter<'a, T> {
    type V = Seq<T>;

    closed spec fn view(&self) -> Seq<T> {
        match self.next {
            None => Seq::empty(),
            Some(node) => seq![node.elem] + chain(node.next),
        }
    }
}

/// `Rc::clone`: a second handle to the node that `node` points at. The
/// contract claims that the new handle points at the same node, so that it
/// stands for the same element and the same rest of the list.
#[verifier::external_body]
fn share<T>(node: &Rc<Node<T>>) -> (shared: Rc<Node<T>>)
    ensures
        shared == *node,
{
    Rc::clone(node)
}

/// `Rc::try_unwrap`: takes the node out of its handle if this handle is the
/// only one left, and hands the handle back otherwise. The contract claims
/// that either way the node that comes back is the one that went in, and
/// that the call neither unwinds nor opens an invariant.
#[verifier::external_body]
fn reclaim<T>(node: Rc<Node<T>>) -> (outcome: Result<Node<T>, Rc<Node<T>>>)
    ensures
        match outcome {
            Ok(owned) => owned == *node,
            Err(shared) => shared == node,
        },
    opens_invariants none
    no_unwind
{
    Rc::try_unwrap(node)
}

/// A second handle to whatever `link` points at.
fn share_link<T>(link: &Option<Rc<Node<T>>>) -> (shared: Option<Rc<Node<T>>>)
    ensures
        shared == *link,
{
    match link {
        None => None,
        Some(node) => Some(share(node)),
    }
}

/// Where a teardown goes after it has tried to take a node for itself: on to
/// the node's successor if the node was owned by nobody else, and nowhere if
/// somebody else still holds it. A node that was taken is discarded here,
/// without its successor; a handle that was refused is given up.
fn after_reclaim<T>(outcome: Result<Node<T>, Rc<Node<T>>>) -> (rest: Option<Rc<Node<T>>>)
    ensures
        rest == match outcome {
            Ok(owned) => owned.next,
            Err(_) => None,
        },
    opens_invariants none
    no_unwind
{
    match outcome {
        Ok(owned) => {
            let Node { elem: _, next } = owned;
            next
        },
        Err(_) => None,
    }
}

/// Gives up the handle `link` without recursion: walks down the chain for as
/// long as each node is owned by this walk alone, discarding the nodes one at
/// a time, and stops at the first node that somebody else still holds.
fn release<T>(link: Option<Rc<Node<T>>>)
    opens_invariants none
    no_unwind
{
    let mut link = link;
    loop
        decreases depth(link),
    {
        match link {
            None => {
                return ;
            },
            Some(node) => {
                link = after_reclaim(reclaim(node));
            },
        }
    }
}

impl<T> List<T> {
    /// The empty list. Allocates nothing.
    pub fn new() -> (list: Self)
        ensures
            list@ == Seq::<T>::empty(),
    {
        List { first: None }
    }

    /// A list with `elem` in front of the elements of `self`. One node is
    /// allocated; the nodes of `self` are shared, and `self` stays as it is.
    pub fn append(&self, elem: T) -> (list: List<T>)
        ensures
            list@ == with_front(self@, elem),
    {
        List { first: Some(Rc::new(Node { elem: elem, next: share_link(&self.first) })) }
    }

    /// The list without its first element, sharing the nodes of `self`. The
    /// tail of an empty list is an empty list.
    pub fn tail(&self) -> (list: List<T>)
        ensures
            list@ == without_front(self@),
    {
        match &self.first {
            None => List { first: None },
            Some(node) => {
                proof {
                    assert(chain(node.next) =~= self@.drop_first());
                }
                List { first: share_link(&node.next) }
            },
        }
    }

    /// The first element, or `None` if the list is empty.
    pub fn head(&self) -> (front: Option<&T>)
        ensures
            front == match front_of(self@) {
                Some(elem) => Some(&elem),
                None => None,
            },
    {
        match &self.first {
            None => None,
            Some(node) => Some(&node.elem),
        }
    }

    /// A cursor at the front of the list, with all of its elements to yield.
    pub fn iter<'a>(&'a self) -> (cursor: Iter<'a, T>)
        ensures
            cursor@ == self@,
    {
        match &self.first {
            None => Iter { next: None },
            Some(node) => Iter { next: Some(&**node) },
        }
    }
}

impl<'a, T> Iter<'a, T> {
    /// Yields the next element and moves past it. A cursor with nothing left
    /// yields `None` and stays as it is, however often it is asked.
    pub fn next(&mut self) -> (item: Option<&'a T>)
        ensures
            item == match front_of(old(self)@) {
                Some(elem) => Some(&elem),
                None => None,
            },
            final(self)@ == without_front(old(self)@),
    {
        match self.next {
            None => None,
            Some(node) => {
                proof {
                    assert(chain(node.next) =~= old(self)@.drop_first());
                }
                self.next =
                match &node.next {
                    None => None,
                    Some(rest) => Some(&**rest),
                };
                Some(&node.elem)
            },
        }
    }
}

impl<T> Drop for List<T> {
    /// Tears the list down in a loop, so that discarding a long list that
    /// nobody shares takes no more stack than discarding a short one.
    fn drop(&mut self)
        ensures
            final(self)@ == Seq::<T>::empty(),
        opens_invariants none
        no_unwind
    {
        let mut link: Option<Rc<Node<T>>> = None;
        std::mem::swap(&mut link, &mut self.first);
        release(link);
    }
}

} // verus!
