//! Immutable, reference-counted, singly-linked lists with structural sharing.
//!
//! A `List<T>` is either empty or a head element followed by a shared tail.
//! All operations are non-destructive: `prepend` builds a new head node that
//! points at the old list, so any number of lists can share a common tail and
//! "mutation" through one handle is never visible through another.  The
//! abstract value of a list is the sequence of its elements, head first.

use std::rc::Rc;
use vstd::prelude::*;

verus! {

pub struct List<T> {
    pub head: Option<Rc<Node<T>>>,
}

pub struct Node<T> {
    pub car: T,
    pub next: Option<Rc<Node<T>>>,
}

/// The sequence of elements hanging off a link, head first.
pub open spec fn link_seq<T>(link: Option<Rc<Node<T>>>) -> Seq<T>
    decreases link,
{
    match link {
        Option::None => Seq::empty(),
        Option::Some(node) => seq![node.car] + link_seq(node.next),
    }
}

impl<T> List<T> {
    /// A list is abstractly the sequence of its elements, head first.
    pub open spec fn view(&self) -> Seq<T> {
        link_seq(self.head)
    }

    /// The empty list.
    pub fn new() -> (r: Self)
        ensures
            r@ == Seq::<T>::empty(),
    {
        List { head: None }
    }

    /// A new list whose head is `elem` and whose tail is this list, shared.
    pub fn prepend(&self, elem: T) -> (r: List<T>)
        ensures
            r@ == seq![elem] + self@,
    {
        List {
            head: Some(
                Rc::new(
                    Node {
                        car: elem,
                        next: match &self.head {
                            None => None,
                            Some(rc) => Some(rc.clone()),
                        },
                    },
                ),
            ),
        }
    }

    /// The tail of the list; the tail of the empty list is again empty.
    pub fn cdr(&self) -> (r: List<T>)
        ensures
            self@.len() == 0 ==> r@ == Seq::<T>::empty(),
            self@.len() > 0 ==> r@ == self@.drop_first(),
    {
        List {
            head: match &self.head {
                None => None,
                Some(node) => match &node.next {
                    None => None,
                    Some(rc) => Some(rc.clone()),
                },
            },
        }
    }

    /// The head element, or `None` for the empty list.
    pub fn car(&self) -> (r: Option<&T>)
        ensures
            match r {
                Option::Some(x) => self@.len() > 0 && *x == self@[0],
                Option::None => self@.len() == 0,
            },
    {
        match &self.head {
            None => None,
            Some(node) => Some(&node.car),
        }
    }

    /// An iterator over the elements, head first.
    pub fn iter(&self) -> (r: ListIter<'_, T>)
        ensures
            r@ == self@,
    {
        ListIter {
            next: match &self.head {
                None => None,
                Some(rc) => Some(&**rc),
            },
        }
    }

}

impl<T> Clone for List<T> {
    /// An O(1) copy: the clone shares every node with the original.
    fn clone(&self) -> (r: Self)
        ensures
            r == *self,
    {
        List {
            head: match &self.head {
                None => None,
                Some(rc) => Some(rc.clone()),
            },
        }
    }
}

impl<T> Drop for List<T> {
    /// Tears the chain down iteratively, so that dropping a long list cannot
    /// exhaust the stack on recursive destruction: each uniquely-owned node
    /// is unlinked in turn, and a shared tail is left to its other owners.
    #[verifier::external_body]
    fn drop(&mut self)
        opens_invariants none
        no_unwind
    {
        let mut head = self.head.take();
        while let Some(rc) = head {
            match Rc::try_unwrap(rc) {
                Ok(mut node) => {
                    head = node.next.take();
                },
                Err(_) => {
                    break;
                },
            }
        }
    }
}

pub struct ListIter<'a, T> {
    pub next: Option<&'a Node<T>>,
}

impl<'a, T> ListIter<'a, T> {
    /// The elements the iterator has yet to produce, in order.
    pub open spec fn view(&self) -> Seq<T> {
        match self.next {
            Option::None => Seq::empty(),
            Option::Some(node) => seq![node.car] + link_seq(node.next),
        }
    }

    /// Produces the next element, head first, or `None` at the end.
    pub fn next(&mut self) -> (r: Option<&'a T>)
        ensures
            match r {
                Option::Some(x) => old(self)@.len() > 0 && *x == old(self)@[0] && final(self)@
                    == old(self)@.drop_first(),
                Option::None => old(self)@.len() == 0 && final(self)@ == old(self)@,
            },
    {
        match self.next {
            None => None,
            Some(node) => {
                let r = Some(&node.car);
                self.next = match &node.next {
                    None => None,
                    Some(rc) => Some(&**rc),
                };
                r
            },
        }
    }
}

} // verus!
