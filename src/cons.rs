//! An immutable singly-linked list whose tails are shared between lists.

use std::rc::Rc;
use vstd::prelude::*;

verus! {

/// One cell of a list: an element and the rest of the chain.
pub struct Cons<T> {
    pub elem: Rc<T>,
    pub tail: Link<T>,
}

pub type Link<T> = Option<Rc<Cons<T>>>;

/// A persistent list with O(1) `cons`, `first`, `tail` and `len`.
pub struct List<T> {
    pub head: Link<T>,
    pub length: usize,
}

/// The elements of a chain of cells, head first.
pub open spec fn link_view<T>(l: Link<T>) -> Seq<T>
    decreases l,
{
    match l {
        None => Seq::empty(),
        Some(c) => seq![*c.elem].add(link_view(c.tail)),
    }
}

/// The elements of `s` after the first `n`; nothing when `n` reaches its length.
pub open spec fn drop_front<T>(s: Seq<T>, n: int) -> Seq<T> {
    if n >= s.len() {
        Seq::empty()
    } else {
        s.skip(n)
    }
}

impl<T> View for List<T> {
    type V = Seq<T>;

    open spec fn view(&self) -> Seq<T> {
        link_view(self.head)
    }
}

impl<T> List<T> {
    /// The stored length is the number of cells.
    pub open spec fn wf(&self) -> bool {
        self.length as int == self@.len()
    }

    /// The empty list.
    pub fn empty() -> (r: Self)
        ensures
            r.wf(),
            r@ == Seq::<T>::empty(),
    {
        List { head: None, length: 0 }
    }

    /// Builds a list from a vector; the first element of the vector becomes the head.
    pub fn from_rev_iter(v: Vec<T>) -> (r: Self)
        ensures
            r.wf(),
            r@ == v@,
    {
        let mut v = v;
        let mut list = List::empty();
        let ghost orig = v@;
        let n = v.len();
        while v.len() > 0
            invariant
                list.wf(),
                orig.len() == n,
                orig == v@ + list@,
            decreases v.len(),
        {
            let x = v.pop().unwrap();
            proof {
                assert(list@.len() < orig.len());
            }
            list = list.cons(x);
            assert(orig =~= v@ + list@);
        }
        assert(list@ =~= orig);
        list
    }

    /// Builds a list from a vector in the same order.
    pub fn from_iter(v: Vec<T>) -> (r: Self)
        ensures
            r.wf(),
            r@ == v@,
    {
        Self::from_rev_iter(v)
    }

    /// The number of elements.
    pub fn len(&self) -> (r: usize)
        requires
            self.wf(),
        ensures
            r == self@.len(),
    {
        self.length
    }

    /// Whether the list has no element.
    pub fn is_empty(&self) -> (r: bool)
        requires
            self.wf(),
        ensures
            r == (self@.len() == 0),
    {
        self.length == 0
    }

    /// A new list with `x` in front of the elements of `self`, sharing them.
    pub fn cons_rc(&self, x: Rc<T>) -> (r: Self)
        requires
            self.wf(),
            self@.len() < usize::MAX,
        ensures
            r.wf(),
            r@ == seq![*x].add(self@),
    {
        let tail = match &self.head {
            None => None,
            Some(c) => Some(Rc::clone(c)),
        };
        List { head: Some(Rc::new(Cons { elem: x, tail })), length: self.length + 1 }
    }

    /// A new list with `x` in front of the elements of `self`, sharing them.
    pub fn cons(&self, x: T) -> (r: Self)
        requires
            self.wf(),
            self@.len() < usize::MAX,
        ensures
            r.wf(),
            r@ == seq![x].add(self@),
    {
        self.cons_rc(Rc::new(x))
    }

    /// The head element, if any.
    pub fn first(&self) -> (r: Option<&T>)
        requires
            self.wf(),
        ensures
            self@.len() == 0 ==> r.is_none(),
            self@.len() > 0 ==> r == Some(&self@[0]),
    {
        match &self.head {
            None => None,
            Some(c) => Some(&*c.elem),
        }
    }

    /// The shared cell of the head element, if any.
    pub fn first_rc(&self) -> (r: Option<&Rc<T>>)
        requires
            self.wf(),
        ensures
            self@.len() == 0 ==> r.is_none(),
            self@.len() > 0 ==> (r.is_some() && **r.unwrap() == self@[0]),
    {
        match &self.head {
            None => None,
            Some(c) => Some(&c.elem),
        }
    }

    /// The head element of a non-empty list.
    pub fn ufirst(&self) -> (r: &T)
        requires
            self.wf(),
            self@.len() > 0,
        ensures
            *r == self@[0],
    {
        self.first().unwrap()
    }

    /// The list without its first element; the tail of the empty list is empty.
    pub fn tail(&self) -> (r: Self)
        requires
            self.wf(),
        ensures
            r.wf(),
            r@ == drop_front(self@, 1),
    {
        self.tailn(1)
    }

    /// The list without its first `n` elements (empty when `n` reaches the length).
    pub fn tailn(&self, n: usize) -> (r: Self)
        requires
            self.wf(),
        ensures
            r.wf(),
            r@ == drop_front(self@, n as int),
    {
        if n >= self.length {
            Self::empty()
        } else {
            let mut i: usize = 0;
            let mut link: &Link<T> = &self.head;
            while i < n
                invariant
                    i <= n,
                    n < self@.len(),
                    link_view(*link) == self@.skip(i as int),
                decreases n - i,
            {
                match link {
                    Some(c) => {
                        assert(link_view(c.tail) =~= self@.skip(i as int).skip(1));
                        assert(self@.skip(i as int).skip(1) =~= self@.skip(i + 1));
                        link = &c.tail;
                    },
                    None => {
                        proof {
                            assert(false);
                        }
                    },
                }
                i = i + 1;
            }
            let head = match link {
                None => None,
                Some(c) => Some(Rc::clone(c)),
            };
            Self { head, length: self.length - n }
        }
    }

    /// The elements, head first.
    pub fn iter(&self) -> (r: Vec<&T>)
        ensures
            r@.len() == self@.len(),
            forall|i: int| 0 <= i < r@.len() ==> *r@[i] == self@[i],
    {
        let mut out: Vec<&T> = Vec::new();
        let mut link: &Link<T> = &self.head;
        while link.is_some()
            invariant
                out@.len() + link_view(*link).len() == self@.len(),
                link_view(*link) == self@.skip(out@.len() as int),
                forall|i: int| 0 <= i < out@.len() ==> *out@[i] == self@[i],
            decreases link_view(*link).len(),
        {
            match link {
                Some(c) => {
                    let ghost k: int = out@.len() as int;
                    assert(self@[k] == link_view(*link)[0]);
                    out.push(&*c.elem);
                    assert(link_view(c.tail) =~= self@.skip(k).skip(1));
                    assert(self@.skip(k).skip(1) =~= self@.skip(k + 1));
                    link = &c.tail;
                },
                None => {},
            }
        }
        out
    }

    /// The elements, head first, as a vector of shared cells.
    pub fn rc_iter(&self) -> (r: Vec<Rc<T>>)
        ensures
            r@.len() == self@.len(),
            forall|i: int| 0 <= i < r@.len() ==> *r@[i] == self@[i],
    {
        let mut out: Vec<Rc<T>> = Vec::new();
        let mut link: &Link<T> = &self.head;
        while link.is_some()
            invariant
                out@.len() + link_view(*link).len() == self@.len(),
                link_view(*link) == self@.skip(out@.len() as int),
                forall|i: int| 0 <= i < out@.len() ==> *out@[i] == self@[i],
            decreases link_view(*link).len(),
        {
            match link {
                Some(c) => {
                    let ghost k: int = out@.len() as int;
                    assert(self@[k] == link_view(*link)[0]);
                    out.push(Rc::clone(&c.elem));
                    assert(link_view(c.tail) =~= self@.skip(k).skip(1));
                    assert(self@.skip(k).skip(1) =~= self@.skip(k + 1));
                    link = &c.tail;
                },
                None => {},
            }
        }
        out
    }
}

impl<T> Clone for List<T> {
    fn clone(&self) -> (r: Self)
        ensures
            r == *self,
    {
        let head = match &self.head {
            None => None,
            Some(c) => Some(Rc::clone(c)),
        };
        List { head, length: self.length }
    }
}

/// Putting `x` in front of a list gives a list whose first element is `x`,
/// whose tail is that list, and whose length is one more.
pub proof fn lemma_cons_first_tail_len<T>(x: T, xs: Seq<T>)
    ensures
        (seq![x] + xs)[0] == x,
        drop_front(seq![x] + xs, 1) == xs,
        (seq![x] + xs).len() == xs.len() + 1,
{
    assert((seq![x] + xs).skip(1) =~= xs);
}

} // verus!
