//! Lists inside the syntax tree. A tree node holds its children in a `List`,
//! a value that specifications can build as well as read.

use vstd::prelude::*;

verus! {

#[derive(Debug)]
pub enum List<T> {
    Nil,
    Cons(Box<T>, Box<List<T>>),
}

impl<T> List<T> {
    /// The items of the list, first to last.
    pub open spec fn items(self) -> Seq<T>
        decreases self,
    {
        match self {
            List::Nil => Seq::empty(),
            List::Cons(head, tail) => seq![*head] + tail.items(),
        }
    }

    /// The number of items.
    pub open spec fn count(self) -> nat
        decreases self,
    {
        match self {
            List::Nil => 0,
            List::Cons(_, tail) => 1 + tail.count(),
        }
    }

    /// The items of the list, last to first, in front of `onto`.
    pub open spec fn reversed_onto(self, onto: List<T>) -> List<T>
        decreases self,
    {
        match self {
            List::Nil => onto,
            List::Cons(head, tail) => tail.reversed_onto(List::Cons(head, Box::new(onto))),
        }
    }

    /// The list read backwards.
    pub open spec fn reversed(self) -> List<T> {
        self.reversed_onto(List::Nil)
    }

    /// The list of two items.
    pub open spec fn pair(first: T, second: T) -> List<T> {
        List::Cons(Box::new(first), Box::new(List::Cons(Box::new(second), Box::new(List::Nil))))
    }

    pub fn new() -> (r: Self)
        ensures
            r == List::<T>::Nil,
    {
        List::Nil
    }

    /// `self` with `item` in front.
    pub fn push_front(self, item: T) -> (r: Self)
        ensures
            r == List::Cons(Box::new(item), Box::new(self)),
    {
        List::Cons(Box::new(item), Box::new(self))
    }

    /// The list read backwards.
    pub fn reverse(self) -> (r: Self)
        ensures
            r == self.reversed(),
    {
        let mut rest = self;
        let mut done: List<T> = List::Nil;
        loop
            invariant
                rest.reversed_onto(done) == self.reversed(),
            decreases rest,
        {
            match rest {
                List::Nil => {
                    return done;
                },
                List::Cons(head, tail) => {
                    done = List::Cons(head, Box::new(done));
                    rest = *tail;
                },
            }
        }
    }

    /// The list of the items of `items`, in their order.
    pub fn from_vec(items: Vec<T>) -> (r: Self)
        ensures
            r.items() == items@,
    {
        let mut rest = items;
        let mut done: List<T> = List::Nil;
        proof {
            assert(rest@ + done.items() =~= items@);
        }
        loop
            invariant
                rest@ + done.items() == items@,
            decreases rest.len(),
        {
            let ghost before = rest@;
            match rest.pop() {
                Some(item) => {
                    proof {
                        assert(before =~= rest@.push(item));
                        assert(rest@.push(item) + done.items() =~= rest@ + (seq![item]
                            + done.items()));
                    }
                    done = List::Cons(Box::new(item), Box::new(done));
                },
                None => {
                    proof {
                        assert(rest@ + done.items() =~= done.items());
                    }
                    return done;
                },
            }
        }
    }

    /// The number of items, or `usize::MAX` where there are more.
    pub fn len(&self) -> (r: usize)
        ensures
            r == if self.count() <= usize::MAX {
                self.count()
            } else {
                usize::MAX as nat
            },
    {
        let mut rest = self;
        let mut n: usize = 0;
        loop
            invariant
                n as nat + rest.count() == self.count() || (n == usize::MAX && self.count() >= n),
                n as nat <= self.count(),
            decreases rest,
        {
            match rest {
                List::Nil => {
                    return n;
                },
                List::Cons(_, tail) => {
                    if n < usize::MAX {
                        n += 1;
                    }
                    rest = &**tail;
                },
            }
        }
    }
}

} // verus!
