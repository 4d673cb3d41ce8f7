//! A forward-only reader over a fixed list of items, with bounded lookahead.

use vstd::prelude::*;

verus! {

/// Items that can be compared by their variant alone, ignoring any payload.
pub trait ItemKind {
    /// The number that identifies the variant of `self`.
    fn kind(&self) -> u8;
}

/// Whether comparing the kinds of `a` and `b` may give `verdict`: `kind`
/// may return, for the two, numbers that are equal if `verdict` holds and
/// differ if it does not.
pub open spec fn kinds_compare<T: ItemKind>(a: T, b: T, verdict: bool) -> bool {
    exists|ka: u8, kb: u8|
        call_ensures(T::kind, (&a,), ka) && call_ensures(T::kind, (&b,), kb) && (ka == kb)
            == verdict
}

/// A list of items together with the number of items already consumed.
pub struct Cursor<T> {
    items: Vec<T>,
    pos: usize,
}

impl<T> Cursor<T> {
    #[verifier::type_invariant]
    spec fn in_bounds(&self) -> bool {
        self.pos <= self.items.len()
    }

    /// The whole list the cursor reads from; it never changes.
    pub closed spec fn items(&self) -> Seq<T> {
        self.items@
    }

    /// How many items have been consumed so far.
    pub closed spec fn position(&self) -> nat {
        self.pos as nat
    }

    /// The index of the item that `peek` reaches with the given offset, where
    /// an absent offset stands for 1, the next item.
    pub open spec fn target(&self, offset: Option<usize>) -> int {
        self.position() + (match offset {
            Some(n) => n as int,
            None => 1,
        }) - 1
    }

    /// Whether `target(offset)` is an index into the list.
    pub open spec fn has_target(&self, offset: Option<usize>) -> bool {
        0 <= self.target(offset) < self.items().len()
    }

    /// Whether there is a next item.
    pub open spec fn has_next(&self) -> bool {
        self.position() < self.items().len()
    }

    /// The next item, where there is one.
    pub open spec fn next(&self) -> T
        recommends
            self.has_next(),
    {
        self.items()[self.position() as int]
    }
}

/// Whether `handle`, called on some clone of `item`, may answer `verdict`.
pub open spec fn judges<T: Clone, F: Fn(T) -> bool>(handle: F, item: T, verdict: bool) -> bool {
    exists|x: T| cloned(item, x) && call_ensures(handle, (x,), verdict)
}

/// Whether `handle` may be called on every clone of `item`.
pub open spec fn admits<T: Clone, F: Fn(T) -> bool>(handle: F, item: T) -> bool {
    forall|x: T| cloned(item, x) ==> call_requires(handle, (x,))
}

impl<T: Clone> Cursor<T> {
    /// A cursor in front of the first of the items.
    pub fn new(items: Vec<T>) -> (c: Self)
        ensures
            c.items() == items@,
            c.position() == 0,
    {
        Cursor { items, pos: 0 }
    }

    /// The number of items consumed so far, which is the index of the next
    /// item.
    pub fn index(&self) -> (i: usize)
        ensures
            i == self.position(),
            self.position() <= self.items().len() <= usize::MAX,
    {
        proof {
            use_type_invariant(self);
        }
        self.pos
    }

    /// Returns a clone of the item `offset` places ahead, counting the next
    /// item as place 1, or `None` if there is no such item.
    pub fn peek(&self, offset: Option<usize>) -> (r: Option<T>)
        ensures
            self.position() <= self.items().len(),
            match r {
                Some(x) => self.has_target(offset) && cloned(self.items()[self.target(offset)], x),
                None => !self.has_target(offset),
            },
    {
        proof {
            use_type_invariant(self);
        }
        let offset: usize = match offset {
            Some(n) => n,
            None => 1,
        };
        if offset <= self.items.len() - self.pos && (offset >= 1 || self.pos >= 1) {
            let index: usize = self.pos + offset - 1;
            Some(self.items[index].clone())
        } else {
            None
        }
    }

    /// Consumes the next item, if there is one, and returns a clone of it.
    pub fn eat(&mut self) -> (r: Option<T>)
        ensures
            final(self).items() == old(self).items(),
            final(self).position() <= final(self).items().len(),
            match r {
                Some(x) => {
                    &&& old(self).position() < old(self).items().len()
                    &&& cloned(old(self).items()[old(self).position() as int], x)
                    &&& final(self).position() == old(self).position() + 1
                },
                None => {
                    &&& old(self).position() >= old(self).items().len()
                    &&& final(self).position() == old(self).position()
                },
            },
    {
        proof {
            use_type_invariant(&*self);
        }
        if self.pos < self.items.len() {
            self.pos += 1;
            Some(self.items[self.pos - 1].clone())
        } else {
            None
        }
    }

    /// Consumes the next item and returns a clone of it, provided that there
    /// is one and that `handle` accepts it; otherwise leaves the cursor as it
    /// is and returns `None`.
    pub fn eat_iff<F: Fn(T) -> bool>(&mut self, handle: F) -> (r: Option<T>)
        requires
            old(self).has_next() ==> admits(handle, old(self).next()),
        ensures
            final(self).items() == old(self).items(),
            final(self).position() <= final(self).items().len(),
            match r {
                Some(x) => {
                    &&& old(self).has_next()
                    &&& judges(handle, old(self).next(), true)
                    &&& cloned(old(self).next(), x)
                    &&& final(self).position() == old(self).position() + 1
                },
                None => {
                    &&& old(self).has_next() ==> judges(handle, old(self).next(), false)
                    &&& final(self).position() == old(self).position()
                },
            },
    {
        proof {
            use_type_invariant(&*self);
        }
        if self.pos >= self.items.len() {
            return None;
        }
        let probe = self.items[self.pos].clone();
        assert(cloned(self.items@[self.pos as int], probe));
        if handle(probe) {
            self.pos += 1;
            Some(self.items[self.pos - 1].clone())
        } else {
            None
        }
    }

    /// Consumes the next item and returns a clone of it, provided that there
    /// is one and that it is of the same kind as `expected`; otherwise leaves
    /// the cursor as it is and returns `None`.
    pub fn eat_if(&mut self, expected: T) -> (r: Option<T>) where T: ItemKind
        ensures
            final(self).items() == old(self).items(),
            final(self).position() <= final(self).items().len(),
            match r {
                Some(x) => {
                    &&& old(self).has_next()
                    &&& kinds_compare(old(self).next(), expected, true)
                    &&& cloned(old(self).next(), x)
                    &&& final(self).position() == old(self).position() + 1
                },
                None => {
                    &&& old(self).has_next() ==> kinds_compare(old(self).next(), expected, false)
                    &&& final(self).position() == old(self).position()
                },
            },
    {
        proof {
            use_type_invariant(&*self);
        }
        if self.pos >= self.items.len() {
            return None;
        }
        let found = self.items[self.pos].kind();
        let wanted = expected.kind();
        if found == wanted {
            self.pos += 1;
            Some(self.items[self.pos - 1].clone())
        } else {
            None
        }
    }

    /// Returns a clone of the item `offset` places ahead, as `peek` does,
    /// provided that `handle` accepts it. The cursor is left as it is.
    pub fn peek_iff<F: Fn(T) -> bool>(&mut self, offset: Option<usize>, handle: F) -> (r: Option<T>)
        requires
            old(self).has_target(offset) ==> admits(
                handle,
                old(self).items()[old(self).target(offset)],
            ),
        ensures
            *final(self) == *old(self),
            final(self).position() <= final(self).items().len(),
            match r {
                Some(x) => {
                    &&& old(self).has_target(offset)
                    &&& judges(handle, old(self).items()[old(self).target(offset)], true)
                    &&& cloned(old(self).items()[old(self).target(offset)], x)
                },
                None => old(self).has_target(offset) ==> judges(
                    handle,
                    old(self).items()[old(self).target(offset)],
                    false,
                ),
            },
    {
        proof {
            use_type_invariant(&*self);
        }
        let offset: usize = match offset {
            Some(n) => n,
            None => 1,
        };
        if offset <= self.items.len() - self.pos && (offset >= 1 || self.pos >= 1) {
            let index: usize = self.pos + offset - 1;
            let probe = self.items[index].clone();
            assert(cloned(self.items@[index as int], probe));
            if handle(probe) {
                Some(self.items[index].clone())
            } else {
                None
            }
        } else {
            None
        }
    }
}

} // verus!
