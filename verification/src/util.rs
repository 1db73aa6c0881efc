use vstd::prelude::*;
use crate::ast::ExprToken;

verus! {

broadcast use vstd::std_specs::vec::group_vec_axioms, vstd::seq::group_seq_axioms;

/// A cursor over a vector: items before the cursor are spent, the rest are
/// still to come.
pub struct Iter<T> {
    pub inner: Vec<T>,
    pub cursor: usize,
}

impl<T> Iter<T> {
    /// The cursor never runs past the end.
    pub open spec fn wf(&self) -> bool {
        self.cursor <= self.inner@.len()
    }

    /// The items still to come, in order.
    pub open spec fn remaining(&self) -> Seq<T> {
        self.inner@.skip(self.cursor as int)
    }

    pub fn new(inner: Vec<T>) -> (r: Iter<T>)
        ensures
            r.wf(),
            r.cursor == 0,
            r.inner == inner,
            r.remaining() == inner@,
    {
        let r = Iter { inner, cursor: 0 };
        proof {
            assert(r.remaining() =~= r.inner@);
        }
        r
    }

    /// Takes the next item out, or `None` at the end.
    pub fn take_next(&mut self) -> (r: Option<T>)
        requires
            old(self).wf(),
        ensures
            final(self).wf(),
            old(self).remaining().len() == 0 ==> r is None && *final(self) == *old(self),
            old(self).remaining().len() > 0 ==> (r matches Some(t) && t == old(self).remaining()[0] && final(self).remaining() == old(self).remaining().skip(1)),
    {
        if self.cursor >= self.inner.len() {
            return None;
        }
        let item = self.inner.remove(self.cursor);
        proof {
            assert(self.remaining() =~= old(self).remaining().skip(1));
        }
        Some(item)
    }

    /// A look at the next item, advancing past it; `None` at the end.
    pub fn next(&mut self) -> (r: Option<&T>)
        requires
            old(self).wf(),
        ensures
            final(self).wf(),
            final(self).inner == old(self).inner,
            old(self).remaining().len() == 0 ==> r is None && final(self).cursor == old(self).cursor,
            old(self).remaining().len() > 0 ==> (r matches Some(t) && *t == old(self).remaining()[0] && final(self).cursor == old(self).cursor + 1 && final(self).remaining() == old(self).remaining().skip(1)),
    {
        if self.cursor >= self.inner.len() {
            return None;
        }
        let token = &self.inner[self.cursor];
        self.cursor = self.cursor + 1;
        proof {
            assert(self.remaining() =~= old(self).remaining().skip(1));
        }
        Some(token)
    }

    /// A look at the next item without moving; `None` at the end.
    pub fn peek(&self) -> (r: Option<&T>)
        requires
            self.wf(),
        ensures
            self.remaining().len() == 0 ==> r is None,
            self.remaining().len() > 0 ==> (r matches Some(t) && *t == self.remaining()[0]),
    {
        if self.cursor >= self.inner.len() {
            return None;
        }
        Some(&self.inner[self.cursor])
    }
}

impl From<Vec<ExprToken>> for Iter<ExprToken> {
    fn from(inner: Vec<ExprToken>) -> (r: Iter<ExprToken>) {
        Iter { inner, cursor: 0 }
    }
}

impl vstd::std_specs::convert::FromSpecImpl<Vec<ExprToken>> for Iter<ExprToken> {
    open spec fn obeys_from_spec() -> bool {
        true
    }

    open spec fn from_spec(inner: Vec<ExprToken>) -> Self {
        Iter { inner, cursor: 0 }
    }
}

} // verus!
