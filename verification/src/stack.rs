use vstd::prelude::*;

verus! {

/// A last-in, first-out stack.
pub struct SimpleStack<T> {
    stack: Vec<T>,
}

impl<T> View for SimpleStack<T> {
    type V = Seq<T>;

    /// The elements from bottom to top.
    closed spec fn view(&self) -> Seq<T> {
        self.stack@
    }
}

impl<T> SimpleStack<T> {
    /// An empty stack.
    pub fn new() -> (s: Self)
        ensures
            s@ == Seq::<T>::empty(),
    {
        SimpleStack { stack: Vec::new() }
    }

    /// Puts `value` on top.
    pub fn push(&mut self, value: T)
        ensures
            final(self)@ == old(self)@.push(value),
    {
        self.stack.push(value);
    }

    /// Takes the top element off, or returns `None` when the stack is empty.
    pub fn pop(&mut self) -> (r: Option<T>)
        ensures
            old(self)@.len() == 0 ==> r is None && final(self)@ == old(self)@,
            old(self)@.len() > 0 ==> r == Some(old(self)@.last()) && final(self)@
                == old(self)@.drop_last(),
    {
        self.stack.pop()
    }
}

} // verus!

verus! {

/// Last in, first out: after pushing `x` onto a stack holding `s`, a pop
/// gives `x` back and leaves `s`.
pub proof fn law_push_then_pop<T>(s: Seq<T>, x: T)
    ensures
        s.push(x).len() > 0,
        s.push(x).last() == x,
        s.push(x).drop_last() == s,
{
    assert(s.push(x).drop_last() =~= s);
}

} // verus!
