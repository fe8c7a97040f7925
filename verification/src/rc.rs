use std::rc::Rc;
use vstd::prelude::*;

verus! {

/// A value together with a signed reference count.
pub struct MyRcRef<T> {
    obj: T,
    cnt: i32,
}

impl<T> MyRcRef<T> {
    /// The counted value.
    pub closed spec fn value(&self) -> T {
        self.obj
    }

    /// The current count.
    pub closed spec fn count(&self) -> int {
        self.cnt as int
    }

    /// A new cell holding `t`, counted once.
    pub fn new(t: T) -> (r: Self)
        ensures
            r.value() == t,
            r.count() == 1,
    {
        MyRcRef { obj: t, cnt: 1 }
    }

    fn change_cnt(&mut self, delta: i32)
        requires
            i32::MIN <= old(self).count() + delta <= i32::MAX,
        ensures
            final(self).count() == old(self).count() + delta,
            final(self).value() == old(self).value(),
    {
        self.cnt += delta;
    }

    /// Counts one more reference.
    pub fn inc(&mut self)
        requires
            old(self).count() < i32::MAX,
        ensures
            final(self).count() == old(self).count() + 1,
            final(self).value() == old(self).value(),
    {
        self.change_cnt(1);
    }

    /// Counts one reference fewer.
    pub fn dec(&mut self)
        requires
            old(self).count() > i32::MIN,
        ensures
            final(self).count() == old(self).count() - 1,
            final(self).value() == old(self).value(),
    {
        self.change_cnt(-1);
    }

    /// The current count.
    pub fn get_cnt(&self) -> (r: i32)
        ensures
            r == self.count(),
    {
        self.cnt
    }
}

/// `Rc::clone`: makes another pointer to the same allocation, so the new
/// pointer refers to the same value. This is all the contract claims.
#[verifier::external_body]
fn rc_clone<T>(r: &Rc<T>) -> (c: Rc<T>)
    ensures
        *c == **r,
{
    Rc::clone(r)
}

/// `Rc::strong_count`: the number of `Rc` pointers to the allocation. The
/// contract claims only that it is at least one (the argument is one of
/// them); the exact number depends on every other pointer alive in the
/// program and is not stated.
#[verifier::external_body]
fn rc_strong_count<T>(r: &Rc<T>) -> (n: usize)
    ensures
        n >= 1,
{
    Rc::strong_count(r)
}

/// A shared, reference-counted pointer. The allocation and its count are
/// kept by `std::rc::Rc`; the value is freed when the last pointer is dropped.
pub struct MyRc<T> {
    ptr: Rc<T>,
}

impl<T> MyRc<T> {
    /// The value pointed to.
    pub closed spec fn value(&self) -> T {
        *self.ptr
    }

    /// A new pointer to a fresh allocation holding `t`.
    pub fn new(t: T) -> (r: Self)
        ensures
            r.value() == t,
    {
        MyRc { ptr: Rc::new(t) }
    }

    /// The number of pointers to this allocation, at least one; a count
    /// beyond `i32::MAX` is reported as `i32::MAX`.
    pub fn strong_count(&self) -> (r: i32)
        ensures
            r >= 1,
    {
        let n = rc_strong_count(&self.ptr);
        if n > i32::MAX as usize {
            i32::MAX
        } else {
            n as i32
        }
    }

}

impl<T> std::ops::Deref for MyRc<T> {
    type Target = T;

    /// The value pointed to.
    fn deref(&self) -> (r: &T)
        ensures
            *r == self.value(),
    {
        &*self.ptr
    }
}

impl<T> Clone for MyRc<T> {
    /// Another pointer to the same allocation.
    fn clone(&self) -> (r: Self)
        ensures
            r.value() == self.value(),
    {
        MyRc { ptr: rc_clone(&self.ptr) }
    }
}

} // verus!

verus! {

/// Counting one more reference and then one fewer restores the count and
/// keeps the value: if `b` is `a` after `inc` and `c` is `b` after `dec`,
/// then `c` counts as `a` does.
pub proof fn law_inc_then_dec<T>(a: MyRcRef<T>, b: MyRcRef<T>, c: MyRcRef<T>)
    requires
        b.count() == a.count() + 1,
        b.value() == a.value(),
        c.count() == b.count() - 1,
        c.value() == b.value(),
    ensures
        c.count() == a.count(),
        c.value() == a.value(),
{
}

} // verus!

verus! {

/// The net change of a run of `inc` (`true`) and `dec` (`false`) calls.
pub open spec fn net_change(ops: Seq<bool>) -> int
    decreases ops.len(),
{
    if ops.len() == 0 {
        0
    } else {
        net_change(ops.drop_last()) + if ops.last() {
            1int
        } else {
            -1int
        }
    }
}

/// `rs` are the successive states of one cell: made by `new` with `t`, then
/// changed by `inc` or `dec` as `ops` says, each as its contract states.
pub open spec fn counted_run<T>(rs: Seq<MyRcRef<T>>, ops: Seq<bool>, t: T) -> bool {
    &&& rs.len() == ops.len() + 1
    &&& rs[0].count() == 1
    &&& rs[0].value() == t
    &&& forall|k: int|
        0 <= k < ops.len() ==> {
            &&& #[trigger] rs[k + 1].count() == rs[k].count() + if ops[k] {
                1int
            } else {
                -1int
            }
            &&& rs[k + 1].value() == rs[k].value()
        }
}

/// After `new` and any run of `i` calls of `inc` and `d` calls of `dec`,
/// the count is `1 + i - d` and the value is the one the cell was made
/// with; `get_cnt` reports that count.
pub proof fn law_count_of_run<T>(rs: Seq<MyRcRef<T>>, ops: Seq<bool>, t: T)
    requires
        counted_run(rs, ops, t),
    ensures
        forall|k: int|
            0 <= k <= ops.len() ==> #[trigger] rs[k].count() == 1 + net_change(ops.take(k))
                && rs[k].value() == t,
    decreases ops.len(),
{
    if ops.len() > 0 {
        let n = ops.len() - 1;
        let rs1 = rs.drop_last();
        let ops1 = ops.drop_last();
        assert forall|k: int| 0 <= k < ops1.len() implies {
            &&& #[trigger] rs1[k + 1].count() == rs1[k].count() + if ops1[k] {
                1int
            } else {
                -1int
            }
            &&& rs1[k + 1].value() == rs1[k].value()
        } by {
            assert(rs1[k + 1] == rs[k + 1] && rs1[k] == rs[k] && ops1[k] == ops[k]);
        }
        law_count_of_run(rs1, ops1, t);
        assert forall|k: int| 0 <= k <= ops.len() implies #[trigger] rs[k].count() == 1
            + net_change(ops.take(k)) && rs[k].value() == t by {
            if k <= n {
                assert(rs1[k] == rs[k]);
                assert(rs1[k].count() == 1 + net_change(ops1.take(k)));
                assert(ops1.take(k) =~= ops.take(k));
            } else {
                assert(rs1[n] == rs[n]);
                assert(rs1[n].count() == 1 + net_change(ops1.take(n)));
                assert(ops1.take(n) =~= ops1);
                assert(ops.take(k) =~= ops);
                assert(net_change(ops) == net_change(ops1) + if ops.last() {
                    1int
                } else {
                    -1int
                });
                assert(rs[n + 1].count() == rs[n].count() + if ops[n] {
                    1int
                } else {
                    -1int
                });
            }
        }
    } else {
        assert(ops.take(0) =~= Seq::<bool>::empty());
    }
}

} // verus!
