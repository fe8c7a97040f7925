use vstd::prelude::*;

verus! {

/// Integer element types that a [`Buffer`] can add up.
///
/// Each implementation gives the mathematical value of an element and the
/// range of its type, and adds two elements exactly when the sum is in range.
pub trait SumElem: Copy + Sized {
    /// The mathematical value of the element.
    spec fn int_value(self) -> int;

    /// Whether a mathematical integer is representable in the type.
    spec fn fits(v: int) -> bool;

    /// The additive identity.
    fn zero() -> (z: Self)
        ensures
            z.int_value() == 0,
    ;

    /// Adds two elements whose sum is representable.
    fn add_elem(self, other: Self) -> (r: Self)
        requires
            Self::fits(self.int_value() + other.int_value()),
        ensures
            r.int_value() == self.int_value() + other.int_value(),
    ;
}

impl SumElem for i32 {
    open spec fn int_value(self) -> int {
        self as int
    }

    open spec fn fits(v: int) -> bool {
        i32::MIN <= v <= i32::MAX
    }

    fn zero() -> (z: Self) {
        0
    }

    fn add_elem(self, other: Self) -> (r: Self) {
        self + other
    }
}

impl SumElem for i64 {
    open spec fn int_value(self) -> int {
        self as int
    }

    open spec fn fits(v: int) -> bool {
        i64::MIN <= v <= i64::MAX
    }

    fn zero() -> (z: Self) {
        0
    }

    fn add_elem(self, other: Self) -> (r: Self) {
        self + other
    }
}

impl SumElem for u32 {
    open spec fn int_value(self) -> int {
        self as int
    }

    open spec fn fits(v: int) -> bool {
        0 <= v <= u32::MAX
    }

    fn zero() -> (z: Self) {
        0
    }

    fn add_elem(self, other: Self) -> (r: Self) {
        self + other
    }
}

impl SumElem for u64 {
    open spec fn int_value(self) -> int {
        self as int
    }

    open spec fn fits(v: int) -> bool {
        0 <= v <= u64::MAX
    }

    fn zero() -> (z: Self) {
        0
    }

    fn add_elem(self, other: Self) -> (r: Self) {
        self + other
    }
}

/// The mathematical sum of the values in `s`.
pub open spec fn seq_sum<T: SumElem>(s: Seq<T>) -> int
    decreases s.len(),
{
    if s.len() == 0 {
        0
    } else {
        seq_sum(s.drop_last()) + s.last().int_value()
    }
}

/// Every running total of `s`, from the empty prefix to the whole sequence,
/// is representable in the element type: adding left to right never
/// overflows.
pub open spec fn running_sums_fit<T: SumElem>(s: Seq<T>) -> bool {
    forall|k: int| 0 <= k <= s.len() ==> #[trigger] T::fits(seq_sum(s.take(k)))
}

/// A buffer of values.
pub struct Buffer<T> {
    pub data: Vec<T>,
}

impl<T> Buffer<T> {
    /// Wraps the given values.
    pub fn new(data: Vec<T>) -> (b: Self)
        ensures
            b.data@ == data@,
    {
        Buffer::<T> { data }
    }
}

impl<T: SumElem> Buffer<T> {
    /// Adds up the values from first to last.
    pub fn sum(&self) -> (r: T)
        requires
            running_sums_fit(self.data@),
        ensures
            r.int_value() == seq_sum(self.data@),
    {
        let mut acc = T::zero();
        let mut i: usize = 0;
        while i < self.data.len()
            invariant
                i <= self.data.len(),
                running_sums_fit(self.data@),
                acc.int_value() == seq_sum(self.data@.take(i as int)),
            decreases self.data.len() - i,
        {
            let x = self.data[i];
            proof {
                let s = self.data@;
                assert(s.take(i + 1).drop_last() =~= s.take(i as int));
                assert(T::fits(seq_sum(s.take(i + 1))));
            }
            acc = acc.add_elem(x);
            i = i + 1;
        }
        proof {
            assert(self.data@.take(self.data.len() as int) =~= self.data@);
        }
        acc
    }
}

} // verus!
