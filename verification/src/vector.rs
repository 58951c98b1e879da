//! Fixed-length vectors of scalars.
//!
//! A `Vector` is an ordered sequence of scalars whose length is set when the
//! vector is constructed; no operation resizes it. The scalar arithmetic of
//! the library is defined here, both as executable operations and as the
//! sequence-level spec functions that every contract speaks of.

use vstd::prelude::*;

verus! {

/// Whether a mathematical integer fits in a scalar.
pub open spec fn in_i64(x: int) -> bool {
    i64::MIN <= x <= i64::MAX
}

/// The all-zero sequence of length `n`: the model of a default vector.
pub open spec fn zero_seq(n: nat) -> Seq<i64> {
    Seq::new(n, |i: int| 0i64)
}

/// Element-wise sum of two equal-length sequences.
pub open spec fn add_seq(a: Seq<i64>, b: Seq<i64>) -> Seq<i64> {
    Seq::new(a.len(), |i: int| (a[i] + b[i]) as i64)
}

/// Element-wise difference of two equal-length sequences.
pub open spec fn sub_seq(a: Seq<i64>, b: Seq<i64>) -> Seq<i64> {
    Seq::new(a.len(), |i: int| (a[i] - b[i]) as i64)
}

/// Element-wise product of two equal-length sequences.
pub open spec fn mul_seq(a: Seq<i64>, b: Seq<i64>) -> Seq<i64> {
    Seq::new(a.len(), |i: int| (a[i] * b[i]) as i64)
}

/// Every element-wise sum stays in scalar range.
pub open spec fn can_add(a: Seq<i64>, b: Seq<i64>) -> bool {
    forall|i: int| #![trigger a[i]] 0 <= i < a.len() ==> in_i64(a[i] + b[i])
}

/// Every element-wise difference stays in scalar range.
pub open spec fn can_sub(a: Seq<i64>, b: Seq<i64>) -> bool {
    forall|i: int| #![trigger a[i]] 0 <= i < a.len() ==> in_i64(a[i] - b[i])
}

/// Every element-wise product stays in scalar range.
pub open spec fn can_mul(a: Seq<i64>, b: Seq<i64>) -> bool {
    forall|i: int| #![trigger a[i]] 0 <= i < a.len() ==> in_i64(a[i] * b[i])
}

/// Sum of the first `n` pairwise products of `a` and `b`:
/// `a[0] * b[0] + ... + a[n - 1] * b[n - 1]`.
pub open spec fn dot_prefix(a: Seq<i64>, b: Seq<i64>, n: int) -> int
    decreases n,
{
    if n <= 0 {
        0
    } else {
        dot_prefix(a, b, n - 1) + a[n - 1] * b[n - 1]
    }
}

/// The dot product of two equal-length sequences, as a mathematical integer.
pub open spec fn dot_ints(a: Seq<i64>, b: Seq<i64>) -> int {
    dot_prefix(a, b, a.len() as int)
}

/// Every pairwise product and every partial sum of the dot product stays in
/// scalar range, so a left-to-right accumulation never overflows.
pub open spec fn can_dot(a: Seq<i64>, b: Seq<i64>) -> bool {
    &&& forall|i: int| #![trigger a[i]] 0 <= i < a.len() ==> in_i64(a[i] * b[i])
    &&& forall|n: int| 0 <= n <= a.len() ==> in_i64(#[trigger] dot_prefix(a, b, n))
}

/// An ordered sequence of scalars of fixed length. The length is chosen at
/// construction; no operation on a `Vector` changes it.
#[derive(Debug)]
pub struct Vector {
    elems: Vec<i64>,
}

impl View for Vector {
    type V = Seq<i64>;

    closed spec fn view(&self) -> Seq<i64> {
        self.elems@
    }
}

impl Vector {
    /// The number of elements.
    pub fn len(&self) -> (n: usize)
        ensures
            n == self@.len(),
    {
        self.elems.len()
    }

    /// The all-zero vector of the given length.
    pub fn zero(size: usize) -> (v: Vector)
        ensures
            v@ == zero_seq(size as nat),
    {
        let mut elems: Vec<i64> = Vec::new();
        for i in 0..size
            invariant
                elems@.len() == i,
                forall|j: int| 0 <= j < i ==> elems@[j] == 0i64,
        {
            elems.push(0);
        }
        proof {
            assert(elems@ =~= zero_seq(size as nat));
        }
        Vector { elems }
    }

    /// A vector holding exactly the given scalars, in order.
    pub fn from_vec(elems: Vec<i64>) -> (v: Vector)
        ensures
            v@ == elems@,
    {
        Vector { elems }
    }

    /// Collects exactly `size` scalars into a vector. A sequence of any
    /// other length is rejected: no truncation and no padding.
    pub fn from_elems(size: usize, elems: Vec<i64>) -> (r: Option<Vector>)
        ensures
            r is Some <==> elems@.len() == size,
            r matches Some(v) ==> v@ == elems@,
    {
        if elems.len() == size {
            Some(Vector { elems })
        } else {
            None
        }
    }

    /// The elements in order, as a plain vector of scalars.
    pub fn to_elems(&self) -> (r: Vec<i64>)
        ensures
            r@ == self@,
    {
        let n = self.elems.len();
        let mut out: Vec<i64> = Vec::new();
        for i in 0..n
            invariant
                n == self@.len(),
                out@.len() == i,
                forall|j: int| 0 <= j < i ==> out@[j] == self@[j],
        {
            out.push(self.elems[i]);
        }
        proof {
            assert(out@ =~= self@);
        }
        out
    }

    /// The element at position `i`. Positions start at 0 and must be
    /// strictly below the length.
    pub fn index(&self, i: usize) -> (x: i64)
        requires
            i < self@.len(),
        ensures
            x == self@[i as int],
    {
        self.elems[i]
    }

    /// Bounds-checked element access: a value exactly when `i` is a valid
    /// position.
    pub fn get(&self, i: usize) -> (r: Option<i64>)
        ensures
            r is Some <==> i < self@.len(),
            r matches Some(x) ==> x == self@[i as int],
    {
        if i < self.elems.len() {
            Some(self.elems[i])
        } else {
            None
        }
    }

    /// Element-wise sum with an equal-length vector: element `i` of the
    /// result is `self[i] + rhs[i]`.
    pub fn add(&self, rhs: &Vector) -> (r: Vector)
        requires
            self@.len() == rhs@.len(),
            can_add(self@, rhs@),
        ensures
            r@ == add_seq(self@, rhs@),
    {
        let n = self.elems.len();
        let mut elems: Vec<i64> = Vec::new();
        for i in 0..n
            invariant
                n == self@.len(),
                n == rhs@.len(),
                can_add(self@, rhs@),
                elems@.len() == i,
                forall|j: int| 0 <= j < i ==> elems@[j] == add_seq(self@, rhs@)[j],
        {
            let x = self.elems[i] + rhs.elems[i];
            elems.push(x);
        }
        proof {
            assert(elems@ =~= add_seq(self@, rhs@));
        }
        Vector { elems }
    }

    /// Element-wise difference with an equal-length vector: element `i` of
    /// the result is `self[i] - rhs[i]`.
    pub fn sub(&self, rhs: &Vector) -> (r: Vector)
        requires
            self@.len() == rhs@.len(),
            can_sub(self@, rhs@),
        ensures
            r@ == sub_seq(self@, rhs@),
    {
        let n = self.elems.len();
        let mut elems: Vec<i64> = Vec::new();
        for i in 0..n
            invariant
                n == self@.len(),
                n == rhs@.len(),
                can_sub(self@, rhs@),
                elems@.len() == i,
                forall|j: int| 0 <= j < i ==> elems@[j] == sub_seq(self@, rhs@)[j],
        {
            let x = self.elems[i] - rhs.elems[i];
            elems.push(x);
        }
        proof {
            assert(elems@ =~= sub_seq(self@, rhs@));
        }
        Vector { elems }
    }

    /// Element-wise product with an equal-length vector: element `i` of the
    /// result is `self[i] * rhs[i]`. This is not the dot product: it keeps
    /// the shape of its operands instead of summing.
    pub fn mul(&self, rhs: &Vector) -> (r: Vector)
        requires
            self@.len() == rhs@.len(),
            can_mul(self@, rhs@),
        ensures
            r@ == mul_seq(self@, rhs@),
    {
        let n = self.elems.len();
        let mut elems: Vec<i64> = Vec::new();
        for i in 0..n
            invariant
                n == self@.len(),
                n == rhs@.len(),
                can_mul(self@, rhs@),
                elems@.len() == i,
                forall|j: int| 0 <= j < i ==> elems@[j] == mul_seq(self@, rhs@)[j],
        {
            let x = self.elems[i] * rhs.elems[i];
            elems.push(x);
        }
        proof {
            assert(elems@ =~= mul_seq(self@, rhs@));
        }
        Vector { elems }
    }

    /// Dot product with an equal-length vector: the sum over all `i` of
    /// `self[i] * rhs[i]`. The empty vector yields 0.
    pub fn dot(&self, rhs: &Vector) -> (r: i64)
        requires
            self@.len() == rhs@.len(),
            can_dot(self@, rhs@),
        ensures
            r == dot_ints(self@, rhs@),
    {
        let n = self.elems.len();
        let mut acc: i64 = 0;
        for i in 0..n
            invariant
                n == self@.len(),
                n == rhs@.len(),
                can_dot(self@, rhs@),
                acc == dot_prefix(self@, rhs@, i as int),
        {
            let ghost next = dot_prefix(self@, rhs@, i as int + 1);
            proof {
                let j = i as int;
                assert(next == dot_prefix(self@, rhs@, j) + self@[j] * rhs@[j]);
                assert(in_i64(next));
            }
            let p = self.elems[i] * rhs.elems[i];
            acc = acc + p;
        }
        acc
    }

    /// Writes `value` at position `i`, leaving every other element as it
    /// was.
    pub fn set_index(&mut self, i: usize, value: i64)
        requires
            i < old(self)@.len(),
        ensures
            final(self)@ == old(self)@.update(i as int, value),
    {
        self.elems.set(i, value);
    }
}

} // verus!
