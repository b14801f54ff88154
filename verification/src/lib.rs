//! Transformations on fixed-length arrays: flattening a nested array,
//! removing the last element, appending an element, removing an element at
//! an arbitrary position, reversing, and splitting into two parts.
//!
//! Every operation builds its result element by element through an internal
//! buffer of slots that start out empty, and the buffer may only be turned
//! into a finished array once every slot has been written, so a caller can
//! never observe a partially built array.

use vstd::prelude::*;

mod buffer;

use crate::buffer::SlotBuffer;

verus! {

/// Creates an array that flattens a nested structure.
///
/// Every row of `array` must have length `width`; the rows are laid out one
/// after another in row-major order, so the element at row `a`, column `b`
/// lands at position `a * width + b` of the result.
pub fn flatten<T: Copy>(array: Vec<Vec<T>>, width: usize) -> (r: Vec<T>)
    requires
        forall|a: int| 0 <= a < array@.len() ==> (#[trigger] array@[a])@.len() == width,
        array@.len() * width <= usize::MAX,
    ensures
        r@.len() == array@.len() * width,
        forall|a: int, b: int|
            0 <= a < array@.len() && 0 <= b < width ==> r@[a * width + b] == #[trigger] array@[a]@[b],
{
    let rows: usize = array.len();
    let total: usize = rows * width;
    let mut buf = SlotBuffer::allocate(total);
    let mut a: usize = 0;
    while a < rows
        invariant
            rows == array@.len(),
            rows * width <= usize::MAX,
            forall|x: int| 0 <= x < rows ==> (#[trigger] array@[x])@.len() == width,
            a <= rows,
            total == rows * width,
            buf.capacity() == total,
            forall|x: int, j: int|
                0 <= x < a && 0 <= j < width ==> buf.slot(x * width + j) == Some(
                    #[trigger] array@[x]@[j],
                ),
        decreases rows - a,
    {
        let mut b: usize = 0;
        while b < width
            invariant
                rows == array@.len(),
                rows * width <= usize::MAX,
                forall|x: int| 0 <= x < rows ==> (#[trigger] array@[x])@.len() == width,
                a < rows,
                b <= width,
                total == rows * width,
                buf.capacity() == total,
                forall|x: int, j: int|
                    0 <= x < a && 0 <= j < width ==> buf.slot(x * width + j) == Some(
                        #[trigger] array@[x]@[j],
                    ),
                forall|j: int|
                    0 <= j < b ==> buf.slot(a * width + j) == Some(#[trigger] array@[a as int]@[j]),
            decreases width - b,
        {
            proof {
                assert(a * width + b < rows * width) by (nonlinear_arith)
                    requires
                        0 <= a < rows,
                        0 <= b < width,
                ;
            }
            let slot_index: usize = a * width + b;
            let row = &array[a];
            buf.write(slot_index, row[b]);
            proof {
                assert(a * width >= 0) by (nonlinear_arith)
                    requires
                        0 <= a,
                        0 <= width,
                ;
                assert forall|x: int, j: int| 0 <= x < a && 0 <= j < width implies buf.slot(
                    x * width + j,
                ) == Some(#[trigger] array@[x]@[j]) by {
                    assert(0 <= x * width + j && x * width + j < a * width) by (nonlinear_arith)
                        requires
                            0 <= x < a,
                            0 <= j < width,
                    ;
                };
            }
            b += 1;
        }
        proof {
            assert forall|x: int, j: int| 0 <= x < a + 1 && 0 <= j < width implies buf.slot(
                x * width + j,
            ) == Some(#[trigger] array@[x]@[j]) by {
                if x == a {
                    assert(buf.slot(a * width + j) == Some(array@[a as int]@[j]));
                }
            };
        }
        a += 1;
    }
    proof {
        assert forall|i: int| 0 <= i < buf.capacity() implies buf.is_filled(i) by {
            assert(0 < width) by (nonlinear_arith)
                requires
                    0 <= i,
                    i < rows * width,
                    0 <= width,
            ;
            let x: int = i / (width as int);
            let j: int = i % (width as int);
            assert(i == x * width + j && 0 <= j < width && 0 <= x < rows) by (nonlinear_arith)
                requires
                    0 <= i < rows * width,
                    0 < width,
                    x == i / (width as int),
                    j == i % (width as int),
            ;
            assert(buf.slot(x * width + j) == Some(array@[x]@[j]));
        };
    }
    let r = buf.finalize();
    proof {
        assert forall|a: int, b: int|
            0 <= a < array@.len() && 0 <= b < width implies r@[a * width + b]
            == #[trigger] array@[a]@[b] by {
            assert(0 <= a * width + b < array@.len() * width) by (nonlinear_arith)
                requires
                    0 <= a < array@.len(),
                    0 <= b < width,
            ;
            assert(buf.slot(a * width + b) == Some(array@[a]@[b]));
            assert(r@[a * width + b] == buf.slot_value(a * width + b));
        };
    }
    r
}

/// Operations that consume a fixed-length array and build a new one whose
/// length is a function of the input length.
///
/// `contents` is the mathematical sequence of elements that an implementor
/// holds; every operation's contract is stated over it.
pub trait ArrayUtil: Sized {
    type Item: Copy;

    /// The mathematical contents of the array.
    spec fn contents(&self) -> Seq<Self::Item>;

    /// Creates a new array with the last element removed.
    fn pop(self) -> (r: Self)
        requires
            self.contents().len() >= 1,
        ensures
            r.contents() == self.contents().subrange(0, self.contents().len() - 1),
    ;

    /// Creates a new array with an additional element at the back.
    fn push(self, value: Self::Item) -> (r: Self)
        requires
            self.contents().len() < usize::MAX,
        ensures
            r.contents() == self.contents().push(value),
    ;

    /// Creates a new array without the element at position `index`,
    /// shifting all elements after it to the left.
    fn remove(self, index: usize) -> (r: Self)
        requires
            index < self.contents().len(),
        ensures
            r.contents() == self.contents().remove(index as int),
            r.contents().len() == self.contents().len() - 1,
            forall|k: int| 0 <= k < index ==> r.contents()[k] == self.contents()[k],
            forall|k: int|
                index <= k < self.contents().len() - 1 ==> r.contents()[k] == self.contents()[k
                    + 1],
    ;

    /// Creates a new array with the order of elements reversed.
    fn reverse(self) -> (r: Self)
        ensures
            r.contents() == self.contents().reverse(),
            r.contents().len() == self.contents().len(),
            forall|i: int|
                0 <= i < self.contents().len() ==> r.contents()[i] == self.contents()[self.contents().len()
                    - 1 - i],
    ;

    /// Divides one array into two at an index.
    ///
    /// The first will contain all indices from `[0, pos)` (excluding
    /// the index `pos` itself) and the second will contain all
    /// indices from `[pos, len)` (excluding the index `len` itself).
    /// Concatenating the two parts reconstructs the array exactly.
    fn split(self, pos: usize) -> (r: (Self, Self))
        requires
            pos <= self.contents().len(),
        ensures
            r.0.contents() == self.contents().subrange(0, pos as int),
            r.1.contents() == self.contents().subrange(pos as int, self.contents().len() as int),
            r.0.contents() + r.1.contents() == self.contents(),
    ;
}

impl<T: Copy> ArrayUtil for Vec<T> {
    type Item = T;

    open spec fn contents(&self) -> Seq<T> {
        self@
    }

    fn pop(self) -> (r: Self) {
        let n: usize = self.len();
        let r = ArrayUtil::remove(self, n - 1);
        proof {
            assert(r@ =~= self@.subrange(0, self@.len() - 1));
        }
        r
    }

    fn remove(self, index: usize) -> (r: Self) {
        let n: usize = self.len();
        let mut buf = SlotBuffer::allocate(n - 1);
        let mut pos: usize = 0;
        let mut dst: usize = 0;
        while pos < n
            invariant
                n == self@.len(),
                index < n,
                pos <= n,
                dst as int == if pos <= index {
                    pos as int
                } else {
                    pos as int - 1
                },
                buf.capacity() == n - 1,
                forall|k: int|
                    0 <= k < dst ==> buf.slot(k) == Some(
                        if k < index {
                            self@[k]
                        } else {
                            self@[k + 1]
                        },
                    ),
            decreases n - pos,
        {
            if pos != index {
                buf.write(dst, self[pos]);
                dst += 1;
            }
            pos += 1;
        }
        let r = buf.finalize();
        proof {
            assert forall|k: int| 0 <= k < r@.len() implies r@[k] == self@.remove(index as int)[k]
            by {
                assert(r@[k] == buf.slot_value(k));
                if k < index {
                    assert(buf.slot(k) == Some(self@[k]));
                } else {
                    assert(buf.slot(k) == Some(self@[k + 1]));
                }
            };
            assert(r@ =~= self@.remove(index as int));
        }
        r
    }

    fn push(self, value: T) -> (r: Self) {
        let n: usize = self.len();
        let mut buf = SlotBuffer::allocate(n + 1);
        let mut pos: usize = 0;
        while pos < n
            invariant
                n == self@.len(),
                n < usize::MAX,
                pos <= n,
                buf.capacity() == n + 1,
                forall|i: int| 0 <= i < pos ==> buf.slot(i) == Some(self@[i]),
            decreases n - pos,
        {
            buf.write(pos, self[pos]);
            pos += 1;
        }
        buf.write(n, value);
        let r = buf.finalize();
        proof {
            assert forall|i: int| 0 <= i < r@.len() implies r@[i] == self@.push(value)[i] by {
                assert(r@[i] == buf.slot_value(i));
                if i < n {
                    assert(buf.slot(i) == Some(self@[i]));
                } else {
                    assert(buf.slot(i) == Some(value));
                }
            };
            assert(r@ =~= self@.push(value));
        }
        r
    }

    fn reverse(self) -> (r: Self) {
        let n: usize = self.len();
        let mut buf = SlotBuffer::allocate(n);
        let mut pos: usize = 0;
        while pos < n
            invariant
                n == self@.len(),
                pos <= n,
                buf.capacity() == n,
                forall|i: int| n - pos <= i < n ==> buf.slot(i) == Some(self@[n - 1 - i]),
            decreases n - pos,
        {
            buf.write(n - 1 - pos, self[pos]);
            pos += 1;
        }
        let r = buf.finalize();
        proof {
            assert forall|i: int| 0 <= i < r@.len() implies r@[i] == self@.reverse()[i] by {
                assert(r@[i] == buf.slot_value(i));
                assert(buf.slot(i) == Some(self@[n - 1 - i]));
            };
            assert(r@ =~= self@.reverse());
        }
        r
    }

    fn split(self, pos: usize) -> (r: (Self, Self)) {
        let n: usize = self.len();
        let mut first = SlotBuffer::allocate(pos);
        let mut second = SlotBuffer::allocate(n - pos);
        let mut i: usize = 0;
        while i < pos
            invariant
                n == self@.len(),
                pos <= n,
                i <= pos,
                first.capacity() == pos,
                forall|k: int| 0 <= k < i ==> first.slot(k) == Some(self@[k]),
            decreases pos - i,
        {
            first.write(i, self[i]);
            i += 1;
        }
        while i < n
            invariant
                n == self@.len(),
                pos <= n,
                pos <= i <= n,
                first.capacity() == pos,
                forall|k: int| 0 <= k < pos ==> first.slot(k) == Some(self@[k]),
                second.capacity() == n - pos,
                forall|k: int| 0 <= k < i - pos ==> second.slot(k) == Some(self@[pos + k]),
            decreases n - i,
        {
            second.write(i - pos, self[i]);
            i += 1;
        }
        let a = first.finalize();
        let b = second.finalize();
        proof {
            assert forall|k: int| 0 <= k < a@.len() implies a@[k] == self@.subrange(
                0,
                pos as int,
            )[k] by {
                assert(a@[k] == first.slot_value(k));
                assert(first.slot(k) == Some(self@[k]));
            };
            assert(a@ =~= self@.subrange(0, pos as int));
            assert forall|k: int| 0 <= k < b@.len() implies b@[k] == self@.subrange(
                pos as int,
                n as int,
            )[k] by {
                assert(b@[k] == second.slot_value(k));
                assert(second.slot(k) == Some(self@[pos + k]));
            };
            assert(b@ =~= self@.subrange(pos as int, n as int));
            assert(a@ + b@ =~= self@);
        }
        (a, b)
    }
}

/// Reversing an array twice reproduces the original order.
///
/// Together with `ArrayUtil::reverse`'s contract this makes `reverse` an
/// involution: if `r.contents() == a.contents().reverse()` and
/// `rr.contents() == r.contents().reverse()`, then `rr.contents() ==
/// a.contents()`.
pub proof fn lemma_reverse_involution<T>(s: Seq<T>)
    ensures
        s.reverse().reverse() == s,
{
    assert(s.reverse().reverse() =~= s);
}

} // verus!
