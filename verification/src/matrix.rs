//! Square matrices, generic in their entry type.
//!
//! The renderer's transforms are 4-by-4 matrices whose arithmetic (products,
//! determinants, inverses) is numeric and lives with the host. What is exact
//! about them is the shuffling of entries: building the identity layout,
//! transposition, and the submatrix obtained by striking one row and one
//! column — the step behind minors and cofactors. Those operations are
//! verified here for any entry type.

use vstd::prelude::*;

verus! {

/// A 4-by-4 matrix, stored row-major.
pub struct Matrix<T> {
    grid: Vec<T>,
}

/// A 3-by-3 matrix, stored row-major.
pub struct Matrix3<T> {
    grid: Vec<T>,
}

/// A 2-by-2 matrix, stored row-major.
pub struct Matrix2<T> {
    grid: Vec<T>,
}

/// Where a source index lands when the struck line `cut` is skipped.
pub open spec fn spec_skip(i: int, cut: int) -> int {
    if i >= cut {
        i + 1
    } else {
        i
    }
}

impl<T: Copy> Matrix<T> {
    /// The entries, row-major.
    pub closed spec fn view(&self) -> Seq<T> {
        self.grid@
    }

    /// The entry in row `row`, column `col`.
    pub open spec fn spec_index(&self, row: int, col: int) -> T {
        self@[row * 4 + col]
    }

    pub open spec fn wf(&self) -> bool {
        self@.len() == 16
    }

    /// A matrix with every entry set to `fill`.
    pub fn new(fill: T) -> (r: Matrix<T>)
        ensures
            r.wf(),
            forall|i: int, j: int| 0 <= i < 4 && 0 <= j < 4 ==> r.spec_index(i, j) == fill,
    {
        let mut grid: Vec<T> = Vec::new();
        let mut k: usize = 0;
        while k < 16
            invariant
                0 <= k <= 16,
                grid@.len() == k,
                forall|m: int| 0 <= m < k ==> #[trigger] grid@[m] == fill,
            decreases 16 - k,
        {
            grid.push(fill);
            k += 1;
        }
        let r = Matrix { grid };
        proof {
            assert forall|i: int, j: int| 0 <= i < 4 && 0 <= j < 4 implies r.spec_index(i, j)
                == fill by {
                assert(0 <= i * 4 + j < 16) by (nonlinear_arith)
                    requires
                        0 <= i < 4,
                        0 <= j < 4,
                ;
            }
        }
        r
    }

    /// A matrix holding the given sixteen entries, row-major.
    pub fn from_vec(grid: Vec<T>) -> (r: Matrix<T>)
        requires
            grid@.len() == 16,
        ensures
            r.wf(),
            r@ == grid@,
    {
        Matrix { grid }
    }

    /// The identity layout: `one` down the diagonal, `zero` elsewhere.
    pub fn id(zero: T, one: T) -> (r: Matrix<T>)
        ensures
            r.wf(),
            forall|i: int, j: int|
                0 <= i < 4 && 0 <= j < 4 ==> r.spec_index(i, j) == (if i == j {
                    one
                } else {
                    zero
                }),
    {
        let mut m = Matrix::new(zero);
        m.set(0, 0, one);
        m.set(1, 1, one);
        m.set(2, 2, one);
        m.set(3, 3, one);
        m
    }

    pub fn get(&self, row: usize, col: usize) -> (r: T)
        requires
            self.wf(),
            row < 4,
            col < 4,
        ensures
            r == self.spec_index(row as int, col as int),
    {
        self.grid[row * 4 + col]
    }

    pub fn set(&mut self, row: usize, col: usize, value: T)
        requires
            old(self).wf(),
            row < 4,
            col < 4,
        ensures
            final(self).wf(),
            final(self)@ == old(self)@.update(row * 4 + col, value),
            final(self).spec_index(row as int, col as int) == value,
            forall|i: int, j: int|
                0 <= i < 4 && 0 <= j < 4 && (i != row || j != col) ==> final(self).spec_index(i, j)
                    == old(self).spec_index(i, j),
    {
        let k = row * 4 + col;
        self.grid[k] = value;
        proof {
            assert forall|i: int, j: int|
                0 <= i < 4 && 0 <= j < 4 && (i != row || j != col) implies self.spec_index(i, j)
                == old(self).spec_index(i, j) by {
                assert(i * 4 + j != row * 4 + col && 0 <= i * 4 + j < 16) by (nonlinear_arith)
                    requires
                        0 <= i < 4,
                        0 <= j < 4,
                        row < 4,
                        col < 4,
                        (i != row || j != col),
                ;
            }
        }
    }

    /// The matrix flipped about its diagonal.
    pub fn transpose(&self) -> (r: Matrix<T>)
        requires
            self.wf(),
        ensures
            r.wf(),
            forall|i: int, j: int|
                0 <= i < 4 && 0 <= j < 4 ==> r.spec_index(i, j) == self.spec_index(j, i),
    {
        let mut result = Matrix::new(self.get(0, 0));
        let mut i: usize = 0;
        while i < 4
            invariant
                0 <= i <= 4,
                self.wf(),
                result.wf(),
                forall|a: int, b: int|
                    0 <= a < i && 0 <= b < 4 ==> result.spec_index(a, b) == self.spec_index(b, a),
            decreases 4 - i,
        {
            let mut j: usize = 0;
            while j < 4
                invariant
                    0 <= j <= 4,
                    i < 4,
                    self.wf(),
                    result.wf(),
                    forall|a: int, b: int|
                        0 <= a < i && 0 <= b < 4 ==> result.spec_index(a, b) == self.spec_index(
                            b,
                            a,
                        ),
                    forall|b: int|
                        0 <= b < j ==> result.spec_index(i as int, b) == self.spec_index(
                            b,
                            i as int,
                        ),
                decreases 4 - j,
            {
                let v = self.get(j, i);
                result.set(i, j, v);
                j += 1;
            }
            i += 1;
        }
        result
    }

    /// The 3-by-3 matrix left after striking row `row` and column `col`.
    pub fn submatrix(&self, row: usize, col: usize) -> (r: Matrix3<T>)
        requires
            self.wf(),
            row < 4,
            col < 4,
        ensures
            r.wf(),
            forall|i: int, j: int|
                0 <= i < 3 && 0 <= j < 3 ==> r.spec_index(i, j) == self.spec_index(
                    spec_skip(i, row as int),
                    spec_skip(j, col as int),
                ),
    {
        let mut result = Matrix3::new(self.get(0, 0));
        let mut i: usize = 0;
        while i < 3
            invariant
                0 <= i <= 3,
                self.wf(),
                row < 4,
                col < 4,
                result.wf(),
                forall|a: int, b: int|
                    0 <= a < i && 0 <= b < 3 ==> result.spec_index(a, b) == self.spec_index(
                        spec_skip(a, row as int),
                        spec_skip(b, col as int),
                    ),
            decreases 3 - i,
        {
            let src_i = if i >= row {
                i + 1
            } else {
                i
            };
            let mut j: usize = 0;
            while j < 3
                invariant
                    0 <= j <= 3,
                    i < 3,
                    src_i == spec_skip(i as int, row as int),
                    src_i < 4,
                    self.wf(),
                    row < 4,
                    col < 4,
                    result.wf(),
                    forall|a: int, b: int|
                        0 <= a < i && 0 <= b < 3 ==> result.spec_index(a, b) == self.spec_index(
                            spec_skip(a, row as int),
                            spec_skip(b, col as int),
                        ),
                    forall|b: int|
                        0 <= b < j ==> result.spec_index(i as int, b) == self.spec_index(
                            spec_skip(i as int, row as int),
                            spec_skip(b, col as int),
                        ),
                decreases 3 - j,
            {
                let src_j = if j >= col {
                    j + 1
                } else {
                    j
                };
                let v = self.get(src_i, src_j);
                result.set(i, j, v);
                j += 1;
            }
            i += 1;
        }
        result
    }
}

impl<T: Copy> Matrix3<T> {
    /// The entries, row-major.
    pub closed spec fn view(&self) -> Seq<T> {
        self.grid@
    }

    /// The entry in row `row`, column `col`.
    pub open spec fn spec_index(&self, row: int, col: int) -> T {
        self@[row * 3 + col]
    }

    pub open spec fn wf(&self) -> bool {
        self@.len() == 9
    }

    /// A matrix with every entry set to `fill`.
    pub fn new(fill: T) -> (r: Matrix3<T>)
        ensures
            r.wf(),
            forall|i: int, j: int| 0 <= i < 3 && 0 <= j < 3 ==> r.spec_index(i, j) == fill,
    {
        let mut grid: Vec<T> = Vec::new();
        let mut k: usize = 0;
        while k < 9
            invariant
                0 <= k <= 9,
                grid@.len() == k,
                forall|m: int| 0 <= m < k ==> #[trigger] grid@[m] == fill,
            decreases 9 - k,
        {
            grid.push(fill);
            k += 1;
        }
        let r = Matrix3 { grid };
        proof {
            assert forall|i: int, j: int| 0 <= i < 3 && 0 <= j < 3 implies r.spec_index(i, j)
                == fill by {
                assert(0 <= i * 3 + j < 9) by (nonlinear_arith)
                    requires
                        0 <= i < 3,
                        0 <= j < 3,
                ;
            }
        }
        r
    }

    pub fn get(&self, row: usize, col: usize) -> (r: T)
        requires
            self.wf(),
            row < 3,
            col < 3,
        ensures
            r == self.spec_index(row as int, col as int),
    {
        self.grid[row * 3 + col]
    }

    pub fn set(&mut self, row: usize, col: usize, value: T)
        requires
            old(self).wf(),
            row < 3,
            col < 3,
        ensures
            final(self).wf(),
            final(self)@ == old(self)@.update(row * 3 + col, value),
            final(self).spec_index(row as int, col as int) == value,
            forall|i: int, j: int|
                0 <= i < 3 && 0 <= j < 3 && (i != row || j != col) ==> final(self).spec_index(i, j)
                    == old(self).spec_index(i, j),
    {
        let k = row * 3 + col;
        self.grid[k] = value;
        proof {
            assert forall|i: int, j: int|
                0 <= i < 3 && 0 <= j < 3 && (i != row || j != col) implies self.spec_index(i, j)
                == old(self).spec_index(i, j) by {
                assert(i * 3 + j != row * 3 + col && 0 <= i * 3 + j < 9) by (nonlinear_arith)
                    requires
                        0 <= i < 3,
                        0 <= j < 3,
                        row < 3,
                        col < 3,
                        (i != row || j != col),
                ;
            }
        }
    }

    /// The 2-by-2 matrix left after striking row `row` and column `col`.
    pub fn submatrix(&self, row: usize, col: usize) -> (r: Matrix2<T>)
        requires
            self.wf(),
            row < 3,
            col < 3,
        ensures
            r.wf(),
            forall|i: int, j: int|
                0 <= i < 2 && 0 <= j < 2 ==> r.spec_index(i, j) == self.spec_index(
                    spec_skip(i, row as int),
                    spec_skip(j, col as int),
                ),
    {
        let mut result = Matrix2::new(self.get(0, 0));
        let mut i: usize = 0;
        while i < 2
            invariant
                0 <= i <= 2,
                self.wf(),
                row < 3,
                col < 3,
                result.wf(),
                forall|a: int, b: int|
                    0 <= a < i && 0 <= b < 2 ==> result.spec_index(a, b) == self.spec_index(
                        spec_skip(a, row as int),
                        spec_skip(b, col as int),
                    ),
            decreases 2 - i,
        {
            let src_i = if i >= row {
                i + 1
            } else {
                i
            };
            let mut j: usize = 0;
            while j < 2
                invariant
                    0 <= j <= 2,
                    i < 2,
                    src_i == spec_skip(i as int, row as int),
                    src_i < 3,
                    self.wf(),
                    row < 3,
                    col < 3,
                    result.wf(),
                    forall|a: int, b: int|
                        0 <= a < i && 0 <= b < 2 ==> result.spec_index(a, b) == self.spec_index(
                            spec_skip(a, row as int),
                            spec_skip(b, col as int),
                        ),
                    forall|b: int|
                        0 <= b < j ==> result.spec_index(i as int, b) == self.spec_index(
                            spec_skip(i as int, row as int),
                            spec_skip(b, col as int),
                        ),
                decreases 2 - j,
            {
                let src_j = if j >= col {
                    j + 1
                } else {
                    j
                };
                let v = self.get(src_i, src_j);
                result.set(i, j, v);
                j += 1;
            }
            i += 1;
        }
        result
    }
}

impl<T: Copy> Matrix2<T> {
    /// The entries, row-major.
    pub closed spec fn view(&self) -> Seq<T> {
        self.grid@
    }

    /// The entry in row `row`, column `col`.
    pub open spec fn spec_index(&self, row: int, col: int) -> T {
        self@[row * 2 + col]
    }

    pub open spec fn wf(&self) -> bool {
        self@.len() == 4
    }

    /// A matrix with every entry set to `fill`.
    pub fn new(fill: T) -> (r: Matrix2<T>)
        ensures
            r.wf(),
            forall|i: int, j: int| 0 <= i < 2 && 0 <= j < 2 ==> r.spec_index(i, j) == fill,
    {
        let mut grid: Vec<T> = Vec::new();
        grid.push(fill);
        grid.push(fill);
        grid.push(fill);
        grid.push(fill);
        Matrix2 { grid }
    }

    pub fn get(&self, row: usize, col: usize) -> (r: T)
        requires
            self.wf(),
            row < 2,
            col < 2,
        ensures
            r == self.spec_index(row as int, col as int),
    {
        self.grid[row * 2 + col]
    }

    pub fn set(&mut self, row: usize, col: usize, value: T)
        requires
            old(self).wf(),
            row < 2,
            col < 2,
        ensures
            final(self).wf(),
            final(self)@ == old(self)@.update(row * 2 + col, value),
            final(self).spec_index(row as int, col as int) == value,
            forall|i: int, j: int|
                0 <= i < 2 && 0 <= j < 2 && (i != row || j != col) ==> final(self).spec_index(i, j)
                    == old(self).spec_index(i, j),
    {
        let k = row * 2 + col;
        self.grid[k] = value;
    }
}

} // verus!
