use vstd::prelude::*;

verus! {

/// Fixed size two dimensional array, stored row by row.
pub struct Array2D<T> {
    pub rows: usize,
    pub columns: usize,
    data: Vec<T>,
}

/// Mathematical model of an `Array2D`: its dimensions and its cells in
/// row-major order.
pub struct GridView<T> {
    pub rows: nat,
    pub columns: nat,
    pub cells: Seq<T>,
}

impl<T> GridView<T> {
    /// The cell store holds exactly one element per cell.
    pub open spec fn wf(&self) -> bool {
        &&& self.cells.len() == self.rows * self.columns
        &&& self.rows * self.columns <= usize::MAX
    }

    /// Position in the row-major store of the cell at `row`, `column`.
    pub open spec fn offset(&self, row: int, column: int) -> int {
        row * self.columns + column
    }

    /// The element at `row`, `column`.
    pub open spec fn cell(&self, row: int, column: int) -> T {
        self.cells[self.offset(row, column)]
    }

    /// The elements of row `row`, left to right.
    pub open spec fn row(&self, row: int) -> Seq<T> {
        self.cells.subrange(self.offset(row, 0), self.offset(row + 1, 0))
    }
}

impl<T> View for Array2D<T> {
    type V = GridView<T>;

    closed spec fn view(&self) -> GridView<T> {
        GridView { rows: self.rows as nat, columns: self.columns as nat, cells: self.data@ }
    }
}

impl<T> Array2D<T> {
    /// The element store holds exactly one element per cell.
    pub open spec fn wf(&self) -> bool {
        self@.wf()
    }
}

/// Splits `s` into `n` consecutive slices of `len` elements each; the
/// elements written through the pieces are the elements of `s` afterwards.
fn split_rows_mut<T>(s: &mut [T], n: usize, len: usize) -> (r: Vec<&mut [T]>)
    requires
        old(s)@.len() == n * len,
    ensures
        r@.len() == n,
        forall|k: int| 0 <= k < n ==> #[trigger] r@[k]@ == old(s)@.subrange(k * len, (k + 1) * len),
        final(s)@ == Seq::new(n as nat, |k: int| final(r@[k])@).flatten(),
    decreases n,
{
    if n == 0 {
        Vec::new()
    } else {
        assert((n - 1) * len + len == n * len) by (nonlinear_arith);
        let (head, tail) = s.split_at_mut(len);
        let mut r = split_rows_mut(tail, n - 1, len);
        let ghost below = r@;
        let ghost h = head;
        r.insert(0, head);
        assert(final(r@[0])@ == final(h)@);
        proof {
            assert forall|k: int| 0 < k < n implies #[trigger] r@[k]@ == old(s)@.subrange(
                k * len,
                (k + 1) * len,
            ) by {
                assert(r@[k] == below[k - 1]);
                assert(k * len == (k - 1) * len + len && (k + 1) * len == k * len + len)
                    by (nonlinear_arith);
                assert(0 <= (k - 1) * len && k * len <= (n - 1) * len) by (nonlinear_arith)
                    requires 0 < k < n, 0 <= len;
                assert(below[k - 1]@ =~= old(s)@.subrange(k * len, (k + 1) * len));
            }
            assert(r@[0]@ =~= old(s)@.subrange(0 * len, (0 + 1) * len));
            let pieces = Seq::new(n as nat, |k: int| final(r@[k])@);
            assert(pieces.drop_first() =~= Seq::new((n - 1) as nat, |k: int| final(below[k])@));
        }
        r
    }
}

impl<T> Array2D<T> {
    /// All cells in row-major order.
    pub fn as_slice(&self) -> (r: &[T])
        ensures
            r@ == self@.cells,
    {
        self.data.as_slice()
    }

    /// All cells in row-major order, writable; what is written through the
    /// slice is the content of the array afterwards.
    pub fn as_mut_slice(&mut self) -> (r: &mut [T])
        ensures
            r@ == old(self)@.cells,
            final(self)@.rows == old(self)@.rows,
            final(self)@.columns == old(self)@.columns,
            final(self)@.cells == final(r)@,
    {
        self.data.as_mut_slice()
    }
}

impl<T: Clone> Array2D<T> {
    /// Construct a `rows` by `columns` array, each cell a clone of `fill_element`.
    pub fn new(rows: usize, columns: usize, fill_element: &T) -> (r: Array2D<T>)
        requires
            rows * columns <= usize::MAX,
        ensures
            r.wf(),
            r@.rows == rows,
            r@.columns == columns,
            forall|i: int| 0 <= i < r@.cells.len() ==> cloned(*fill_element, #[trigger] r@.cells[i]),
    {
        let n: usize = rows * columns;
        let mut data: Vec<T> = Vec::with_capacity(n);
        let mut i: usize = 0;
        while i < n
            invariant
                i <= n,
                data@.len() == i,
                forall|j: int| 0 <= j < i ==> cloned(*fill_element, #[trigger] data@[j]),
            decreases n - i,
        {
            data.push(fill_element.clone());
            i += 1;
        }
        Array2D { rows, columns, data }
    }

    /// The element at the given (zero-indexed) row and column.
    pub fn get(&self, row: usize, column: usize) -> (r: &T)
        requires
            self.wf(),
            row < self@.rows,
            column < self@.columns,
        ensures
            *r == self@.cell(row as int, column as int),
    {
        proof { self.lemma_cell_in_bounds(row as int, column as int); }
        &self.data[row * self.columns + column]
    }

    /// Set the element at the given (zero-indexed) row and column to a clone of `val`.
    pub fn set(&mut self, row: usize, column: usize, val: &T)
        requires
            old(self).wf(),
            row < old(self)@.rows,
            column < old(self)@.columns,
        ensures
            final(self).wf(),
            final(self)@.rows == old(self)@.rows,
            final(self)@.columns == old(self)@.columns,
            final(self)@.cells == old(self)@.cells.update(
                old(self)@.offset(row as int, column as int),
                final(self)@.cell(row as int, column as int),
            ),
            cloned(*val, final(self)@.cell(row as int, column as int)),
    {
        proof { self.lemma_cell_in_bounds(row as int, column as int); }
        let index = row * self.columns + column;
        self.data.set(index, val.clone());
    }

    /// The rows of the array, each a slice of `columns` elements, top to bottom.
    pub fn iter_rows(&self) -> (r: Vec<&[T]>)
        requires
            self.wf(),
            self@.columns > 0,
        ensures
            r@.len() == self@.rows,
            forall|k: int| 0 <= k < self@.rows ==> #[trigger] r@[k]@ == self@.row(k),
    {
        let mut r: Vec<&[T]> = Vec::with_capacity(self.rows);
        let mut rest: &[T] = self.data.as_slice();
        let mut k: usize = 0;
        while k < self.rows
            invariant
                self.wf(),
                k <= self@.rows,
                r@.len() == k,
                rest@ == self@.cells.subrange(k * self@.columns, self@.cells.len() as int),
                forall|j: int| 0 <= j < k ==> #[trigger] r@[j]@ == self@.row(j),
            decreases self.rows - k,
        {
            proof {
                assert(self@.columns == self.columns && self@.rows == self.rows);
                lemma_row_in_bounds(self@.rows, self@.columns, k as int);
            }
            let (head, tail) = rest.split_at(self.columns);
            r.push(head);
            rest = tail;
            proof {
                assert(head@ =~= self@.row(k as int));
                assert(rest@ =~= self@.cells.subrange((k + 1) * self@.columns, self@.cells.len() as int));
            }
            k += 1;
        }
        r
    }

    /// The rows of the array as disjoint mutable slices, top to bottom; what
    /// is written through them is the content of the array afterwards.
    pub fn iter_rows_mut(&mut self) -> (r: Vec<&mut [T]>)
        requires
            old(self).wf(),
            old(self)@.columns > 0,
        ensures
            r@.len() == old(self)@.rows,
            forall|k: int| 0 <= k < old(self)@.rows ==> #[trigger] r@[k]@ == old(self)@.row(k),
            final(self)@.rows == old(self)@.rows,
            final(self)@.columns == old(self)@.columns,
            final(self)@.cells == Seq::new(r@.len(), |k: int| final(r@[k])@).flatten(),
    {
        let rows = self.rows;
        let columns = self.columns;
        split_rows_mut(self.data.as_mut_slice(), rows, columns)
    }
}

impl<T> Array2D<T> {
    proof fn lemma_cell_in_bounds(&self, row: int, column: int)
        requires
            self.wf(),
            0 <= row < self.rows,
            0 <= column < self.columns,
        ensures
            0 <= row * self.columns + column < self.data@.len() <= usize::MAX,
    {
        let (rows, columns) = (self.rows as int, self.columns as int);
        assert(row * columns + column < rows * columns) by (nonlinear_arith)
            requires 0 <= row < rows, 0 <= column < columns;
        assert(0 <= row * columns) by (nonlinear_arith)
            requires 0 <= row, 0 <= columns;
    }
}

proof fn lemma_row_in_bounds(rows: nat, columns: nat, row: int)
    requires
        0 <= row < rows,
    ensures
        0 <= row * columns,
        (row + 1) * columns <= rows * columns,
        (row + 1) * columns == row * columns + columns,
{
    assert((row + 1) * columns <= rows * columns) by (nonlinear_arith)
        requires 0 <= row < rows;
    assert((row + 1) * columns == row * columns + columns) by (nonlinear_arith);
    assert(0 <= row * columns) by (nonlinear_arith)
        requires 0 <= row;
}

} // verus!
