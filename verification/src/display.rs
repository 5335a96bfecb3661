//! Text for vectors, matrices and errors.
//!
//! A vector is written as its components between square brackets, separated
//! by a comma and a space. A matrix is written row by row, one line each,
//! with every entry padded on the left to the width of its column. How a
//! single scalar is written is for its own `Display` to say; the functions
//! here lay out what it wrote.
use crate::errors::{LinearCombinationError, MatrixInverseError, MatrixShapeError};
use crate::matrix::{is_store, rows_of, Matrix};
use crate::vector::Vector;
use std::fmt::Display;
use vstd::prelude::*;
use vstd::string::*;

verus! {

/// The texts of `cells`, each as the sequence of its characters.
pub open spec fn texts(cells: Seq<String>) -> Seq<Seq<char>> {
    Seq::new(cells.len(), |i: int| cells[i]@)
}

/// The texts of a grid of cells, row by row.
pub open spec fn text_rows(cells: Seq<Vec<String>>) -> Seq<Seq<Seq<char>>> {
    Seq::new(cells.len(), |i: int| texts(cells[i]@))
}

/// The first `n` of `items`, each after the first one preceded by `", "`.
pub open spec fn joined(items: Seq<Seq<char>>, n: int) -> Seq<char>
    decreases n,
{
    if n <= 0 {
        Seq::empty()
    } else if n == 1 {
        items[0]
    } else {
        joined(items, n - 1) + ", "@ + items[n - 1]
    }
}

/// `items`, separated by `", "`, between square brackets.
pub open spec fn bracketed(items: Seq<Seq<char>>) -> Seq<char> {
    "["@ + joined(items, items.len() as int) + "]"@
}

/// The length of a text in bytes of UTF-8, as `str::len` gives it.
pub open spec fn byte_len(text: Seq<char>) -> usize {
    vstd::utf8::encode_utf8(text).len() as usize
}

/// The width of column `j` over the first `n` rows of `cells`: the greatest
/// length in bytes of a cell of that column, and zero where there is none.
pub open spec fn column_width(cells: Seq<Seq<Seq<char>>>, j: int, n: int) -> usize
    decreases n,
{
    if n <= 0 {
        0
    } else if byte_len(cells[n - 1][j]) > column_width(cells, j, n - 1) {
        byte_len(cells[n - 1][j])
    } else {
        column_width(cells, j, n - 1)
    }
}

/// `n` spaces.
pub open spec fn spaces(n: int) -> Seq<char>
    decreases n,
{
    if n <= 0 {
        Seq::empty()
    } else {
        spaces(n - 1) + " "@
    }
}

/// `text` with spaces before it that bring it to `width` characters; a text
/// that is as long or longer is left as it is.
pub open spec fn padded(text: Seq<char>, width: nat) -> Seq<char> {
    spaces(width - text.len()) + text
}

/// Row `i` of `cells` with every cell padded to the width of its column.
pub open spec fn aligned_row(cells: Seq<Seq<Seq<char>>>, i: int) -> Seq<Seq<char>> {
    Seq::new(
        cells[i].len(),
        |j: int| padded(cells[i][j], column_width(cells, j, cells.len() as int) as nat),
    )
}

/// The first `n` rows of `cells`, each aligned and between square brackets,
/// each after the first one on a new line.
pub open spec fn grid_text(cells: Seq<Seq<Seq<char>>>, n: int) -> Seq<char>
    decreases n,
{
    if n <= 0 {
        Seq::empty()
    } else if n == 1 {
        bracketed(aligned_row(cells, 0))
    } else {
        grid_text(cells, n - 1) + "\n"@ + bracketed(aligned_row(cells, n - 1))
    }
}

/// Whether `cells` holds, item by item, what `Display` wrote for `items`.
pub open spec fn shown<K: Display>(items: Seq<K>, cells: Seq<String>) -> bool {
    &&& cells.len() == items.len()
    &&& forall|i: int|
        0 <= i < items.len() ==> to_string_from_display_ensures::<K>(&items[i], #[trigger] cells[i])
}

/// Whether `cells` holds, entry by entry, what `Display` wrote for the grid
/// `m`.
pub open spec fn shown_rows<K: Display>(m: Seq<Seq<K>>, cells: Seq<Vec<String>>) -> bool {
    &&& cells.len() == m.len()
    &&& forall|i: int| 0 <= i < m.len() ==> shown(m[i], (#[trigger] cells[i])@)
}

/// The cells between square brackets, separated by a comma and a space.
pub fn format_row(cells: &Vec<String>) -> (r: String)
    ensures
        r@ == bracketed(texts(cells@)),
{
    let ghost items = texts(cells@);
    let n = cells.len();
    let mut out = String::from_str("[");
    let mut i: usize = 0;
    while i < n
        invariant
            i <= n,
            n == cells@.len(),
            items == texts(cells@),
            out@ == "["@ + joined(items, i as int),
        decreases n - i,
    {
        if i > 0 {
            out.append(", ");
        }
        out.append(cells[i].as_str());
        i += 1;
    }
    out.append("]");
    out
}

/// The cell with spaces before it that bring it to `width` characters.
fn pad(cell: &String, width: usize) -> (r: String)
    ensures
        r@ == padded(cell@, width as nat),
{
    let chars = cell.as_str().unicode_len();
    let mut out = String::new();
    let mut k: usize = chars;
    while k < width
        invariant
            chars <= k,
            k == chars || k <= width,
            out@ == spaces(k - chars),
        decreases width - k,
    {
        out.append(" ");
        k += 1;
    }
    out.append(cell.as_str());
    out
}

/// The width of column `j` of a grid of cells.
fn width_of(cells: &Vec<Vec<String>>, j: usize) -> (w: usize)
    requires
        forall|i: int| 0 <= i < cells@.len() ==> j < (#[trigger] cells@[i])@.len(),
    ensures
        w == column_width(text_rows(cells@), j as int, cells@.len() as int),
{
    let n = cells.len();
    let mut w: usize = 0;
    let mut i: usize = 0;
    while i < n
        invariant
            i <= n,
            n == cells@.len(),
            forall|t: int| 0 <= t < cells@.len() ==> j < (#[trigger] cells@[t])@.len(),
            w == column_width(text_rows(cells@), j as int, i as int),
        decreases n - i,
    {
        let len = cells[i][j].as_str().len();
        if len > w {
            w = len;
        }
        i += 1;
    }
    w
}

/// The rows of cells, one line each, every cell padded on the left to the
/// width of its column.
pub fn format_grid(cells: &Vec<Vec<String>>, columns: usize) -> (r: String)
    requires
        is_store(cells@, cells@.len(), columns as nat),
    ensures
        r@ == grid_text(text_rows(cells@), cells@.len() as int),
{
    let ghost grid = text_rows(cells@);
    let n = cells.len();
    let mut widths: Vec<usize> = Vec::with_capacity(columns);
    let mut j: usize = 0;
    while j < columns
        invariant
            j <= columns,
            is_store(cells@, cells@.len(), columns as nat),
            grid == text_rows(cells@),
            widths@.len() == j,
            forall|t: int|
                0 <= t < j ==> #[trigger] widths@[t] == column_width(grid, t, cells@.len() as int),
        decreases columns - j,
    {
        widths.push(width_of(cells, j));
        j += 1;
    }
    let mut out = String::new();
    let mut i: usize = 0;
    while i < n
        invariant
            i <= n,
            n == cells@.len(),
            is_store(cells@, cells@.len(), columns as nat),
            grid == text_rows(cells@),
            widths@.len() == columns,
            forall|t: int|
                0 <= t < columns ==> #[trigger] widths@[t] == column_width(
                    grid,
                    t,
                    cells@.len() as int,
                ),
            out@ == grid_text(grid, i as int),
        decreases n - i,
    {
        let mut row: Vec<String> = Vec::with_capacity(columns);
        let mut j: usize = 0;
        while j < columns
            invariant
                j <= columns,
                i < n,
                n == cells@.len(),
                is_store(cells@, cells@.len(), columns as nat),
                grid == text_rows(cells@),
                widths@.len() == columns,
                forall|t: int|
                    0 <= t < columns ==> #[trigger] widths@[t] == column_width(
                        grid,
                        t,
                        cells@.len() as int,
                    ),
                row@.len() == j,
                forall|t: int|
                    0 <= t < j ==> (#[trigger] row@[t])@ == aligned_row(grid, i as int)[t],
            decreases columns - j,
        {
            row.push(pad(&cells[i][j], widths[j]));
            j += 1;
        }
        assert(texts(row@) =~= aligned_row(grid, i as int));
        let line = format_row(&row);
        if i > 0 {
            out.append("\n");
        }
        out.append(line.as_str());
        i += 1;
    }
    out
}

/// What `Display` writes for each item of a row.
fn show_row<K: Display>(items: &[K]) -> (cells: Vec<String>)
    ensures
        shown(items@, cells@),
{
    let n = items.len();
    let mut cells: Vec<String> = Vec::with_capacity(n);
    let mut i: usize = 0;
    while i < n
        invariant
            i <= n,
            n == items@.len(),
            cells@.len() == i,
            forall|t: int|
                0 <= t < i ==> to_string_from_display_ensures::<K>(
                    &items@[t],
                    #[trigger] cells@[t],
                ),
        decreases n - i,
    {
        cells.push(items[i].to_string());
        i += 1;
    }
    cells
}

impl<K: Display> Vector<K> {
    /// The vector as text: what `Display` writes for each component, between
    /// square brackets and separated by a comma and a space.
    pub fn to_string(&self) -> (r: String)
        ensures
            exists|cells: Seq<String>| shown(self@, cells) && r@ == bracketed(texts(cells)),
    {
        let cells = show_row(self.as_slice());
        format_row(&cells)
    }
}

impl<K: Display> Matrix<K> {
    /// The matrix as text: one line for each row, the entries of a row
    /// between square brackets and separated by a comma and a space, each
    /// padded on the left to the width of its column.
    pub fn to_string(&self) -> (r: String)
        requires
            self.wf(),
        ensures
            exists|cells: Seq<Vec<String>>|
                shown_rows(self@, cells) && r@ == grid_text(text_rows(cells), cells.len() as int),
    {
        let rows = self.as_slice();
        let n = rows.len();
        proof {
            crate::matrix::lemma_store_is_grid(rows@, self.rows() as nat, self.columns() as nat);
        }
        let mut cells: Vec<Vec<String>> = Vec::with_capacity(n);
        let mut i: usize = 0;
        while i < n
            invariant
                i <= n,
                n == rows@.len(),
                rows_of(rows@) == self@,
                is_store(rows@, self.rows() as nat, self.columns() as nat),
                cells@.len() == i,
                forall|t: int|
                    0 <= t < i ==> (#[trigger] cells@[t])@.len() == self.columns() && shown(
                        self@[t],
                        cells@[t]@,
                    ),
            decreases n - i,
        {
            cells.push(show_row(rows[i].as_slice()));
            i += 1;
        }
        assert(shown_rows(self@, cells@));
        format_grid(&cells, self.columns())
    }
}

impl LinearCombinationError {
    /// The error as a sentence that names both lengths in decimal.
    pub fn to_string(&self) -> (r: String)
        ensures
            match *self {
                LinearCombinationError::VectorsDimensionMismatch { expected_len, founded_len } => {
                    exists|expected: String, found: String|
                        {
                            &&& to_string_from_display_ensures::<usize>(&expected_len, expected)
                            &&& to_string_from_display_ensures::<usize>(&founded_len, found)
                            &&& r@ == "Os vetores possuem tamanhos diferentes: esperado "@
                                + expected@ + ", encontrado "@ + found@
                        }
                },
            },
    {
        match self {
            LinearCombinationError::VectorsDimensionMismatch { expected_len, founded_len } => {
                let expected = expected_len.to_string();
                let found = founded_len.to_string();
                let mut out = String::from_str("Os vetores possuem tamanhos diferentes: esperado ");
                out.append(expected.as_str());
                out.append(", encontrado ");
                out.append(found.as_str());
                out
            },
        }
    }
}

impl MatrixShapeError {
    /// The error as a sentence that names the row and both lengths in
    /// decimal.
    pub fn to_string(&self) -> (r: String)
        ensures
            match *self {
                MatrixShapeError::RaggedRows { row, expected_len, found_len } => {
                    exists|at: String, expected: String, found: String|
                        {
                            &&& to_string_from_display_ensures::<usize>(&row, at)
                            &&& to_string_from_display_ensures::<usize>(&expected_len, expected)
                            &&& to_string_from_display_ensures::<usize>(&found_len, found)
                            &&& r@ == "As linhas possuem tamanhos diferentes: linha "@ + at@
                                + ", esperado "@ + expected@ + ", encontrado "@ + found@
                        }
                },
            },
    {
        match self {
            MatrixShapeError::RaggedRows { row, expected_len, found_len } => {
                let at = row.to_string();
                let expected = expected_len.to_string();
                let found = found_len.to_string();
                let mut out = String::from_str("As linhas possuem tamanhos diferentes: linha ");
                out.append(at.as_str());
                out.append(", esperado ");
                out.append(expected.as_str());
                out.append(", encontrado ");
                out.append(found.as_str());
                out
            },
        }
    }
}

impl MatrixInverseError {
    /// The error as a sentence; for a matrix that is not square it names the
    /// dimensions in decimal.
    pub fn to_string(&self) -> (r: String)
        ensures
            match *self {
                MatrixInverseError::NotSquare { rows, columns } => {
                    exists|r_text: String, c_text: String|
                        {
                            &&& to_string_from_display_ensures::<usize>(&rows, r_text)
                            &&& to_string_from_display_ensures::<usize>(&columns, c_text)
                            &&& r@
                                == "Matriz deve ser quadrada para calcular a inversa: encontrada "@
                                + r_text@ + "x"@ + c_text@
                        }
                },
                MatrixInverseError::Singular => r@
                    == "Matriz é singular (determinante zero) e não possui inversa"@,
            },
    {
        match self {
            MatrixInverseError::NotSquare { rows, columns } => {
                let r_text = rows.to_string();
                let c_text = columns.to_string();
                let mut out = String::from_str(
                    "Matriz deve ser quadrada para calcular a inversa: encontrada ",
                );
                out.append(r_text.as_str());
                out.append("x");
                out.append(c_text.as_str());
                out
            },
            MatrixInverseError::Singular => String::from_str(
                "Matriz é singular (determinante zero) e não possui inversa",
            ),
        }
    }
}

} // verus!
