//! Fixed-width tables of the inspection commands: cells padded to their
//! column's width, two spaces between columns, trailing blanks trimmed.

use vstd::prelude::*;
use crate::text::{push_char, trim_end, trim_end_by, TrimClass};

verus! {

/// `n` spaces.
pub open spec fn spaces(n: nat) -> Seq<char> {
    Seq::new(n, |i: int| ' ')
}

/// `format!("{cell:width$}")`: the cell, padded with spaces on the right to
/// `width` characters.
pub open spec fn padded(cell: Seq<char>, width: nat) -> Seq<char> {
    if cell.len() >= width { cell } else { cell + spaces((width - cell.len()) as nat) }
}

/// The texts of a row of cells.
pub open spec fn views(v: Seq<String>) -> Seq<Seq<char>> {
    v.map_values(|s: String| s@)
}

/// The texts of every row's cells.
pub open spec fn row_views(rows: Seq<Vec<String>>) -> Seq<Seq<Seq<char>>> {
    rows.map_values(|r: Vec<String>| views(r@))
}

/// The padded cells joined by two spaces.
pub open spec fn joined_cells(cells: Seq<Seq<char>>, widths: Seq<usize>) -> Seq<char>
    decreases cells.len(),
{
    if cells.len() == 0 {
        Seq::empty()
    } else if cells.len() == 1 {
        padded(cells[0], widths[0] as nat)
    } else {
        joined_cells(cells.drop_last(), widths) + "  "@ + padded(cells.last(), widths[cells.len() - 1] as nat)
    }
}

/// One table row.
pub open spec fn table_row(cells: Seq<Seq<char>>, widths: Seq<usize>) -> Seq<char> {
    trim_end_by(joined_cells(cells, widths), TrimClass::Whitespace)
}

fn append_padded(out: &mut String, cell: &str, width: usize)
    ensures
        final(out)@ == old(out)@ + padded(cell@, width as nat),
{
    let n = crate::text::chars_of(cell).len();
    out.append(cell);
    if n < width {
        let mut k: usize = n;
        let ghost base = out@;
        while k < width
            invariant
                n <= k <= width,
                out@ == base + spaces((k - n) as nat),
            decreases width - k,
        {
            push_char(out, ' ');
            proof {
                assert(base + spaces((k + 1 - n) as nat) =~= (base + spaces((k - n) as nat)).push(' '));
            }
            k += 1;
        }
        proof {
            assert(old(out)@ + padded(cell@, width as nat) =~= base + spaces((width - n) as nat));
        }
    } else {
        proof {
            assert(padded(cell@, width as nat) == cell@);
        }
    }
}

/// Formats one row: each cell padded to its column's width, columns two
/// spaces apart, trailing whitespace trimmed.
pub fn format_row(cells: &[String], widths: &[usize]) -> (r: String)
    requires
        cells@.len() == widths@.len(),
    ensures
        r@ == table_row(views(cells@), widths@),
{
    let ghost cv = views(cells@);
    let mut out = String::new();
    let mut i: usize = 0;
    while i < cells.len()
        invariant
            i <= cells@.len() == widths@.len(),
            cv == views(cells@),
            out@ == joined_cells(cv.take(i as int), widths@),
        decreases cells@.len() - i,
    {
        proof {
            assert(cv.take(i as int + 1).drop_last() =~= cv.take(i as int));
            assert(cv.take(i as int + 1).last() == cells@[i as int]@);
        }
        if i > 0 {
            out.append("  ");
        }
        append_padded(&mut out, cells[i].as_str(), widths[i]);
        proof {
            if i == 0 {
                assert(Seq::<char>::empty() + padded(cells@[0]@, widths@[0] as nat) =~= padded(cells@[0]@, widths@[0] as nat));
            }
        }
        i += 1;
    }
    proof {
        assert(cv.take(cv.len() as int) =~= cv);
    }
    trim_end(out.as_str())
}

/// The byte length of `s` in UTF-8, as `str::len` counts it.
pub open spec fn byte_len(s: Seq<char>) -> usize {
    vstd::utf8::encode_utf8(s).len() as usize
}

/// The widest entry of column `i`: the header's and every cell's byte
/// length, whichever is greatest.
pub open spec fn column_width(headers: Seq<Seq<char>>, rows: Seq<Seq<Seq<char>>>, i: int) -> usize
    decreases rows.len(),
{
    if rows.len() == 0 {
        byte_len(headers[i])
    } else {
        let w = column_width(headers, rows.drop_last(), i);
        let c = byte_len(rows.last()[i]);
        if c > w { c } else { w }
    }
}

/// The column widths of a table: for each column, the greatest byte
/// length among its header and its cells.
pub fn column_widths(headers: &[String], rows: &Vec<Vec<String>>) -> (r: Vec<usize>)
    requires
        forall|k: int| 0 <= k < rows@.len() ==> #[trigger] rows@[k]@.len() == headers@.len(),
    ensures
        r@.len() == headers@.len(),
        forall|i: int| 0 <= i < headers@.len() ==> #[trigger] r@[i] == column_width(views(headers@), row_views(rows@), i),
{
    let ghost hv = views(headers@);
    let ghost rv = row_views(rows@);
    let mut widths: Vec<usize> = Vec::new();
    let mut i: usize = 0;
    while i < headers.len()
        invariant
            i <= headers@.len(),
            widths@.len() == i,
            forall|k: int| 0 <= k < rows@.len() ==> #[trigger] rows@[k]@.len() == headers@.len(),
            hv == views(headers@),
            rv == row_views(rows@),
            forall|c: int| 0 <= c < i ==> #[trigger] widths@[c] == column_width(hv, rv, c),
        decreases headers@.len() - i,
    {
        let mut w: usize = headers[i].as_str().len();
        let mut j: usize = 0;
        while j < rows.len()
            invariant
                j <= rows@.len(),
                i < headers@.len(),
                forall|k: int| 0 <= k < rows@.len() ==> #[trigger] rows@[k]@.len() == headers@.len(),
                hv == views(headers@),
                rv == row_views(rows@),
                w == column_width(hv, rv.take(j as int), i as int),
            decreases rows@.len() - j,
        {
            proof {
                assert(rv.take(j as int + 1).drop_last() =~= rv.take(j as int));
                assert(rv.take(j as int + 1).last() == views(rows@[j as int]@));
                assert(views(rows@[j as int]@)[i as int] == rows@[j as int]@[i as int]@);
            }
            let c = rows[j][i].as_str().len();
            if c > w {
                w = c;
            }
            j += 1;
        }
        proof {
            assert(rv.take(rv.len() as int) =~= rv);
        }
        widths.push(w);
        i += 1;
    }
    widths
}

} // verus!
