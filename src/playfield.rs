//! The well: a fixed grid of ten columns by eighteen rows held in an nalgebra
//! matrix indexed `(column, row)`, and the rules for clearing full rows.
use nalgebra::SMatrix;
use vstd::prelude::*;

verus! {

#[verifier::external_type_specification]
#[verifier::external_body]
#[verifier::reject_recursive_types(T)]
#[verifier::reject_recursive_types(R)]
#[verifier::reject_recursive_types(C)]
#[verifier::reject_recursive_types(S)]
pub struct ExMatrix<T, R, C, S>(nalgebra::Matrix<T, R, C, S>);

#[verifier::external_type_specification]
#[verifier::external_body]
pub struct ExConst<const R: usize>(nalgebra::Const<R>);

#[verifier::external_type_specification]
#[verifier::external_body]
#[verifier::reject_recursive_types(T)]
pub struct ExArrayStorage<T, const R: usize, const C: usize>(nalgebra::ArrayStorage<T, R, C>);

/// What a well matrix holds: `matrix_cells(m)[y][x]` is the entry at `(x, y)`.
pub uninterp spec fn matrix_cells(m: SMatrix<u8, 10, 18>) -> Seq<Seq<u8>>;

/// The well as eighteen rows of ten cell values, top row first.
pub open spec fn grid_of(m: SMatrix<u8, 10, 18>) -> Seq<Seq<u8>> {
    Seq::new(18, |y: int| Seq::new(10, |x: int| matrix_cells(m)[y][x]))
}

pub open spec fn in_bounds(x: int, y: int) -> bool {
    0 <= x < 10 && 0 <= y < 18
}

/// Reads one entry of the well.
/// Relies on `Index<(usize, usize)>` for `nalgebra::Matrix`: it returns the
/// entry at `(x, y)` and panics unless `x < 10` and `y < 18`.
#[verifier::external_body]
fn cell(m: &SMatrix<u8, 10, 18>, x: usize, y: usize) -> (r: u8)
    requires
        x < 10,
        y < 18,
    ensures
        r == matrix_cells(*m)[y as int][x as int],
{
    m[(x, y)]
}

/// Writes one entry of the well.
/// Relies on `IndexMut<(usize, usize)>` for `nalgebra::Matrix`: it hands out
/// the entry at `(x, y)` alone and panics unless `x < 10` and `y < 18`.
#[verifier::external_body]
fn set_cell(m: &mut SMatrix<u8, 10, 18>, x: usize, y: usize, v: u8)
    requires
        x < 10,
        y < 18,
    ensures
        forall|yy: int, xx: int|
            0 <= yy < 18 && 0 <= xx < 10 ==> #[trigger] matrix_cells(*final(m))[yy][xx] == if yy
                == y && xx == x {
                v
            } else {
                matrix_cells(*old(m))[yy][xx]
            },
{
    m[(x, y)] = v;
}

/// Reads the cell at `(x, y)` of the well.
pub fn cell_at(m: &SMatrix<u8, 10, 18>, x: usize, y: usize) -> (r: u8)
    requires
        x < 10,
        y < 18,
    ensures
        r == grid_of(*m)[y as int][x as int],
{
    cell(m, x, y)
}

/// Writes `v` into the cell at `(x, y)` of the well and leaves every other cell.
pub fn set_cell_at(m: &mut SMatrix<u8, 10, 18>, x: usize, y: usize, v: u8)
    requires
        x < 10,
        y < 18,
    ensures
        grid_of(*final(m)) == grid_of(*old(m)).update(
            y as int,
            grid_of(*old(m))[y as int].update(x as int, v),
        ),
{
    set_cell(m, x, y, v);
    assert(grid_of(*m) =~~= grid_of(*old(m)).update(
        y as int,
        grid_of(*old(m))[y as int].update(x as int, v),
    ));
}

pub open spec fn empty_row() -> Seq<u8> {
    Seq::new(10, |x: int| 0u8)
}

/// A row is full when none of its cells is empty.
pub open spec fn row_full(row: Seq<u8>) -> bool {
    forall|x: int| 0 <= x < row.len() ==> #[trigger] row[x] != 0
}

/// The rows that are not full, in their order.
pub open spec fn kept_rows(rows: Seq<Seq<u8>>) -> Seq<Seq<u8>>
    decreases rows.len(),
{
    if rows.len() == 0 {
        Seq::empty()
    } else {
        let init = kept_rows(rows.drop_last());
        if row_full(rows.last()) {
            init
        } else {
            init.push(rows.last())
        }
    }
}

/// The number of full rows.
pub open spec fn full_rows(rows: Seq<Seq<u8>>) -> nat
    decreases rows.len(),
{
    if rows.len() == 0 {
        0
    } else {
        full_rows(rows.drop_last()) + if row_full(rows.last()) {
            1nat
        } else {
            0nat
        }
    }
}

/// The rows after every full row is taken out and as many empty rows are
/// put on top.
pub open spec fn compacted(rows: Seq<Seq<u8>>) -> Seq<Seq<u8>> {
    Seq::new(full_rows(rows), |i: int| empty_row()) + kept_rows(rows)
}

/// The grid after row `r` is emptied and every row above it moves down one,
/// leaving an empty row at the top.
pub open spec fn row_removed(g: Seq<Seq<u8>>, r: int) -> Seq<Seq<u8>> {
    Seq::new(
        18,
        |y: int|
            if y == 0 {
                empty_row()
            } else if y <= r {
                g[y - 1]
            } else {
                g[y]
            },
    )
}

proof fn lemma_kept_rows(rows: Seq<Seq<u8>>)
    ensures
        kept_rows(rows).len() + full_rows(rows) == rows.len(),
        forall|i: int| 0 <= i < kept_rows(rows).len() ==> !row_full(#[trigger] kept_rows(rows)[i]),
        forall|i: int|
            0 <= i < kept_rows(rows).len() ==> exists|j: int|
                0 <= j < rows.len() && #[trigger] kept_rows(rows)[i] == rows[j],
    decreases rows.len(),
{
    if rows.len() > 0 {
        lemma_kept_rows(rows.drop_last());
        let init = kept_rows(rows.drop_last());
        assert forall|i: int| 0 <= i < kept_rows(rows).len() implies exists|j: int|
            0 <= j < rows.len() && #[trigger] kept_rows(rows)[i] == rows[j] by {
            if i < init.len() {
                let j = choose|j: int|
                    0 <= j < rows.drop_last().len() && init[i] == rows.drop_last()[j];
                assert(rows[j] == rows.drop_last()[j]);
            } else {
                assert(kept_rows(rows)[i] == rows[rows.len() - 1]);
            }
        }
    }
}

/// Every row of a compacted grid has ten cells and none is full.
proof fn lemma_compacted_shape(rows: Seq<Seq<u8>>)
    requires
        forall|y: int| 0 <= y < rows.len() ==> #[trigger] rows[y].len() == 10,
    ensures
        compacted(rows).len() == rows.len(),
        forall|y: int| 0 <= y < rows.len() ==> #[trigger] compacted(rows)[y].len() == 10,
        forall|y: int| 0 <= y < rows.len() ==> !row_full(#[trigger] compacted(rows)[y]),
{
    lemma_kept_rows(rows);
    let c = full_rows(rows);
    let k = kept_rows(rows);
    assert forall|y: int| 0 <= y < rows.len() implies (#[trigger] compacted(rows)[y]).len() == 10
        && !row_full(compacted(rows)[y]) by {
        if y < c {
            assert(compacted(rows)[y] == empty_row());
            assert(compacted(rows)[y][0] == 0);
        } else {
            assert(compacted(rows)[y] == k[y - c]);
            let j = choose|j: int| 0 <= j < rows.len() && k[y - c] == rows[j];
        }
    }
}

/// Clearing the next row of the scan: where `rows` is the part scanned so far
/// and `row` is the next one, the compacted grid grows as the scan moves on.
proof fn lemma_compacted_step(rows: Seq<Seq<u8>>, row: Seq<u8>)
    ensures
        row_full(row) ==> compacted(rows.push(row)) == seq![empty_row()] + compacted(rows),
        !row_full(row) ==> compacted(rows.push(row)) == compacted(rows).push(row),
{
    let s = rows.push(row);
    assert(s.drop_last() =~= rows);
    assert(s.last() == row);
    if row_full(row) {
        assert(compacted(s) =~= seq![empty_row()] + compacted(rows));
    } else {
        assert(compacted(s) =~= compacted(rows).push(row));
    }
}

/// Empties row `row` and moves every row above it down by one, so that the
/// top row ends empty.
pub fn clear_row(m: &mut SMatrix<u8, 10, 18>, row: u8)
    requires
        row < 18,
    ensures
        grid_of(*final(m)) == row_removed(grid_of(*old(m)), row as int),
{
    let ghost g0 = grid_of(*m);
    let mut k: usize = row as usize;
    while k > 0
        invariant
            k <= row < 18,
            g0 == grid_of(*old(m)),
            forall|y: int|
                0 <= y < 18 ==> #[trigger] grid_of(*m)[y] == if k < y <= row {
                    g0[y - 1]
                } else {
                    g0[y]
                },
        decreases k,
    {
        let mut i: usize = 0;
        while i < 10
            invariant
                0 < k <= row < 18,
                g0 == grid_of(*old(m)),
                0 <= i <= 10,
                forall|y: int, x: int|
                    0 <= y < 18 && 0 <= x < 10 ==> #[trigger] grid_of(*m)[y][x] == if (k < y
                        <= row) || (y == k && x < i) {
                        g0[y - 1][x]
                    } else {
                        g0[y][x]
                    },
            decreases 10 - i,
        {
            let v = cell_at(m, i, k - 1);
            set_cell_at(m, i, k, v);
            i = i + 1;
        }
        assert forall|y: int| 0 <= y < 18 implies #[trigger] grid_of(*m)[y] == if k - 1 < y
            <= row {
            g0[y - 1]
        } else {
            g0[y]
        } by {
            if k - 1 < y <= row {
                assert(grid_of(*m)[y] =~= g0[y - 1]);
            } else {
                assert(grid_of(*m)[y] =~= g0[y]);
            }
        }
        k = k - 1;
    }
    let mut i: usize = 0;
    while i < 10
        invariant
            row < 18,
            0 <= i <= 10,
            g0 == grid_of(*old(m)),
            forall|y: int, x: int|
                0 <= y < 18 && 0 <= x < 10 ==> #[trigger] grid_of(*m)[y][x] == if y == 0 {
                    if x < i {
                        0u8
                    } else {
                        g0[0][x]
                    }
                } else if y <= row {
                    g0[y - 1][x]
                } else {
                    g0[y][x]
                },
        decreases 10 - i,
    {
        set_cell_at(m, i, 0, 0);
        i = i + 1;
    }
    assert forall|y: int| 0 <= y < 18 implies #[trigger] grid_of(*m)[y] == row_removed(g0, row as int)[y] by {
        assert(grid_of(*m)[y] =~= row_removed(g0, row as int)[y]);
    }
    assert(grid_of(*m) =~= row_removed(g0, row as int));
}

/// Whether every cell of row `y` is occupied.
fn row_is_full(m: &SMatrix<u8, 10, 18>, y: usize) -> (r: bool)
    requires
        y < 18,
    ensures
        r == row_full(grid_of(*m)[y as int]),
{
    let mut full = true;
    let mut x: usize = 0;
    while x < 10
        invariant
            y < 18,
            0 <= x <= 10,
            full == forall|xx: int| 0 <= xx < x ==> #[trigger] grid_of(*m)[y as int][xx] != 0,
        decreases 10 - x,
    {
        if cell_at(m, x, y) == 0 {
            full = false;
        }
        x = x + 1;
    }
    full
}

/// Scans the rows from the top down and clears each full row as it is met,
/// moving the rows above it down. Returns how many rows were cleared: that is
/// the number of full rows, and the grid ends as the rows that were not full,
/// in their order, under as many empty rows as were cleared. No row is full
/// afterwards.
pub fn clear_full_rows(m: &mut SMatrix<u8, 10, 18>) -> (count: u8)
    ensures
        count == full_rows(grid_of(*old(m))),
        grid_of(*final(m)) == compacted(grid_of(*old(m))),
        forall|y: int| 0 <= y < 18 ==> !row_full(#[trigger] grid_of(*final(m))[y]),
{
    let ghost g0 = grid_of(*m);
    let mut count: u8 = 0;
    let mut i: usize = 0;
    proof {
        assert(g0.subrange(0, 0) =~= Seq::<Seq<u8>>::empty());
        assert(grid_of(*m) =~= compacted(g0.subrange(0, 0)) + g0.subrange(0, 18));
    }
    while i < 18
        invariant
            0 <= i <= 18,
            g0 == grid_of(*old(m)),
            count == full_rows(g0.subrange(0, i as int)),
            count <= i,
            grid_of(*m) == compacted(g0.subrange(0, i as int)) + g0.subrange(i as int, 18),
        decreases 18 - i,
    {
        let ghost before = grid_of(*m);
        let ghost s = g0.subrange(0, i as int);
        proof {
            lemma_kept_rows(s);
            assert(before[i as int] == g0[i as int]);
            assert(g0.subrange(0, i + 1) =~= s.push(g0[i as int]));
            lemma_compacted_step(s, g0[i as int]);
        }
        if row_is_full(m, i) {
            clear_row(m, i as u8);
            count = count + 1;
            proof {
                let s1 = g0.subrange(0, i + 1);
                assert(s1.drop_last() =~= s);
                assert(grid_of(*m) =~= compacted(s1) + g0.subrange(i + 1, 18));
            }
        } else {
            proof {
                let s1 = g0.subrange(0, i + 1);
                assert(s1.drop_last() =~= s);
                assert(grid_of(*m) =~= compacted(s1) + g0.subrange(i + 1, 18));
            }
        }
        i = i + 1;
    }
    proof {
        assert(g0.subrange(0, 18) =~= g0);
        assert(grid_of(*m) =~= compacted(g0));
        lemma_compacted_shape(g0);
    }
    count
}

} // verus!
