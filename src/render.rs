//! Composition of the pictures that the terminal front end draws: the frame
//! of the well (the grid inside walls and a floor, with the falling piece on
//! top) and the preview box of the next piece.
use crate::piece::{covers, CurrentObject, PieceView};
use crate::playfield::{cell_at, grid_of};
use nalgebra::SMatrix;
use vstd::prelude::*;

verus! {

/// Colour value of walls, floor and box edges.
pub const WALL: u8 = 7;

/// What a frame matrix holds: `frame_cells(m)[y][x]` is the entry at `(x, y)`.
pub uninterp spec fn frame_cells(m: SMatrix<u8, 12, 19>) -> Seq<Seq<u8>>;

/// What a preview matrix holds: `preview_cells(m)[y][x]` is the entry at `(x, y)`.
pub uninterp spec fn preview_cells(m: SMatrix<u8, 6, 6>) -> Seq<Seq<u8>>;

/// The frame as nineteen rows of twelve values.
pub open spec fn frame_of(m: SMatrix<u8, 12, 19>) -> Seq<Seq<u8>> {
    Seq::new(19, |y: int| Seq::new(12, |x: int| frame_cells(m)[y][x]))
}

/// The preview box as six rows of six values.
pub open spec fn preview_of(m: SMatrix<u8, 6, 6>) -> Seq<Seq<u8>> {
    Seq::new(6, |y: int| Seq::new(6, |x: int| preview_cells(m)[y][x]))
}

/// Writes one entry of a frame.
/// Relies on `IndexMut<(usize, usize)>` for `nalgebra::Matrix`: it hands out
/// the entry at `(x, y)` alone and panics unless `x < 12` and `y < 19`.
#[verifier::external_body]
fn set_frame(m: &mut SMatrix<u8, 12, 19>, x: usize, y: usize, v: u8)
    requires
        x < 12,
        y < 19,
    ensures
        forall|yy: int, xx: int|
            0 <= yy < 19 && 0 <= xx < 12 ==> #[trigger] frame_cells(*final(m))[yy][xx] == if yy
                == y && xx == x {
                v
            } else {
                frame_cells(*old(m))[yy][xx]
            },
{
    m[(x, y)] = v;
}

/// Writes one entry of a preview box.
/// Relies on `IndexMut<(usize, usize)>` for `nalgebra::Matrix`: it hands out
/// the entry at `(x, y)` alone and panics unless `x < 6` and `y < 6`.
#[verifier::external_body]
fn set_preview(m: &mut SMatrix<u8, 6, 6>, x: usize, y: usize, v: u8)
    requires
        x < 6,
        y < 6,
    ensures
        forall|yy: int, xx: int|
            0 <= yy < 6 && 0 <= xx < 6 ==> #[trigger] preview_cells(*final(m))[yy][xx] == if yy
                == y && xx == x {
                v
            } else {
                preview_cells(*old(m))[yy][xx]
            },
{
    m[(x, y)] = v;
}

/// Writes `v` at `(x, y)` of the frame and leaves every other entry.
fn put_frame(m: &mut SMatrix<u8, 12, 19>, x: usize, y: usize, v: u8)
    requires
        x < 12,
        y < 19,
    ensures
        frame_of(*final(m)) == frame_of(*old(m)).update(
            y as int,
            frame_of(*old(m))[y as int].update(x as int, v),
        ),
{
    set_frame(m, x, y, v);
    assert(frame_of(*m) =~~= frame_of(*old(m)).update(
        y as int,
        frame_of(*old(m))[y as int].update(x as int, v),
    ));
}

/// Writes `v` at `(x, y)` of the preview box and leaves every other entry.
fn put_preview(m: &mut SMatrix<u8, 6, 6>, x: usize, y: usize, v: u8)
    requires
        x < 6,
        y < 6,
    ensures
        preview_of(*final(m)) == preview_of(*old(m)).update(
            y as int,
            preview_of(*old(m))[y as int].update(x as int, v),
        ),
{
    set_preview(m, x, y, v);
    assert(preview_of(*m) =~~= preview_of(*old(m)).update(
        y as int,
        preview_of(*old(m))[y as int].update(x as int, v),
    ));
}

/// The frame with the well's grid copied in, one column to the right.
pub open spec fn with_well(f: Seq<Seq<u8>>, g: Seq<Seq<u8>>) -> Seq<Seq<u8>> {
    Seq::new(
        19,
        |y: int|
            Seq::new(
                12,
                |x: int|
                    if 1 <= x <= 10 && y < 18 {
                        g[y][x - 1]
                    } else {
                        f[y][x]
                    },
            ),
    )
}

/// The frame with the four cells of the piece drawn in its colour.
pub open spec fn with_piece(f: Seq<Seq<u8>>, p: PieceView) -> Seq<Seq<u8>> {
    Seq::new(
        19,
        |y: int|
            Seq::new(
                12,
                |x: int|
                    if covers(p, x - 1, y) {
                        (p.otype + 1) as u8
                    } else {
                        f[y][x]
                    },
            ),
    )
}

/// The frame with walls on both sides and a floor below.
pub open spec fn with_border(f: Seq<Seq<u8>>) -> Seq<Seq<u8>> {
    Seq::new(
        19,
        |y: int|
            Seq::new(
                12,
                |x: int|
                    if x == 0 || x == 11 || y == 18 {
                        WALL
                    } else {
                        f[y][x]
                    },
            ),
    )
}

/// An empty preview box: edges in the wall colour, inside empty.
pub open spec fn blank_preview() -> Seq<Seq<u8>> {
    Seq::new(
        6,
        |y: int|
            Seq::new(
                6,
                |x: int|
                    if x == 0 || x == 5 || y == 0 || y == 5 {
                        WALL
                    } else {
                        0u8
                    },
            ),
    )
}

/// Where the preview box draws piece type `t`: the center, then three cells.
pub open spec fn preview_shape(t: int) -> (int, int, int, int, int, int, int, int) {
    if t == 0 {
        (2, 2, 1, 2, 3, 2, 1, 3)
    } else if t == 1 {
        (2, 2, 1, 2, 3, 2, 3, 3)
    } else if t == 2 {
        (2, 3, 1, 3, 3, 3, 4, 3)
    } else if t == 3 {
        (2, 3, 3, 3, 3, 2, 2, 2)
    } else if t == 4 {
        (2, 3, 1, 2, 2, 2, 3, 3)
    } else if t == 5 {
        (2, 3, 1, 3, 2, 2, 3, 2)
    } else {
        (2, 3, 1, 2, 3, 2, 2, 2)
    }
}

/// The preview box showing piece type `t` in its colour.
pub open spec fn preview_of_type(t: int) -> Seq<Seq<u8>> {
    let s = preview_shape(t);
    Seq::new(
        6,
        |y: int|
            Seq::new(
                6,
                |x: int|
                    if (x == s.0 && y == s.1) || (x == s.2 && y == s.3) || (x == s.4 && y == s.5)
                        || (x == s.6 && y == s.7) {
                        (t + 1) as u8
                    } else {
                        blank_preview()[y][x]
                    },
            ),
    )
}

/// Whether `(x, y)` lies inside the frame.
pub fn check_out_of_bounds(x: i8, y: i8) -> (r: bool)
    ensures
        r == (0 <= x < 12 && 0 <= y < 19),
{
    if x > -1 && x < 12 && y > -1 && y < 19 {
        return true;
    }
    false
}

/// Copies the grid into the frame, one column to the right.
fn playfield(buffer: &mut SMatrix<u8, 12, 19>, map: &SMatrix<u8, 10, 18>)
    ensures
        frame_of(*final(buffer)) == with_well(frame_of(*old(buffer)), grid_of(*map)),
{
    let ghost f0 = frame_of(*buffer);
    let mut x: usize = 0;
    while x < 10
        invariant
            0 <= x <= 10,
            f0 == frame_of(*old(buffer)),
            forall|yy: int, xx: int|
                0 <= yy < 19 && 0 <= xx < 12 ==> #[trigger] frame_of(*buffer)[yy][xx] == if 1
                    <= xx <= x && yy < 18 {
                    grid_of(*map)[yy][xx - 1]
                } else {
                    f0[yy][xx]
                },
        decreases 10 - x,
    {
        let mut y: usize = 0;
        while y < 18
            invariant
                0 <= x < 10,
                0 <= y <= 18,
                f0 == frame_of(*old(buffer)),
                forall|yy: int, xx: int|
                    0 <= yy < 19 && 0 <= xx < 12 ==> #[trigger] frame_of(*buffer)[yy][xx] == if (1
                        <= xx <= x && yy < 18) || (xx == x + 1 && yy < y) {
                        grid_of(*map)[yy][xx - 1]
                    } else {
                        f0[yy][xx]
                    },
            decreases 18 - y,
        {
            let v = cell_at(map, x, y);
            put_frame(buffer, x + 1, y, v);
            y = y + 1;
        }
        x = x + 1;
    }
    assert(frame_of(*buffer) =~~= with_well(f0, grid_of(*map)));
}

/// Draws the four cells of the falling piece into the frame.
pub fn player_object(buffer: &mut SMatrix<u8, 12, 19>, player_obj: &CurrentObject)
    requires
        player_obj@.wf(),
        player_obj@.exists,
    ensures
        frame_of(*final(buffer)) == with_piece(frame_of(*old(buffer)), player_obj@),
{
    let ghost f0 = frame_of(*buffer);
    let x: i8 = player_obj.cx as i8;
    let x1: i8 = player_obj.cx as i8 + player_obj.x1;
    let x2: i8 = player_obj.cx as i8 + player_obj.x2;
    let x3: i8 = player_obj.cx as i8 + player_obj.x3;
    let y: i8 = player_obj.cy as i8;
    let y1: i8 = player_obj.cy as i8 + player_obj.y1;
    let y2: i8 = player_obj.cy as i8 + player_obj.y2;
    let y3: i8 = player_obj.cy as i8 + player_obj.y3;
    let v = player_obj.otype + 1;
    if check_out_of_bounds(x, y) {
        put_frame(buffer, 1 + x as usize, y as usize, v);
    }
    if check_out_of_bounds(x1, y1) {
        put_frame(buffer, 1 + x1 as usize, y1 as usize, v);
    }
    if check_out_of_bounds(x2, y2) {
        put_frame(buffer, 1 + x2 as usize, y2 as usize, v);
    }
    if check_out_of_bounds(x3, y3) {
        put_frame(buffer, 1 + x3 as usize, y3 as usize, v);
    }
    assert(frame_of(*buffer) =~~= with_piece(f0, player_obj@));
}

/// Composes the frame: the grid copied in, then the falling piece, if any,
/// drawn over it. Walls and floor stay as they were.
pub fn inject_buffers(
    playfield_buffer: &mut SMatrix<u8, 12, 19>,
    obj: &CurrentObject,
    map: SMatrix<u8, 10, 18>,
)
    requires
        obj@.wf(),
    ensures
        frame_of(*final(playfield_buffer)) == if obj@.exists {
            with_piece(with_well(frame_of(*old(playfield_buffer)), grid_of(map)), obj@)
        } else {
            with_well(frame_of(*old(playfield_buffer)), grid_of(map))
        },
{
    playfield(playfield_buffer, &map);
    if obj.exists {
        player_object(playfield_buffer, obj);
    }
}

/// Draws the walls and the floor of the frame.
pub fn border(buffer: &mut SMatrix<u8, 12, 19>)
    ensures
        frame_of(*final(buffer)) == with_border(frame_of(*old(buffer))),
{
    let ghost f0 = frame_of(*buffer);
    let mut y: usize = 0;
    while y < 19
        invariant
            0 <= y <= 19,
            f0 == frame_of(*old(buffer)),
            forall|yy: int, xx: int|
                0 <= yy < 19 && 0 <= xx < 12 ==> #[trigger] frame_of(*buffer)[yy][xx] == if (xx
                    == 0 || xx == 11) && yy < y {
                    WALL
                } else {
                    f0[yy][xx]
                },
        decreases 19 - y,
    {
        put_frame(buffer, 0, y, WALL);
        put_frame(buffer, 11, y, WALL);
        y = y + 1;
    }
    let mut x: usize = 1;
    while x < 11
        invariant
            1 <= x <= 11,
            f0 == frame_of(*old(buffer)),
            forall|yy: int, xx: int|
                0 <= yy < 19 && 0 <= xx < 12 ==> #[trigger] frame_of(*buffer)[yy][xx] == if xx
                    == 0 || xx == 11 || (yy == 18 && xx < x) {
                    WALL
                } else {
                    f0[yy][xx]
                },
        decreases 11 - x,
    {
        put_frame(buffer, x, 18, WALL);
        x = x + 1;
    }
    assert(frame_of(*buffer) =~~= with_border(f0));
}

/// Empties the preview box and draws its edges.
fn clear_piece_preview(preview: &mut SMatrix<u8, 6, 6>)
    ensures
        preview_of(*final(preview)) == blank_preview(),
{
    let mut i: usize = 0;
    while i < 6
        invariant
            0 <= i <= 6,
            forall|yy: int, xx: int|
                0 <= yy < 6 && 0 <= xx < i ==> #[trigger] preview_of(*preview)[yy][xx] == if yy
                    == 0 || yy == 5 {
                    WALL
                } else {
                    0u8
                },
        decreases 6 - i,
    {
        put_preview(preview, i, 0, WALL);
        put_preview(preview, i, 5, WALL);
        let mut j: usize = 1;
        while j < 5
            invariant
                0 <= i < 6,
                1 <= j <= 5,
                forall|yy: int, xx: int|
                    0 <= yy < 6 && 0 <= xx < i ==> #[trigger] preview_of(*preview)[yy][xx] == if yy
                        == 0 || yy == 5 {
                        WALL
                    } else {
                        0u8
                    },
                preview_of(*preview)[0][i as int] == WALL,
                preview_of(*preview)[5][i as int] == WALL,
                forall|yy: int| 1 <= yy < j ==> #[trigger] preview_of(*preview)[yy][i as int] == 0,
            decreases 5 - j,
        {
            put_preview(preview, i, j, 0);
            j = j + 1;
        }
        i = i + 1;
    }
    let mut i: usize = 1;
    while i < 5
        invariant
            1 <= i <= 5,
            forall|yy: int, xx: int|
                0 <= yy < 6 && 0 <= xx < 6 ==> #[trigger] preview_of(*preview)[yy][xx] == if (xx
                    == 0 || xx == 5) && 1 <= yy < i {
                    WALL
                } else if yy == 0 || yy == 5 {
                    WALL
                } else {
                    0u8
                },
        decreases 5 - i,
    {
        put_preview(preview, 0, i, WALL);
        put_preview(preview, 5, i, WALL);
        i = i + 1;
    }
    assert(preview_of(*preview) =~~= blank_preview());
}

/// Draws the next piece of the queue, `pieces[1]`, into the preview box.
pub fn set_next_piece(preview: &mut SMatrix<u8, 6, 6>, player_obj: &CurrentObject)
    requires
        player_obj@.wf(),
    ensures
        preview_of(*final(preview)) == preview_of_type(player_obj@.pieces[1] as int),
{
    clear_piece_preview(preview);
    let piece = player_obj.pieces[1] + 1;
    if piece - 1 == 0 || piece - 1 == 1 {
        put_preview(preview, 2, 2, piece);
    } else {
        put_preview(preview, 2, 3, piece);
    }
    let (x1, y1, x2, y2, x3, y3): (usize, usize, usize, usize, usize, usize) = match piece - 1 {
        0 => (1, 2, 3, 2, 1, 3),
        1 => (1, 2, 3, 2, 3, 3),
        2 => (1, 3, 3, 3, 4, 3),
        3 => (3, 3, 3, 2, 2, 2),
        4 => (1, 2, 2, 2, 3, 3),
        5 => (1, 3, 2, 2, 3, 2),
        // T
        _ => (1, 2, 3, 2, 2, 2),
    };
    put_preview(preview, x1, y1, piece);
    put_preview(preview, x2, y2, piece);
    put_preview(preview, x3, y3, piece);
    assert(preview_of(*preview) =~~= preview_of_type(player_obj@.pieces[1] as int));
}

} // verus!
