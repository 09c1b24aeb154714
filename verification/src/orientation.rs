//! What the EXIF orientation of a picture means, in terms of where its pixels go.
//!
//! The EXIF standard says of each orientation at which side of the upright picture the
//! first row and the first column of the stored one lie. That the turns are the right
//! ones is proved here against that description.
use vstd::prelude::*;

use crate::af::{turned, AfBox};
use crate::image_io::Turn;
use crate::thumb::turn_for;

verus! {

/// A side of a picture.
pub enum Side {
    Top,
    Right,
    Bottom,
    Left,
}

/// The side of the upright picture at which row 0 of the stored one lies.
pub open spec fn row_0(orientation: int) -> Side {
    if orientation == 1 || orientation == 2 {
        Side::Top
    } else if orientation == 3 || orientation == 4 {
        Side::Bottom
    } else if orientation == 5 || orientation == 8 {
        Side::Left
    } else {
        Side::Right
    }
}

/// The side of the upright picture at which column 0 of the stored one lies.
pub open spec fn column_0(orientation: int) -> Side {
    if orientation == 1 || orientation == 4 {
        Side::Left
    } else if orientation == 2 || orientation == 3 {
        Side::Right
    } else if orientation == 5 || orientation == 6 {
        Side::Top
    } else {
        Side::Bottom
    }
}

/// How far a pixel of a picture lies from one of its sides.
pub open spec fn distance(side: Side, width: int, height: int, x: int, y: int) -> int {
    match side {
        Side::Top => y,
        Side::Right => width - 1 - x,
        Side::Bottom => height - 1 - y,
        Side::Left => x,
    }
}

/// Rows of the stored picture are columns of the upright one.
pub open spec fn is_sideways(orientation: int) -> bool {
    row_0(orientation) is Left || row_0(orientation) is Right
}

/// The pixel `(x, y)` of a stored picture of `w` by `h` pixels belongs at `(u, v)` of
/// the upright one: as far from the side of row 0 as its row is from row 0, and as far
/// from the side of column 0 as its column is from column 0.
pub open spec fn belongs_at(
    orientation: int,
    w: int,
    h: int,
    x: int,
    y: int,
    u: int,
    v: int,
) -> bool {
    let width = if is_sideways(orientation) {
        h
    } else {
        w
    };
    let height = if is_sideways(orientation) {
        w
    } else {
        h
    };
    &&& distance(row_0(orientation), width, height, u, v) == y
    &&& distance(column_0(orientation), width, height, u, v) == x
}

/// Where a pixel goes when a picture is turned, if it is.
pub open spec fn goes_to(turn: Option<Turn>, w: int, h: int, x: int, y: int) -> (int, int) {
    match turn {
        Some(t) => t.places(w, h, x, y),
        None => (x, y),
    }
}

/// For each orientation of the standard, every pixel goes where it belongs, and to no
/// other place. A number that is no orientation turns nothing.
pub proof fn law_pixels_go_where_they_belong(
    orientation: i64,
    w: int,
    h: int,
    x: int,
    y: int,
    u: int,
    v: int,
)
    ensures
        1 <= orientation <= 8 ==> (belongs_at(orientation as int, w, h, x, y, u, v) <==> goes_to(
            turn_for(Some(orientation)),
            w,
            h,
            x,
            y,
        ) == (u, v)),
        !(1 <= orientation <= 8) ==> turn_for(Some(orientation)) is None,
        turn_for(None) is None,
{
}

/// Exactly the sideways orientations swap width and height.
pub proof fn law_sideways_pictures_swap_their_sides(orientation: i64)
    requires
        1 <= orientation <= 8,
    ensures
        is_sideways(orientation as int) <==> (turn_for(Some(orientation)) matches Some(t)
            && t.swaps()),
{
}

/// The orientations 6 and 8 undo each other, and 3 is 6 applied twice. Every other
/// orientation undoes itself.
pub proof fn law_orientations_undo_each_other(w: int, h: int, x: int, y: int)
    ensures
        ({
            let (u, v) = goes_to(turn_for(Some(6)), w, h, x, y);
            &&& goes_to(turn_for(Some(8)), h, w, u, v) == (x, y)
            &&& goes_to(turn_for(Some(6)), h, w, u, v) == goes_to(turn_for(Some(3)), w, h, x, y)
        }),
        ({
            let (u, v) = goes_to(turn_for(Some(8)), w, h, x, y);
            goes_to(turn_for(Some(6)), h, w, u, v) == (x, y)
        }),
        forall|o: i64|
            #![trigger turn_for(Some(o))]
            {
                let (u, v) = goes_to(turn_for(Some(o)), w, h, x, y);
                &&& 1 <= o <= 4 ==> goes_to(turn_for(Some(o)), w, h, u, v) == (x, y)
                &&& o == 5 || o == 7 ==> goes_to(turn_for(Some(o)), h, w, u, v) == (x, y)
            },
{
}

/// The eight orientations are eight different turns.
pub proof fn law_orientations_differ(a: i64, b: i64)
    requires
        1 <= a <= 8,
        1 <= b <= 8,
        turn_for(Some(a)) == turn_for(Some(b)),
    ensures
        a == b,
{
}

/// How far a point of a picture lies from one of its sides.
pub open spec fn span_to(side: Side, width: int, height: int, x: int, y: int) -> int {
    match side {
        Side::Top => y,
        Side::Right => width - x,
        Side::Bottom => height - y,
        Side::Left => x,
    }
}

/// The focus area turns with the picture: its centre stays as far from the sides of row
/// 0 and column 0 as it was stored, for the orientations that cameras write.
pub proof fn law_focus_turns_with_the_picture(a: AfBox, orientation: i64)
    requires
        a.inside(),
        orientation == 1 || orientation == 3 || orientation == 6 || orientation == 8,
    ensures
        ({
            let t = turned(a, orientation);
            let o = orientation as int;
            &&& span_to(row_0(o), t.image_w as int, t.image_h as int, t.x as int, t.y as int)
                == a.y
            &&& span_to(column_0(o), t.image_w as int, t.image_h as int, t.x as int, t.y as int)
                == a.x
            &&& is_sideways(o) ==> t.image_w == a.image_h && t.image_h == a.image_w && t.w == a.h
                && t.h == a.w
            &&& !is_sideways(o) ==> t.image_w == a.image_w && t.image_h == a.image_h && t.w == a.w
                && t.h == a.h
        }),
{
}

} // verus!
