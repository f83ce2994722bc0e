//! Layout helpers shared by the widgets: line spacing and the placement of
//! popups next to an anchor rectangle.

use vstd::prelude::*;

verus! {

/// `x` clamped into the range of `i32`.
pub open spec fn clamp_i32(x: int) -> i32 {
    if x > i32::MAX {
        i32::MAX
    } else if x < i32::MIN {
        i32::MIN
    } else {
        x as i32
    }
}

/// `x / 2` rounded down.
pub open spec fn floor_half(x: int) -> int {
    x / 2
}

/// `x / 2` rounded up.
pub open spec fn ceil_half(x: int) -> int {
    (x + 1) / 2
}

fn floor_half_exec(x: i128) -> (r: i128)
    requires
        -0x1_0000_0000_0000_0000_0000 < x < 0x1_0000_0000_0000_0000_0000,
    ensures
        r == floor_half(x as int),
{
    if x >= 0 {
        x / 2
    } else {
        let y: i128 = -x;
        let q: i128 = (y + 1) / 2;
        -q
    }
}

fn clamp_exec(x: i128) -> (r: i32)
    ensures
        r == clamp_i32(x as int),
{
    if x > i32::MAX as i128 {
        i32::MAX
    } else if x < i32::MIN as i128 {
        i32::MIN
    } else {
        x as i32
    }
}

/// Splits a line space between the space above and below a line: half of
/// it each, the extra pixel of an odd space going above. Each half is
/// clamped into the range of `i32`.
pub fn calc_line_space(space: i64) -> (r: (i32, i32))
    ensures
        r == (clamp_i32(ceil_half(space as int)), clamp_i32(floor_half(space as int))),
{
    let above = floor_half_exec(space as i128 + 1);
    let below = floor_half_exec(space as i128);
    (clamp_exec(above), clamp_exec(below))
}

/// A rectangle in pixels.
#[derive(Clone, Copy, PartialEq, Eq, Structural, Debug)]
pub struct Rectangle {
    pub x: i32,
    pub y: i32,
    pub width: i32,
    pub height: i32,
}

pub open spec fn min_int(a: int, b: int) -> int {
    if a < b {
        a
    } else {
        b
    }
}

pub open spec fn max_int(a: int, b: int) -> int {
    if a > b {
        a
    } else {
        b
    }
}

pub open spec fn fits_i32(x: int) -> bool {
    i32::MIN <= x <= i32::MAX
}

/// The x position and width of a popup of width `width` at `pos`: when it
/// would overflow `area` to the right, it moves left (not past 0) and its
/// width is cut to that of the area.
pub open spec fn horizontal_position(area: Rectangle, pos: Rectangle, width: i32) -> (int, int) {
    let right = pos.x + width;
    if right > area.width {
        (max_int(pos.x - (right - area.width), 0), min_int(width as int, area.width as int))
    } else {
        (pos.x as int, width as int)
    }
}

/// The computation of [`horizontal_position`] stays within `i32`.
pub open spec fn horizontal_fits(area: Rectangle, pos: Rectangle, width: i32) -> bool {
    let right = pos.x + width;
    &&& fits_i32(right)
    &&& right > area.width ==> fits_i32(right - area.width) && fits_i32(
        pos.x - (right - area.width),
    )
}

/// Calculates the preferred width and x-position.
pub fn get_preferred_horizontal_position(area: &Rectangle, pos: &Rectangle, width: i32) -> (r: (
    i32,
    i32,
))
    requires
        horizontal_fits(*area, *pos, width),
    ensures
        (r.0 as int, r.1 as int) == horizontal_position(*area, *pos, width),
{
    let mut x = pos.x;
    let mut width = width;
    let right = x + width;
    if right > area.width {
        let overflow = right - area.width;
        x = x - overflow;
        if x < 0 {
            x = 0;
        }
        if area.width < width {
            width = area.width;
        }
    }
    (x, width)
}

/// The y position and height of a popup of height `height` at `pos`: above
/// the anchor when it fits there, else on the side with more room, cut to
/// that room.
pub open spec fn vertical_position(area: Rectangle, pos: Rectangle, height: i32) -> (int, int) {
    let y = pos.y - height;
    if y < area.y {
        let max_above = area.y + pos.y;
        let max_below = area.height - (pos.y + pos.height);
        if max_above > max_below {
            (area.y as int, max_above)
        } else {
            (pos.y + pos.height, min_int(height as int, max_below))
        }
    } else {
        (y, height as int)
    }
}

/// The computation of [`vertical_position`] stays within `i32`.
pub open spec fn vertical_fits(area: Rectangle, pos: Rectangle, height: i32) -> bool {
    &&& fits_i32(pos.y - height)
    &&& pos.y - height < area.y ==> fits_i32(area.y + pos.y) && fits_i32(pos.y + pos.height)
        && fits_i32(area.height - (pos.y + pos.height))
}

/// Calculates the preferred height and y-position.
pub fn get_preferred_vertical_position(area: &Rectangle, pos: &Rectangle, height: i32) -> (r: (
    i32,
    i32,
))
    requires
        vertical_fits(*area, *pos, height),
    ensures
        (r.0 as int, r.1 as int) == vertical_position(*area, *pos, height),
{
    let mut height = height;
    let mut y = pos.y - height;
    if y < area.y {
        let max_above = area.y + pos.y;
        let max_below = area.height - (pos.y + pos.height);
        if max_above > max_below {
            y = area.y;
            height = max_above;
        } else {
            y = pos.y + pos.height;
            if max_below < height {
                height = max_below;
            }
        }
    }
    (y, height)
}

/// A forced side of a tooltip relative to its anchor.
#[derive(Clone, Copy, PartialEq, Eq, Structural, Debug)]
pub enum Gravity {
    Up,
    Down,
}

/// The area a tooltip may take: all of `area`, or, when its side is
/// forced, the part above or below the anchor.
pub open spec fn tooltip_area(area: Rectangle, anchor: Rectangle, gravity: Option<Gravity>) -> Rectangle {
    match gravity {
        Some(Gravity::Up) => Rectangle { height: anchor.y, ..area },
        Some(Gravity::Down) => Rectangle { y: (anchor.y + anchor.height) as i32, ..area },
        None => area,
    }
}

/// The position and size of a tooltip of the given size next to `anchor`,
/// as `(x, y, width, height)`.
pub fn tooltip_position(
    area: &Rectangle,
    anchor: &Rectangle,
    gravity: Option<Gravity>,
    width: i32,
    height: i32,
) -> (r: (i32, i32, i32, i32))
    requires
        gravity == Some(Gravity::Down) ==> fits_i32(anchor.y + anchor.height),
        horizontal_fits(tooltip_area(*area, *anchor, gravity), *anchor, width),
        vertical_fits(tooltip_area(*area, *anchor, gravity), *anchor, height),
    ensures
        (r.0 as int, r.2 as int) == horizontal_position(
            tooltip_area(*area, *anchor, gravity),
            *anchor,
            width,
        ),
        (r.1 as int, r.3 as int) == vertical_position(
            tooltip_area(*area, *anchor, gravity),
            *anchor,
            height,
        ),
{
    let mut available = *area;
    match gravity {
        Some(Gravity::Up) => {
            available.height = anchor.y;
        },
        Some(Gravity::Down) => {
            available.y = anchor.y + anchor.height;
        },
        None => {},
    }
    let (x, w) = get_preferred_horizontal_position(&available, anchor, width);
    let (y, h) = get_preferred_vertical_position(&available, anchor, height);
    (x, y, w, h)
}

} // verus!
