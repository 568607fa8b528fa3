use vstd::prelude::*;

verus! {

/// The picture of the background cell `(x, y)` on a background of `width`
/// columns and `height` rows: one picture per corner, one per edge, and one
/// for the cells inside. Where a narrow background makes a cell lie on
/// several edges at once, the first of these that applies wins: the
/// top-left corner, the bottom-left, the bottom-right, the top-right, the
/// right edge, the top edge, the left edge, the bottom edge.
pub open spec fn background_texture(x: int, y: int, width: int, height: int) -> int {
    let left = x == 0;
    let bottom = y == 0;
    let right = x == width - 1;
    let top = y == height - 1;
    if left && top {
        13
    } else if left && bottom {
        12
    } else if bottom && right {
        11
    } else if right && top {
        10
    } else if right {
        9
    } else if top {
        8
    } else if left {
        7
    } else if bottom {
        6
    } else {
        1
    }
}

/// The index of the picture of one cell of the background.
pub fn background_texture_index(x: u32, y: u32, width: u32, height: u32) -> (index: u32)
    requires
        x < width,
        y < height,
    ensures
        index == background_texture(x as int, y as int, width as int, height as int),
{
    match (x == 0, y == 0, x == width - 1, y == height - 1) {
        (true, _, _, true) => 13,
        (true, true, _, _) => 12,
        (_, true, true, _) => 11,
        (_, _, true, true) => 10,
        (_, _, true, _) => 9,
        (_, _, _, true) => 8,
        (true, _, _, _) => 7,
        (_, true, _, _) => 6,
        _ => 1,
    }
}

} // verus!
