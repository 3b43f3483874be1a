//! Dimension resolver: derives the drawable area and its anchor points from
//! a raw terminal size. Pure arithmetic; the terminal itself is queried by
//! the caller.

use vstd::prelude::*;

verus! {

/// Widest drawable content area, in terminal cells.
pub const MAX_WIDTH: u16 = 60;

/// Tallest drawable content area, in terminal cells.
pub const MAX_HEIGHT: u16 = 30;

/// Drawable area derived from a raw terminal size of `cols` by `rows`
/// cells: the content box is clamped to `MAX_WIDTH` by `MAX_HEIGHT`, and
/// the centre of the whole terminal anchors every screen.
pub struct Dimensions {
    pub content_width: u16,
    pub content_height: u16,
    pub x_center: u16,
    pub y_center: u16,
}

/// The facts every `Dimensions` produced by `get_dimensions` obeys; layout
/// arithmetic stays inside `u16` because of them.
pub open spec fn dims_wf(d: Dimensions) -> bool {
    &&& d.content_width <= MAX_WIDTH
    &&& d.content_height <= MAX_HEIGHT
    &&& d.content_width / 2 <= d.x_center
    &&& d.content_height / 2 <= d.y_center
    &&& d.x_center <= 0x7fff
    &&& d.y_center <= 0x7fff
}

/// Drawable width, height and centre for a terminal of `cols` by `rows`
/// cells.
pub fn get_dimensions(cols: u16, rows: u16) -> (d: Dimensions)
    ensures
        d.content_width == if cols < MAX_WIDTH {
            cols
        } else {
            MAX_WIDTH
        },
        d.content_height == if rows < MAX_HEIGHT {
            rows
        } else {
            MAX_HEIGHT
        },
        d.x_center == cols / 2,
        d.y_center == rows / 2,
        dims_wf(d),
{
    let content_width = if cols < MAX_WIDTH {
        cols
    } else {
        MAX_WIDTH
    };
    let content_height = if rows < MAX_HEIGHT {
        rows
    } else {
        MAX_HEIGHT
    };
    Dimensions { content_width, content_height, x_center: cols / 2, y_center: rows / 2 }
}

/// Row just under the top edge of the content box, where the search bar
/// sits.
pub open spec fn spec_y_search(d: Dimensions) -> int {
    d.y_center - d.content_height / 2 + 1
}

pub fn y_search(d: &Dimensions) -> (y: u16)
    requires
        dims_wf(*d),
    ensures
        y == spec_y_search(*d),
{
    d.y_center - d.content_height / 2 + 1
}

/// Column at which a text of `text_len` cells starts when centred on
/// `x_center`.
pub fn centered_x(x_center: u16, text_len: u16) -> (x: u16)
    requires
        text_len / 2 <= x_center,
    ensures
        x == x_center - text_len / 2,
{
    x_center - text_len / 2
}

} // verus!
