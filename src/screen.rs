use vstd::prelude::*;

verus! {

/// Size of the terminal grid in character cells.
#[derive(Clone, Copy, Debug, PartialEq, Eq, Structural)]
pub struct ScreenGeometry {
    pub rows: u32,
    pub cols: u32,
}

/// Where a centred banner goes: a blanked box of three rows, twice the
/// text's length wide, the text on its middle row, and the cell the cursor
/// is parked on afterwards. Ranges are half-open; positions may fall off
/// the grid on a small screen.
#[derive(Clone, Copy, Debug, PartialEq, Eq, Structural)]
pub struct BannerLayout {
    pub top: i64,
    pub bottom: i64,
    pub left: i64,
    pub right: i64,
    pub text_row: i64,
    pub text_col: i64,
    pub cursor_row: i64,
    pub cursor_col: i64,
}

/// Places a banner of `text_len` characters at the centre of the grid.
pub fn banner_layout(g: ScreenGeometry, text_len: u32) -> (b: BannerLayout)
    ensures
        b.top == g.rows / 2 - 1,
        b.bottom == g.rows / 2 + 2,
        b.left == g.cols / 2 - text_len,
        b.right == g.cols / 2 + text_len,
        b.text_row == g.rows / 2,
        b.text_col == g.cols / 2 - text_len / 2,
        b.cursor_row == g.rows - 1,
        b.cursor_col == g.cols - 1,
{
    let mid_row = g.rows as i64 / 2;
    let mid_col = g.cols as i64 / 2;
    let len = text_len as i64;
    BannerLayout {
        top: mid_row - 1,
        bottom: mid_row + 2,
        left: mid_col - len,
        right: mid_col + len,
        text_row: mid_row,
        text_col: mid_col - len / 2,
        cursor_row: g.rows as i64 - 1,
        cursor_col: g.cols as i64 - 1,
    }
}

} // verus!
