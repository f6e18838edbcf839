//! Where the selection goes on a key press, and how the grid is laid out.

use crate::loader::ViewMode;
use vstd::prelude::*;

verus! {

/// Thumbnails in one row of the grid.
pub const GRID_COLS: usize = 20;

/// Rows that a page key moves by in the grid.
pub const PAGE_ROWS: usize = 15;

/// The navigation keys that count for one frame.
#[derive(Clone, Copy, Debug, PartialEq, Eq, Structural)]
pub struct NavKeys {
    pub forward: bool,
    pub backward: bool,
    pub up: bool,
    pub down: bool,
    pub page_down: bool,
    pub page_up: bool,
}

/// `n` where `on` holds, else 0.
pub open spec fn when(on: bool, n: int) -> int {
    if on {
        n
    } else {
        0
    }
}

/// Steps in the grid: one for forward and backward, a row for up and down, a
/// page for the page keys; keys held together add up.
pub open spec fn grid_step_of(keys: NavKeys) -> int {
    when(keys.forward, 1) - when(keys.backward, 1) + when(keys.down, GRID_COLS as int) - when(
        keys.up,
        GRID_COLS as int,
    ) + when(keys.page_down, (GRID_COLS * PAGE_ROWS) as int) - when(
        keys.page_up,
        (GRID_COLS * PAGE_ROWS) as int,
    )
}

/// Step in single view: one image forward or backward. Of keys held
/// together the page keys win over the others, and backward over forward.
pub open spec fn single_step_of(keys: NavKeys) -> int {
    if keys.page_up {
        -1
    } else if keys.page_down {
        1
    } else if keys.backward {
        -1
    } else if keys.forward {
        1
    } else {
        0
    }
}

/// The index `step` away from `current`, held within the file list; 0 for
/// an empty list.
pub open spec fn target_of(current: usize, step: int, file_count: usize) -> int {
    if file_count == 0 {
        0
    } else if current + step < 0 {
        0
    } else if current + step > file_count - 1 {
        file_count - 1
    } else {
        current + step
    }
}

/// Steps to move by in the grid.
pub fn grid_step(keys: NavKeys) -> (step: i32)
    ensures
        step == grid_step_of(keys),
{
    let mut step: i32 = 0;
    if keys.forward {
        step = step + 1;
    }
    if keys.backward {
        step = step - 1;
    }
    if keys.down {
        step = step + GRID_COLS as i32;
    }
    if keys.up {
        step = step - GRID_COLS as i32;
    }
    if keys.page_down {
        step = step + (GRID_COLS * PAGE_ROWS) as i32;
    }
    if keys.page_up {
        step = step - (GRID_COLS * PAGE_ROWS) as i32;
    }
    step
}

/// Step to move by in single view.
pub fn single_step(keys: NavKeys) -> (step: i32)
    ensures
        step == single_step_of(keys),
{
    let mut step: i32 = 0;
    if keys.forward {
        step = 1;
    }
    if keys.backward {
        step = -1;
    }
    if keys.page_down {
        step = 1;
    }
    if keys.page_up {
        step = -1;
    }
    step
}

/// The index to select after moving by `step`.
pub fn target_index(current: usize, step: i32, file_count: usize) -> (idx: usize)
    ensures
        idx == target_of(current, step as int, file_count),
        file_count > 0 ==> idx < file_count,
{
    if file_count == 0 {
        0
    } else if step < 0 {
        let back = (-(step as i64)) as u64;
        if back > current as u64 {
            0
        } else {
            let idx = current - back as usize;
            if idx > file_count - 1 {
                file_count - 1
            } else {
                idx
            }
        }
    } else {
        match current.checked_add(step as usize) {
            Some(idx) => if idx > file_count - 1 {
                file_count - 1
            } else {
                idx
            },
            None => file_count - 1,
        }
    }
}

/// The other view mode.
pub fn toggle_mode(mode: ViewMode) -> (r: ViewMode)
    ensures
        r != mode,
        r == (match mode {
            ViewMode::Single => ViewMode::Grid,
            ViewMode::Grid => ViewMode::Single,
        }),
{
    match mode {
        ViewMode::Single => ViewMode::Grid,
        ViewMode::Grid => ViewMode::Single,
    }
}

/// The rotation, in quarter turns, after `turns` more quarter turns.
pub fn rotated(rotation: u8, turns: u8) -> (r: u8)
    ensures
        r == (rotation + turns) % 4,
        r < 4,
{
    ((rotation as u16 + turns as u16) % 4) as u8
}

/// How the grid is laid out in a window.
#[derive(Clone, Copy, Debug, PartialEq, Eq, Structural)]
pub struct GridLayout {
    /// Side of a cell in pixels; never 0.
    pub cell: usize,
    /// Rows of cells that reach into the window.
    pub rows_visible: u64,
    /// First row shown, so that the row of the selection is in the middle.
    pub start_row: usize,
}

impl GridLayout {
    /// The layout for a window of the given size with `current` selected.
    pub open spec fn of(fb_w: u32, fb_h: u32, current: usize) -> Option<GridLayout> {
        let cell = fb_w as int / GRID_COLS as int;
        if cell == 0 {
            None
        } else {
            let rows_visible = (fb_h + cell - 1) / cell + 1;
            let row = current as int / GRID_COLS as int;
            Some(
                GridLayout {
                    cell: cell as usize,
                    rows_visible: rows_visible as u64,
                    start_row: (if row >= rows_visible / 2 {
                        row - rows_visible / 2
                    } else {
                        0
                    }) as usize,
                },
            )
        }
    }

    /// The layout for a window of the given size with `current` selected;
    /// `None` where the window is too narrow for a cell.
    pub fn new(fb_w: u32, fb_h: u32, current: usize) -> (r: Option<GridLayout>)
        ensures
            r == GridLayout::of(fb_w, fb_h, current),
            r matches Some(g) ==> g.cell > 0 && g.rows_visible <= fb_h + 1,
    {
        let cell = fb_w as usize / GRID_COLS;
        if cell == 0 {
            return None;
        }
        proof {
            let c = cell as int;
            let t = fb_h as int + c - 1;
            assert(t < c * (fb_h as int + 1)) by (nonlinear_arith)
                requires
                    c >= 1,
                    fb_h >= 0,
                    t == fb_h as int + c - 1,
            ;
            vstd::arithmetic::div_mod::lemma_multiply_divide_lt(t, c, fb_h as int + 1);
            vstd::arithmetic::div_mod::lemma_div_pos_is_pos(t, c);
        }
        let rows_visible = (fb_h as u64 + cell as u64 - 1) / cell as u64 + 1;
        let row = current / GRID_COLS;
        let center = rows_visible / 2;
        let start_row = if row as u64 >= center {
            row - center as usize
        } else {
            0
        };
        Some(GridLayout { cell, rows_visible, start_row })
    }

    /// Column and row, counted from the first row shown, of the cell of
    /// `idx`; `None` for an index before the first row shown.
    pub fn position(&self, idx: usize) -> (r: Option<(usize, usize)>)
        ensures
            r == (if idx / GRID_COLS >= self.start_row {
                Some(((idx % GRID_COLS), (idx / GRID_COLS - self.start_row) as usize))
            } else {
                None
            }),
    {
        let row = idx / GRID_COLS;
        if row >= self.start_row {
            Some((idx % GRID_COLS, row - self.start_row))
        } else {
            None
        }
    }
}

} // verus!
