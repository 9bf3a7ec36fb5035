//! Fixed dimensions of the display and of the buffers behind it.

use vstd::prelude::*;

verus! {

/// Columns of the display.
pub const BUFFER_WIDTH: usize = 80;

/// Rows of the display.
pub const BUFFER_HEIGHT: usize = 25;

/// Columns of the status sidebar at the right edge of the display.
pub const TASK_MANAGER_WIDTH: usize = 10;

/// Columns of one pane, border included.
pub const WINDOW_WIDTH: usize = 35;

/// Rows of one pane, border included.
pub const WINDOW_HEIGHT: usize = 12;

/// Cells of one pane, border included.
pub const WINDOW_CELLS: usize = 420;

/// Columns of a pane's interior.
pub const INTERIOR_WIDTH: usize = 33;

/// Rows of a pane's interior.
pub const INTERIOR_HEIGHT: usize = 10;

/// Cells of a pane's interior: the capacity of its display text.
pub const INTERIOR_CELLS: usize = 330;

/// Column of the first of the two label cells in a pane's top border.
pub const LABEL_COLUMN: usize = 17;

/// Number of panes.
pub const NUM_WINDOWS: usize = 4;

/// Number of program slots; slot `i` is bound to pane `i + 1`.
pub const NUM_SLOTS: usize = 3;

/// Capacity of a pane's raw byte buffer, and the largest file.
pub const MAX_FILE_BYTES: usize = 2048;

/// Entries of a directory listing.
pub const MAX_FILES_STORED: usize = 30;

/// Bytes of a file name record.
pub const MAX_FILENAME_BYTES: usize = 10;

/// Directory entries shown per interior row.
pub const ENTRIES_PER_ROW: usize = 3;

/// Columns used by a row of directory entries.
pub const LISTING_WIDTH: usize = 30;

/// Length of the prompt at the start of the top input line.
pub const PROMPT_LEN: usize = 15;

/// Capacity of the top input line: the prompt and one file name.
pub const MAX_USER_INPUT_BYTES: usize = 25;

/// Capacity of the notice shown behind the input line in the top row.
pub const NOTICE_WIDTH: usize = 45;

/// Capacity of the line a blocked program is waiting for.
pub const MAX_RUN_INPUT: usize = 20;

/// The grid cell that shows interior cell `k`.
pub open spec fn grid_index(k: int) -> int {
    (k / INTERIOR_WIDTH as int + 1) * WINDOW_WIDTH as int + (k % INTERIOR_WIDTH as int + 1)
}

/// Whether grid cell `g` lies inside the border ring.
pub open spec fn is_inner(g: int) -> bool {
    1 <= g / WINDOW_WIDTH as int <= INTERIOR_HEIGHT && 1 <= g % WINDOW_WIDTH as int <= INTERIOR_WIDTH
}

/// The interior cell shown at inner grid cell `g`.
pub open spec fn interior_index(g: int) -> int {
    (g / WINDOW_WIDTH as int - 1) * INTERIOR_WIDTH as int + (g % WINDOW_WIDTH as int - 1)
}

/// Interior cells and inner grid cells correspond one to one.
pub proof fn lemma_grid_interior(k: int)
    requires
        0 <= k < INTERIOR_CELLS,
    ensures
        0 <= grid_index(k) < WINDOW_CELLS,
        is_inner(grid_index(k)),
        interior_index(grid_index(k)) == k,
{
}

} // verus!
