//! The text pane: a bordered grid of character cells around a wrapped
//! interior, a raw byte buffer that mirrors what was typed, an edit cursor and
//! a selection highlight.

use vstd::prelude::*;
use crate::geometry::{
    grid_index, interior_index, is_inner, ENTRIES_PER_ROW, INTERIOR_CELLS, INTERIOR_HEIGHT,
    INTERIOR_WIDTH, LABEL_COLUMN, LISTING_WIDTH, MAX_FILENAME_BYTES, MAX_FILES_STORED,
    MAX_FILE_BYTES, WINDOW_HEIGHT, WINDOW_WIDTH,
};
use crate::chars::is_alphanumeric;
use crate::pane_laws::{
    lemma_append_output_wf, lemma_blanked_wf, lemma_colors_wf, lemma_edit_key_wf, lemma_erase_wf,
    lemma_find_end_wf, lemma_newline_wf, lemma_open_file_wf, lemma_render_borders_wf,
    lemma_set_contents_wf, lemma_show_listing_wf, lemma_show_wrapped_wf, lemma_title_wf,
    lemma_type_all_wf, lemma_type_char_wf,
};
use crate::pane::{
    blank_before, file_text, in_entry, lemma_content_end_unique, listing_text, name_mask, padded,
    shows_name, title_tag, wrap, Color, Direction, PaneModel, Wrapped,
};

verus! {

/// The width at which a text is wrapped when `width` is asked for: no more
/// than the interior's width.
pub open spec fn wrap_width(width: usize) -> int {
    if width <= 33 { width as int } else { 33 }
}

/// The cells of a pane-sized array, row by row.
pub open spec fn grid_cells<T>(a: [[T; WINDOW_WIDTH]; WINDOW_HEIGHT]) -> Seq<T> {
    Seq::new(420, |g: int| a@[g / 35]@[g % 35])
}

/// The cells of an interior-sized array, row by row.
pub open spec fn interior_cells(a: [[char; INTERIOR_WIDTH]; INTERIOR_HEIGHT]) -> Seq<char> {
    Seq::new(330, |k: int| a@[k / 33]@[k % 33])
}

/// One of the four panes of the desktop.
#[derive(Clone, Copy)]
pub struct Window {
    vga: [[char; WINDOW_WIDTH]; WINDOW_HEIGHT],
    in_use: bool,
    win_num: char,
    contents: [[char; INTERIOR_WIDTH]; INTERIOR_HEIGHT],
    foreground: [[Color; WINDOW_WIDTH]; WINDOW_HEIGHT],
    background: [[Color; WINDOW_WIDTH]; WINDOW_HEIGHT],
    current_highlighted: usize,
    is_being_edited: bool,
    showing_listing: bool,
    current_contents_index: usize,
    current_file: [u8; MAX_FILENAME_BYTES],
    all_contents_u8: [u8; MAX_FILE_BYTES],
    current_u8_index: usize,
}

impl Window {
    /// The pane as its model.
    pub closed spec fn view(&self) -> PaneModel {
        PaneModel {
            grid: grid_cells(self.vga),
            foreground: grid_cells(self.foreground),
            background: grid_cells(self.background),
            interior: interior_cells(self.contents),
            raw_bytes: self.all_contents_u8@,
            edit_cursor: self.current_contents_index as int,
            byte_cursor: self.current_u8_index as int,
            highlight_index: self.current_highlighted as int,
            selected: self.in_use,
            being_edited: self.is_being_edited,
            listing: self.showing_listing,
            bound_filename: self.current_file@,
            label: self.win_num,
        }
    }

    /// A blank pane with the given label.
    pub fn new(win_num: char) -> (w: Self)
        ensures
            w@ == PaneModel::blank(win_num),
            w@.wf(),
    {
        let w = Window {
            vga: [['\0'; 35]; 12],
            in_use: false,
            win_num,
            contents: [['\0'; 33]; 10],
            foreground: [[Color::White; 35]; 12],
            background: [[Color::Black; 35]; 12],
            current_highlighted: 0,
            is_being_edited: false,
            showing_listing: false,
            current_contents_index: 0,
            current_file: [42u8; 10],
            all_contents_u8: [0u8; 2048],
            current_u8_index: 0,
        };
        proof {
            let m = PaneModel::blank(win_num);
            assert(w@.grid =~= m.grid);
            assert(w@.foreground =~= m.foreground);
            assert(w@.background =~= m.background);
            assert(w@.interior =~= m.interior);
            assert(w@.raw_bytes =~= m.raw_bytes);
            assert(w@.bound_filename =~= m.bound_filename);
        }
        w
    }

    /// Marks the pane as selected or not.
    pub fn set_in_use(&mut self, val: bool)
        ensures
            old(self)@.wf() ==> final(self)@.wf(),
            final(self)@ == (PaneModel { selected: val, ..old(self)@ }),
    {
        self.in_use = val;
    }

    /// Writes `c` into interior cell `k` and into the grid cell that shows it.
    fn put_cell(&mut self, k: usize, c: char)
        ensures
            final(self)@ == old(self)@.put_cell(k as int, c),
    {
        if k < 330 {
            let row = k / 33;
            let col = k % 33;
            self.contents[row][col] = c;
            self.vga[row + 1][col + 1] = c;
            proof {
                let m = old(self)@.put_cell(k as int, c);
                assert(self@.interior =~= m.interior);
                assert(self@.grid =~= m.grid);
            }
        }
    }

    /// Replaces the interior and shows it in the grid.
    pub fn update_contents(&mut self, c: [[char; INTERIOR_WIDTH]; INTERIOR_HEIGHT])
        ensures
            old(self)@.wf() ==> final(self)@.wf(),
            final(self)@ == old(self)@.set_contents(interior_cells(c)),
    {
        proof {
            if self@.wf() {
                lemma_set_contents_wf(self@, interior_cells(c));
            }
        }
        self.contents = c;
        let mut k: usize = 0;
        while k < 330
            invariant
                k <= 330,
                self.contents == c,
                forall|g: int|
                    0 <= g < 420 ==> #[trigger] grid_cells(self.vga)[g] == (if is_inner(g)
                        && interior_index(g) < k {
                        interior_cells(c)[interior_index(g)]
                    } else {
                        old(self)@.grid[g]
                    }),
                self.foreground == old(self).foreground,
                self.background == old(self).background,
                self.all_contents_u8 == old(self).all_contents_u8,
                self.current_file == old(self).current_file,
                self.current_contents_index == old(self).current_contents_index,
                self.current_u8_index == old(self).current_u8_index,
                self.current_highlighted == old(self).current_highlighted,
                self.in_use == old(self).in_use,
                self.is_being_edited == old(self).is_being_edited,
                self.showing_listing == old(self).showing_listing,
                self.win_num == old(self).win_num,
            decreases 330 - k,
        {
            let row = k / 33;
            let col = k % 33;
            let ghost before = self.vga;
            self.vga[row + 1][col + 1] = c[row][col];
            proof {
                assert forall|g: int| 0 <= g < 420 implies #[trigger] grid_cells(self.vga)[g] == (if g
                    == grid_index(k as int) {
                    interior_cells(c)[k as int]
                } else {
                    grid_cells(before)[g]
                }) by {
                    if g / 35 == row + 1 && g % 35 == col + 1 {
                        assert(g == grid_index(k as int));
                    }
                }
                assert forall|g: int| 0 <= g < 420 && is_inner(g) implies (interior_index(g) == k
                    <==> g == grid_index(k as int)) by {}
            }
            k += 1;
        }
        proof {
            let m = old(self)@.set_contents(interior_cells(c));
            assert(self@.grid =~= m.grid);
        }
    }

    /// Moves the byte cursor behind the last raw byte that is not zero.
    pub fn find_u8_index(&mut self)
        ensures
            old(self)@.wf() ==> final(self)@.wf(),
            final(self)@ == old(self)@.find_byte_end(),
    {
        proof {
            if self@.wf() {
                lemma_find_end_wf(self@);
            }
        }
        let mut k: usize = 2048;
        while k > 0 && self.all_contents_u8[k - 1] == 0
            invariant
                k <= 2048,
                *self == *old(self),
                forall|i: int| k <= i < 2048 ==> self.all_contents_u8@[i] == 0u8,
            decreases k,
        {
            k -= 1;
        }
        proof {
            lemma_content_end_unique(self.all_contents_u8@, 0u8, k as int);
        }
        self.current_u8_index = k;
    }

    /// Moves the edit cursor behind the last interior cell that is not blank.
    pub fn find_contents_index(&mut self)
        ensures
            old(self)@.wf() ==> final(self)@.wf(),
            final(self)@ == old(self)@.find_content_end(),
    {
        proof {
            if self@.wf() {
                lemma_find_end_wf(self@);
            }
        }
        let mut k: usize = 330;
        while k > 0 && self.contents[(k - 1) / 33][(k - 1) % 33] == '\0'
            invariant
                k <= 330,
                *self == *old(self),
                forall|i: int| k <= i < 330 ==> interior_cells(self.contents)[i] == '\0',
            decreases k,
        {
            k -= 1;
        }
        proof {
            lemma_content_end_unique(interior_cells(self.contents), '\0', k as int);
        }
        self.current_contents_index = k;
    }

    /// Whether the edit cursor may retreat one more cell after an erase.
    fn can_settle(&self) -> (r: bool)
        ensures
            r == (1 < self@.edit_cursor < 330 && self@.edit_cursor % 33 != 0 && blank_before(
                self@.interior,
                self@.edit_cursor,
            )),
    {
        let k = self.current_contents_index;
        if 1 < k && k < 330 && k % 33 != 0 {
            let before = self.contents[(k - 1) / 33][(k - 1) % 33];
            let before_that = self.contents[(k - 2) / 33][(k - 2) % 33];
            before == '\0' || (before == ' ' && before_that == '\0')
        } else {
            false
        }
    }

    /// Lets the edit cursor retreat over the blanks that end its row.
    fn settle(&mut self)
        ensures
            final(self)@ == old(self)@.settle(),
    {
        let mut go = self.can_settle();
        while go
            invariant
                self@.settle() == old(self)@.settle(),
                go == (1 < self@.edit_cursor < 330 && self@.edit_cursor % 33 != 0 && blank_before(
                    self@.interior,
                    self@.edit_cursor,
                )),
            decreases self.current_contents_index,
        {
            self.current_contents_index = self.current_contents_index - 1;
            self.put_cell(self.current_contents_index, '\0');
            go = self.can_settle();
        }
    }

    /// Types one character at the cursors.
    ///
    /// With the edit cursor at capacity nothing happens. The erase sentinel
    /// is written without advancing the cursors.
    pub fn type_char(&mut self, c: char)
        ensures
            old(self)@.wf() ==> final(self)@.wf(),
            final(self)@ == old(self)@.type_char(c),
    {
        proof {
            if self@.wf() {
                lemma_type_char_wf(self@, c);
            }
        }
        if self.current_contents_index < 330 {
            let k = self.current_contents_index;
            self.put_cell(k, if c == '\n' { ' ' } else { c });
            let at = self.current_u8_index;
            if at < 2048 {
                self.all_contents_u8[at] = #[verifier::truncate] (c as u8);
            }
            if c != '\0' {
                self.current_contents_index = k + 1;
                if at < 2048 {
                    self.current_u8_index = at + 1;
                }
            } else {
                self.settle();
            }
        }
    }

    /// Breaks the line: the edit cursor goes to the first column of the next
    /// row. On the last row nothing happens.
    pub fn edit_press_enter(&mut self)
        ensures
            old(self)@.wf() ==> final(self)@.wf(),
            final(self)@ == old(self)@.newline(),
    {
        proof {
            if self@.wf() {
                lemma_newline_wf(self@);
            }
        }
        if self.current_contents_index < 330 {
            let row = self.current_contents_index / 33 + 1;
            if row < 10 {
                self.put_cell(row * 33 + 1, ' ');
                let at = self.current_u8_index;
                if at < 2048 {
                    self.all_contents_u8[at] = 10u8;
                    self.current_u8_index = at + 1;
                }
                self.current_contents_index = row * 33;
            }
        }
    }

    /// Erases the character before the edit cursor.
    pub fn erase(&mut self)
        ensures
            old(self)@.wf() ==> final(self)@.wf(),
            final(self)@ == old(self)@.erase(),
    {
        proof {
            if self@.wf() {
                lemma_erase_wf(self@);
            }
        }
        if self.current_contents_index > 0 {
            self.find_u8_index();
            self.current_contents_index = self.current_contents_index - 1;
            if self.current_u8_index > 0 {
                self.current_u8_index = self.current_u8_index - 1;
            }
            self.type_char('\0');
        }
    }

    /// Handles one key of the text keyboard: backspace erases, a line feed
    /// breaks the line, any other character is typed.
    pub fn edit_key(&mut self, key: char)
        ensures
            old(self)@.wf() ==> final(self)@.wf(),
            final(self)@ == old(self)@.edit_key(key),
    {
        proof {
            if self@.wf() {
                lemma_edit_key_wf(self@, key);
            }
        }
        if key == '\u{8}' {
            self.erase();
        } else if key == '\n' {
            self.edit_press_enter();
        } else {
            self.type_char(key);
        }
    }

    /// Types the bytes of `bytes` as characters, one after another.
    pub fn type_bytes(&mut self, bytes: &[u8])
        ensures
            old(self)@.wf() ==> final(self)@.wf(),
            final(self)@ == old(self)@.type_all(bytes@.map_values(|b: u8| b as char)),
    {
        proof {
            if self@.wf() {
                lemma_type_all_wf(self@, bytes@.map_values(|b: u8| b as char));
            }
        }
        let ghost typed = bytes@.map_values(|b: u8| b as char);
        let mut i: usize = 0;
        while i < bytes.len()
            invariant
                i <= bytes.len(),
                typed == bytes@.map_values(|b: u8| b as char),
                self@ == old(self)@.type_all(typed.take(i as int)),
            decreases bytes.len() - i,
        {
            proof {
                assert(typed.take(i + 1).drop_last() =~= typed.take(i as int));
            }
            self.type_char(bytes[i] as char);
            i += 1;
        }
        proof {
            assert(typed.take(i as int) =~= typed);
        }
    }

    /// Takes one batch of program output: types every byte, then breaks the
    /// line once.
    pub fn append_output(&mut self, bytes: &[u8])
        ensures
            old(self)@.wf() ==> final(self)@.wf(),
            final(self)@ == old(self)@.append_output(bytes@),
    {
        proof {
            if self@.wf() {
                lemma_append_output_wf(self@, bytes@);
            }
        }
        self.type_bytes(bytes);
        self.edit_press_enter();
    }

    /// Moves the highlight one step in `direction`, unless that would leave
    /// the listing.
    pub fn navigate(&mut self, direction: Direction)
        ensures
            final(self)@ == old(self)@.navigate(direction),
            0 <= old(self)@.highlight_index < 30 ==> 0 <= final(self)@.highlight_index < 30,
            old(self)@.wf() ==> final(self)@.wf(),
    {
        let h = self.current_highlighted;
        if h < 30 {
            match direction {
                Direction::Left => {
                    if h >= 1 {
                        self.current_highlighted = h - 1;
                    }
                },
                Direction::Right => {
                    if h + 1 < 30 {
                        self.current_highlighted = h + 1;
                    }
                },
                Direction::Up => {
                    if h >= 3 {
                        self.current_highlighted = h - 3;
                    }
                },
                Direction::Down => {
                    if h + 3 < 30 {
                        self.current_highlighted = h + 3;
                    }
                },
            }
        }
    }

    /// Restores every cell to white on black.
    pub fn reset_colors(&mut self)
        ensures
            old(self)@.wf() ==> final(self)@.wf(),
            final(self)@ == old(self)@.reset_colors(),
    {
        proof {
            if self@.wf() {
                lemma_colors_wf(self@);
            }
        }
        self.foreground = [[Color::White; 35]; 12];
        self.background = [[Color::Black; 35]; 12];
        proof {
            let m = old(self)@.reset_colors();
            assert(self@.foreground =~= m.foreground);
            assert(self@.background =~= m.background);
        }
    }

    /// Writes `c` into grid cell `g`.
    fn put_grid(&mut self, g: usize, c: char)
        requires
            g < 420,
        ensures
            final(self)@ == (PaneModel { grid: old(self)@.grid.update(g as int, c), ..old(self)@ }),
    {
        self.vga[g / 35][g % 35] = c;
        proof {
            assert(self@.grid =~= old(self)@.grid.update(g as int, c));
        }
    }

    /// Colours grid cell `g`.
    fn paint(&mut self, g: usize, foreground: Color, background: Color)
        requires
            g < 420,
        ensures
            final(self)@ == (PaneModel {
                foreground: old(self)@.foreground.update(g as int, foreground),
                background: old(self)@.background.update(g as int, background),
                ..old(self)@
            }),
    {
        self.foreground[g / 35][g % 35] = foreground;
        self.background[g / 35][g % 35] = background;
        proof {
            assert(self@.foreground =~= old(self)@.foreground.update(g as int, foreground));
            assert(self@.background =~= old(self)@.background.update(g as int, background));
        }
    }

    /// Recolours the pane: white on black, and in a listing the highlighted
    /// entry black on white.
    pub fn update_colors(&mut self)
        ensures
            old(self)@.wf() ==> final(self)@.wf(),
            final(self)@ == old(self)@.highlight_colors(),
    {
        proof {
            if self@.wf() {
                lemma_colors_wf(self@);
            }
        }
        self.reset_colors();
        let h = self.current_highlighted;
        if self.showing_listing && h < 30 {
            let first = (h / ENTRIES_PER_ROW + 1) * WINDOW_WIDTH + (h % ENTRIES_PER_ROW)
                * MAX_FILENAME_BYTES + 1;
            let mut i: usize = 0;
            while i < 10
                invariant
                    i <= 10,
                    h < 30,
                    first == (h / 3 + 1) * 35 + (h % 3) * 10 + 1,
                    self@ == (PaneModel {
                        foreground: self@.foreground,
                        background: self@.background,
                        ..old(self)@
                    }),
                    self@.foreground.len() == 420,
                    self@.background.len() == 420,
                    forall|g: int|
                        0 <= g < 420 ==> #[trigger] self@.foreground[g] == (if first <= g < first + i {
                            Color::Black
                        } else {
                            Color::White
                        }),
                    forall|g: int|
                        0 <= g < 420 ==> #[trigger] self@.background[g] == (if first <= g < first + i {
                            Color::White
                        } else {
                            Color::Black
                        }),
                decreases 10 - i,
            {
                self.paint(first + i, Color::Black, Color::White);
                i += 1;
            }
            proof {
                let m = old(self)@.highlight_colors();
                assert forall|g: int| 0 <= g < 420 implies (in_entry(h as int, g) <==> first <= g
                    < first + 10) by {}
                assert(self@.foreground =~= m.foreground);
                assert(self@.background =~= m.background);
            }
        }
    }

    /// Draws the border ring: dots, or stars when the pane is selected, and
    /// the pane's label in the top row.
    fn draw_ring(&mut self)
        ensures
            final(self)@ == old(self)@.ring(),
    {
        let border_char = if self.in_use { '*' } else { '.' };
        let label = self.win_num;
        let mut g: usize = 0;
        while g < 420
            invariant
                g <= 420,
                border_char == (if old(self)@.selected { '*' } else { '.' }),
                label == old(self)@.label,
                self@ == (PaneModel { grid: self@.grid, ..old(self)@ }),
                self@.grid.len() == 420,
                forall|x: int|
                    0 <= x < 420 ==> #[trigger] self@.grid[x] == (if x < g && !is_inner(x) {
                        old(self)@.ring_cell(x)
                    } else {
                        old(self)@.grid[x]
                    }),
            decreases 420 - g,
        {
            let i = g / 35;
            let j = g % 35;
            if i == 0 || i == 11 || j == 0 || j == 34 {
                if g == LABEL_COLUMN {
                    self.put_grid(g, 'F');
                } else if g == LABEL_COLUMN + 1 {
                    self.put_grid(g, label);
                } else {
                    self.put_grid(g, border_char);
                }
            }
            g += 1;
        }
        proof {
            assert(self@.grid =~= old(self)@.ring().grid);
        }
    }

    /// Writes the title of a pane being edited into the top border: the
    /// colours are reset, the tag is written, and behind it each byte of the
    /// bound file name that `shown` marks, black on white.
    pub fn show_title(&mut self, shown: &[bool; MAX_FILENAME_BYTES])
        ensures
            old(self)@.wf() ==> final(self)@.wf(),
            final(self)@ == old(self)@.title_with(shown@),
    {
        proof {
            if self@.wf() {
                lemma_title_wf(self@, shown@);
            }
        }
        self.reset_colors();
        self.put_grid(2, '(');
        self.put_grid(3, 'F');
        self.put_grid(4, '6');
        self.put_grid(5, ')');
        let mut i: usize = 0;
        while i < 10
            invariant
                i <= 10,
                self@ == (PaneModel {
                    grid: self@.grid,
                    foreground: self@.foreground,
                    background: self@.background,
                    ..old(self)@
                }),
                self.current_file@ == old(self)@.bound_filename,
                self@.grid.len() == 420,
                self@.foreground.len() == 420,
                self@.background.len() == 420,
                forall|g: int|
                    0 <= g < 420 ==> #[trigger] self@.grid[g] == (if 2 <= g < 6 {
                        title_tag()[g - 2]
                    } else if shows_name(shown@, g) && g < 6 + i {
                        old(self)@.bound_filename[g - 6] as char
                    } else {
                        old(self)@.grid[g]
                    }),
                forall|g: int|
                    0 <= g < 420 ==> #[trigger] self@.foreground[g] == (if shows_name(shown@, g) && g
                        < 6 + i {
                        Color::Black
                    } else {
                        Color::White
                    }),
                forall|g: int|
                    0 <= g < 420 ==> #[trigger] self@.background[g] == (if shows_name(shown@, g) && g
                        < 6 + i {
                        Color::White
                    } else {
                        Color::Black
                    }),
            decreases 10 - i,
        {
            if shown[i] {
                let c = self.current_file[i] as char;
                self.put_grid(i + 6, c);
                self.paint(i + 6, Color::Black, Color::White);
            }
            i += 1;
        }
        proof {
            let m = old(self)@.title_with(shown@);
            assert(self@.grid =~= m.grid);
            assert(self@.foreground =~= m.foreground);
            assert(self@.background =~= m.background);
        }
    }

    /// Writes the title of a pane being edited into the top border: the tag
    /// and the alphanumeric bytes of the bound file name.
    pub fn start_editing(&mut self)
        ensures
            old(self)@.wf() ==> final(self)@.wf(),
            final(self)@ == old(self)@.title_overlay(),
    {
        proof {
            if self@.wf() {
                lemma_render_borders_wf(self@);
                lemma_title_wf(self@, name_mask(self@.bound_filename));
            }
        }
        let mut shown = [false; 10];
        let mut i: usize = 0;
        while i < 10
            invariant
                i <= 10,
                *self == *old(self),
                forall|k: int| 0 <= k < i ==> shown@[k] == name_mask(self.current_file@)[k],
            decreases 10 - i,
        {
            shown[i] = is_alphanumeric(self.current_file[i] as char);
            i += 1;
        }
        proof {
            assert(shown@ =~= name_mask(self.current_file@));
        }
        self.show_title(&shown);
    }

    /// Draws the border: the ring, and over it the title when the pane is
    /// being edited.
    pub fn update_borders(&mut self)
        ensures
            old(self)@.wf() ==> final(self)@.wf(),
            final(self)@ == old(self)@.render_borders(),
    {
        proof {
            if self@.wf() {
                lemma_render_borders_wf(self@);
            }
        }
        self.draw_ring();
        if self.is_being_edited {
            self.start_editing();
        }
    }

    /// Shows `text` wrapped at `width` columns, at most the interior's width,
    /// and puts the edit cursor behind its last cell that is not blank.
    pub fn write_wrapped(&mut self, text: &[char; INTERIOR_CELLS], width: usize)
        ensures
            old(self)@.wf() ==> final(self)@.wf(),
            final(self)@ == old(self)@.show_wrapped(text@, wrap_width(width)),
    {
        let width = if width <= INTERIOR_WIDTH { width } else { INTERIOR_WIDTH };
        proof {
            if self@.wf() {
                lemma_show_wrapped_wf(self@, text@, width as int);
            }
        }
        let mut c = [['\0'; 33]; 10];
        let mut row: usize = 0;
        let mut col: usize = 0;
        let mut i: usize = 0;
        proof {
            assert(text@.take(0).len() == 0);
            assert(interior_cells(c) =~= wrap(text@.take(0), width as int).cells);
        }
        while i < 330
            invariant
                i <= 330,
                width <= 33,
                row <= i,
                col <= width || col <= 1,
                wrap(text@.take(i as int), width as int) == (Wrapped {
                    cells: interior_cells(c),
                    row: row as int,
                    col: col as int,
                }),
            decreases 330 - i,
        {
            let ch = text[i];
            proof {
                assert(text@.take(i + 1).drop_last() =~= text@.take(i as int));
                assert(text@.take(i + 1).last() == ch);
            }
            let ghost before = c;
            if ch == '\n' {
                row = row + 1;
                col = 0;
            } else {
                if col >= width {
                    row = row + 1;
                    col = 0;
                }
                if row < 10 && col < 33 {
                    c[row][col] = ch;
                    proof {
                        assert(interior_cells(c) =~= interior_cells(before).update(
                            row * 33 + col,
                            ch,
                        ));
                    }
                    col = col + 1;
                }
            }
            i += 1;
        }
        proof {
            assert(text@.take(330) =~= text@);
        }
        self.update_contents(c);
        self.find_contents_index();
    }

    /// Shows a directory listing, three names to a row, and marks the pane as
    /// showing one.
    pub fn show_listing(&mut self, directory: &[[u8; MAX_FILENAME_BYTES]; MAX_FILES_STORED])
        ensures
            old(self)@.wf() ==> final(self)@.wf(),
            final(self)@ == old(self)@.show_listing(directory_names(*directory)),
    {
        proof {
            if self@.wf() {
                lemma_show_listing_wf(self@, directory_names(*directory));
            }
        }
        let mut text = ['\0'; 330];
        let mut k: usize = 0;
        while k < 300
            invariant
                k <= 300,
                forall|j: int|
                    0 <= j < 330 ==> #[trigger] text@[j] == (if j < k {
                        directory@[j / 10]@[j % 10] as char
                    } else {
                        '\0'
                    }),
            decreases 300 - k,
        {
            text[k] = directory[k / 10][k % 10] as char;
            k += 1;
        }
        proof {
            assert(text@ =~= listing_text(directory_names(*directory)));
        }
        self.showing_listing = true;
        self.is_being_edited = false;
        self.write_wrapped(&text, LISTING_WIDTH);
    }

    /// Opens a file for editing: binds `name`, takes `contents` as the raw
    /// bytes (what does not fit is dropped) and shows them.
    pub fn open_file(&mut self, name: [u8; MAX_FILENAME_BYTES], contents: &[u8])
        ensures
            old(self)@.wf() ==> final(self)@.wf(),
            final(self)@ == old(self)@.open_file(name@, contents@),
    {
        proof {
            if self@.wf() {
                lemma_open_file_wf(self@, name@, contents@);
            }
        }
        let mut raw = [0u8; 2048];
        let mut i: usize = 0;
        while i < 2048 && i < contents.len()
            invariant
                i <= 2048,
                i <= contents.len(),
                forall|j: int|
                    0 <= j < 2048 ==> #[trigger] raw@[j] == (if j < i { contents@[j] } else { 0u8 }),
            decreases 2048 - i,
        {
            raw[i] = contents[i];
            i += 1;
        }
        let mut text = ['\0'; 330];
        let mut k: usize = 0;
        while k < 330
            invariant
                k <= 330,
                forall|j: int|
                    0 <= j < 330 ==> #[trigger] text@[j] == (if j < k { raw@[j] as char } else { '\0' }),
            decreases 330 - k,
        {
            text[k] = raw[k] as char;
            k += 1;
        }
        proof {
            assert(raw@ =~= padded(contents@));
            assert(text@ =~= file_text(raw@));
        }
        self.is_being_edited = true;
        self.showing_listing = false;
        self.current_file = name;
        self.all_contents_u8 = raw;
        self.find_u8_index();
        self.write_wrapped(&text, INTERIOR_WIDTH);
    }

    /// Takes the pane out of the editor, leaving its text as it is.
    pub fn stop_editing(&mut self)
        ensures
            old(self)@.wf() ==> final(self)@.wf(),
            final(self)@ == (PaneModel { being_edited: false, ..old(self)@ }),
    {
        self.is_being_edited = false;
    }

    /// Blanks the pane: no content, no raw bytes, both cursors at the start.
    pub fn blank(&mut self)
        ensures
            old(self)@.wf() ==> final(self)@.wf(),
            final(self)@ == old(self)@.blanked(),
    {
        proof {
            if self@.wf() {
                lemma_blanked_wf(self@);
            }
        }
        let empty = [['\0'; 33]; 10];
        self.update_contents(empty);
        self.all_contents_u8 = [0u8; 2048];
        self.current_u8_index = 0;
        self.current_contents_index = 0;
        proof {
            let m = old(self)@.blanked();
            assert(interior_cells(empty) =~= Seq::new(330, |k: int| '\0'));
            assert(self@.raw_bytes =~= m.raw_bytes);
        }
    }

    /// Hands the pane to a program: binds `name` and blanks the pane.
    pub fn begin_run(&mut self, name: [u8; MAX_FILENAME_BYTES])
        ensures
            old(self)@.wf() ==> final(self)@.wf(),
            final(self)@ == old(self)@.begin_run(name@),
    {
        proof {
            if self@.wf() {
                lemma_blanked_wf(self@);
            }
        }
        self.blank();
        self.is_being_edited = false;
        self.showing_listing = false;
        self.current_file = name;
    }

    /// Leaves the editor and the listing, and blanks the pane.
    pub fn close(&mut self)
        ensures
            old(self)@.wf() ==> final(self)@.wf(),
            final(self)@ == old(self)@.closed(),
    {
        proof {
            if self@.wf() {
                lemma_blanked_wf(self@);
            }
        }
        self.blank();
        self.is_being_edited = false;
        self.showing_listing = false;
    }

    /// The bytes to persist: the raw bytes up to the last one that is not zero.
    pub fn saved_bytes(&self) -> (bytes: Vec<u8>)
        ensures
            bytes@ == self@.saved_bytes(),
    {
        let mut end: usize = 2048;
        while end > 0 && self.all_contents_u8[end - 1] == 0
            invariant
                end <= 2048,
                forall|i: int| end <= i < 2048 ==> self.all_contents_u8@[i] == 0u8,
            decreases end,
        {
            end -= 1;
        }
        proof {
            lemma_content_end_unique(self.all_contents_u8@, 0u8, end as int);
        }
        let mut bytes: Vec<u8> = Vec::new();
        let mut i: usize = 0;
        while i < end
            invariant
                i <= end,
                end <= 2048,
                bytes@ == self.all_contents_u8@.take(i as int),
            decreases end - i,
        {
            bytes.push(self.all_contents_u8[i]);
            proof {
                assert(bytes@ =~= self.all_contents_u8@.take(i + 1));
            }
            i += 1;
        }
        bytes
    }

    /// The character in row `row`, column `col` of the grid, or the blank
    /// outside the grid.
    pub fn cell(&self, row: usize, col: usize) -> (c: char)
        ensures
            c == (if row < 12 && col < 35 { self@.grid[row * 35 + col] } else { '\0' }),
    {
        if row < 12 && col < 35 {
            self.vga[row][col]
        } else {
            '\0'
        }
    }

    /// The foreground colour in row `row`, column `col` of the grid, or white
    /// outside the grid.
    pub fn foreground_at(&self, row: usize, col: usize) -> (c: Color)
        ensures
            c == (if row < 12 && col < 35 { self@.foreground[row * 35 + col] } else { Color::White }),
    {
        if row < 12 && col < 35 {
            self.foreground[row][col]
        } else {
            Color::White
        }
    }

    /// The background colour in row `row`, column `col` of the grid, or black
    /// outside the grid.
    pub fn background_at(&self, row: usize, col: usize) -> (c: Color)
        ensures
            c == (if row < 12 && col < 35 { self@.background[row * 35 + col] } else { Color::Black }),
    {
        if row < 12 && col < 35 {
            self.background[row][col]
        } else {
            Color::Black
        }
    }

    /// The character in row `row`, column `col` of the interior, or the blank
    /// outside the interior.
    pub fn content_at(&self, row: usize, col: usize) -> (c: char)
        ensures
            c == (if row < 10 && col < 33 { self@.interior[row * 33 + col] } else { '\0' }),
    {
        if row < 10 && col < 33 {
            self.contents[row][col]
        } else {
            '\0'
        }
    }

    /// Raw byte `i`, or zero past capacity.
    pub fn raw_byte(&self, i: usize) -> (b: u8)
        ensures
            b == (if i < 2048 { self@.raw_bytes[i as int] } else { 0u8 }),
    {
        if i < 2048 {
            self.all_contents_u8[i]
        } else {
            0
        }
    }

    /// The edit cursor: an offset into the interior.
    pub fn edit_cursor(&self) -> (k: usize)
        ensures
            k == self@.edit_cursor,
    {
        self.current_contents_index
    }

    /// The byte cursor: an offset into the raw bytes.
    pub fn byte_cursor(&self) -> (k: usize)
        ensures
            k == self@.byte_cursor,
    {
        self.current_u8_index
    }

    /// The highlighted directory entry.
    pub fn highlighted(&self) -> (h: usize)
        ensures
            h == self@.highlight_index,
    {
        self.current_highlighted
    }

    /// Whether the pane is selected.
    pub fn is_selected(&self) -> (b: bool)
        ensures
            b == self@.selected,
    {
        self.in_use
    }

    /// Whether the pane is being edited.
    pub fn is_being_edited(&self) -> (b: bool)
        ensures
            b == self@.being_edited,
    {
        self.is_being_edited
    }

    /// Whether the pane shows a directory listing.
    pub fn is_listing(&self) -> (b: bool)
        ensures
            b == self@.listing,
    {
        self.showing_listing
    }

    /// The name of the file bound to the pane.
    pub fn bound_filename(&self) -> (name: [u8; MAX_FILENAME_BYTES])
        ensures
            name@ == self@.bound_filename,
    {
        self.current_file
    }
}

/// The name records of a directory as sequences of bytes.
pub open spec fn directory_names(directory: [[u8; MAX_FILENAME_BYTES]; MAX_FILES_STORED]) -> Seq<Seq<u8>> {
    Seq::new(30, |i: int| directory@[i]@)
}

} // verus!
