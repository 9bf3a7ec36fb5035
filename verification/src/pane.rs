//! The mathematical model of a text pane.

use vstd::prelude::*;
use crate::chars::alphanumeric;
use crate::geometry::{grid_index, interior_index, is_inner};

verus! {

/// The two colours a pane is drawn in.
#[derive(Clone, Copy, PartialEq, Eq, Structural, Debug)]
pub enum Color {
    Black,
    White,
}

/// The four moves of the selection highlight.
#[derive(Clone, Copy, PartialEq, Eq, Structural, Debug)]
pub enum Direction {
    Left,
    Right,
    Up,
    Down,
}

/// The byte kept in the raw buffer for a typed character: its low eight bits.
pub open spec fn byte_of(c: char) -> u8 {
    c as u8
}

/// The cell shown for a typed character: a line feed shows as a space.
pub open spec fn shown(c: char) -> char {
    if c == '\n' { ' ' } else { c }
}

/// The end of the content of `s`: the index after its last cell that is not
/// `blank`, or 0 when every cell is blank.
pub open spec fn content_end<T>(s: Seq<T>, blank: T) -> int
    decreases s.len(),
{
    if s.len() == 0 {
        0
    } else if s.last() != blank {
        s.len() as int
    } else {
        content_end(s.drop_last(), blank)
    }
}

/// `content_end` is the one index with only blanks from it on and a cell
/// that is not blank just before it.
pub proof fn lemma_content_end<T>(s: Seq<T>, blank: T)
    ensures
        0 <= content_end(s, blank) <= s.len(),
        forall|i: int| content_end(s, blank) <= i < s.len() ==> s[i] == blank,
        content_end(s, blank) > 0 ==> s[content_end(s, blank) - 1] != blank,
    decreases s.len(),
{
    if s.len() > 0 && s.last() == blank {
        let t = s.drop_last();
        lemma_content_end(t, blank);
        assert forall|i: int| content_end(s, blank) <= i < s.len() implies s[i] == blank by {
            if i < t.len() {
                assert(t[i] == s[i]);
            }
        }
    }
}

/// Any index with only blanks from it on and a cell that is not blank just
/// before it is `content_end`.
pub proof fn lemma_content_end_unique<T>(s: Seq<T>, blank: T, n: int)
    requires
        0 <= n <= s.len(),
        forall|i: int| n <= i < s.len() ==> s[i] == blank,
        n > 0 ==> s[n - 1] != blank,
    ensures
        content_end(s, blank) == n,
    decreases s.len(),
{
    if s.len() > 0 && s.last() == blank {
        let t = s.drop_last();
        assert forall|i: int| n <= i < t.len() implies t[i] == blank by {
            assert(t[i] == s[i]);
        }
        if n > 0 {
            assert(t[n - 1] == s[n - 1]);
        }
        lemma_content_end_unique(t, blank, n);
    }
}

/// What a pane is: its cells, its two buffers and its cursors.
///
/// `grid`, `foreground` and `background` hold the pane's 12 rows of 35 cells
/// row by row; `interior` holds the 10 rows of 33 content cells inside the
/// border ring.
pub struct PaneModel {
    pub grid: Seq<char>,
    pub foreground: Seq<Color>,
    pub background: Seq<Color>,
    pub interior: Seq<char>,
    pub raw_bytes: Seq<u8>,
    pub edit_cursor: int,
    pub byte_cursor: int,
    pub highlight_index: int,
    pub selected: bool,
    pub being_edited: bool,
    pub listing: bool,
    pub bound_filename: Seq<u8>,
    pub label: char,
}

/// The four cells of the tag that opens the title of a pane being edited.
pub open spec fn title_tag() -> Seq<char> {
    seq!['(', 'F', '6', ')']
}

/// Which bytes of a file name are shown in a title: the alphanumeric ones.
pub open spec fn name_mask(name: Seq<u8>) -> Seq<bool> {
    Seq::new(10, |i: int| alphanumeric(name[i] as char))
}

/// Whether cell `g` of the top border shows a byte of the file name, given
/// which bytes are shown.
pub open spec fn shows_name(mask: Seq<bool>, g: int) -> bool {
    6 <= g < 16 && mask[g - 6]
}

/// Whether grid cell `g` belongs to the directory entry `h` of a listing.
pub open spec fn in_entry(h: int, g: int) -> bool {
    g / 35 == h / 3 + 1 && (h % 3) * 10 + 1 <= g % 35 <= (h % 3) * 10 + 10
}

/// Whether the cell before offset `k` of `cells` ends a run of blanks: it is
/// blank itself, or it is the space left by a line break after a blank.
pub open spec fn blank_before(cells: Seq<char>, k: int) -> bool {
    cells[k - 1] == '\0' || (cells[k - 1] == ' ' && cells[k - 2] == '\0')
}

/// Where a text being wrapped into an interior stands: the cells filled so
/// far and the row and column of the next character.
pub struct Wrapped {
    pub cells: Seq<char>,
    pub row: int,
    pub col: int,
}

/// Places one character of a text being wrapped at `width` columns. A line
/// feed opens the next row; another character first wraps when its row is
/// full, and is dropped when it falls below the tenth row.
pub open spec fn wrap_step(at: Wrapped, c: char, width: int) -> Wrapped {
    if c == '\n' {
        Wrapped { row: at.row + 1, col: 0, ..at }
    } else {
        let row = if at.col >= width { at.row + 1 } else { at.row };
        let col = if at.col >= width { 0 } else { at.col };
        if row >= 10 {
            Wrapped { row, col, ..at }
        } else {
            Wrapped { cells: at.cells.update(row * 33 + col, c), row, col: col + 1 }
        }
    }
}

/// `text` wrapped at `width` columns into a blank interior.
pub open spec fn wrap(text: Seq<char>, width: int) -> Wrapped
    decreases text.len(),
{
    if text.len() == 0 {
        Wrapped { cells: Seq::new(330, |k: int| '\0'), row: 0, col: 0 }
    } else {
        wrap_step(wrap(text.drop_last(), width), text.last(), width)
    }
}

/// The text of a directory listing: the ten bytes of each of the thirty
/// name records in storage order, and thirty blanks.
pub open spec fn listing_text(directory: Seq<Seq<u8>>) -> Seq<char> {
    Seq::new(330, |k: int| if k < 300 { directory[k / 10][k % 10] as char } else { '\0' })
}

/// The raw buffer that holds `contents`: its first 2048 bytes, then zeros.
pub open spec fn padded(contents: Seq<u8>) -> Seq<u8> {
    Seq::new(2048, |i: int| if i < contents.len() { contents[i] } else { 0u8 })
}

/// The text shown for a raw buffer: its first 330 bytes as characters.
pub open spec fn file_text(raw: Seq<u8>) -> Seq<char> {
    Seq::new(330, |k: int| raw[k] as char)
}

impl PaneModel {
    /// The invariant of a pane: every buffer has its fixed size, the cursors
    /// are within capacity, and the grid shows the interior.
    pub open spec fn wf(self) -> bool {
        &&& self.grid.len() == 420
        &&& self.foreground.len() == 420
        &&& self.background.len() == 420
        &&& self.interior.len() == 330
        &&& self.raw_bytes.len() == 2048
        &&& self.bound_filename.len() == 10
        &&& 0 <= self.edit_cursor <= 330
        &&& 0 <= self.byte_cursor <= 2048
        &&& 0 <= self.highlight_index < 30
        &&& forall|k: int| 0 <= k < 330 ==> self.grid[grid_index(k)] == #[trigger] self.interior[k]
    }

    /// A new pane: blank cells, white on black, nothing selected or bound.
    pub open spec fn blank(label: char) -> PaneModel {
        PaneModel {
            grid: Seq::new(420, |g: int| '\0'),
            foreground: Seq::new(420, |g: int| Color::White),
            background: Seq::new(420, |g: int| Color::Black),
            interior: Seq::new(330, |k: int| '\0'),
            raw_bytes: Seq::new(2048, |k: int| 0u8),
            edit_cursor: 0,
            byte_cursor: 0,
            highlight_index: 0,
            selected: false,
            being_edited: false,
            listing: false,
            bound_filename: Seq::new(10, |k: int| 42u8),
            label,
        }
    }

    /// Interior cell `k` becomes `c`, in the interior and in the grid.
    /// Nothing changes when `k` is past capacity.
    pub open spec fn put_cell(self, k: int, c: char) -> PaneModel {
        if 0 <= k < 330 {
            PaneModel {
                interior: self.interior.update(k, c),
                grid: self.grid.update(grid_index(k), c),
                ..self
            }
        } else {
            self
        }
    }

    /// Raw byte `k` becomes `b`. Nothing changes when `k` is past capacity.
    pub open spec fn put_byte(self, k: int, b: u8) -> PaneModel {
        if 0 <= k < 2048 {
            PaneModel { raw_bytes: self.raw_bytes.update(k, b), ..self }
        } else {
            self
        }
    }

    /// The interior becomes `cells`, and the grid shows it.
    pub open spec fn set_contents(self, cells: Seq<char>) -> PaneModel {
        PaneModel {
            interior: cells,
            grid: Seq::new(
                420,
                |g: int| if is_inner(g) { cells[interior_index(g)] } else { self.grid[g] },
            ),
            ..self
        }
    }

    /// The edit cursor moves to the end of the interior's content.
    pub open spec fn find_content_end(self) -> PaneModel {
        PaneModel { edit_cursor: content_end(self.interior, '\0'), ..self }
    }

    /// The byte cursor moves to the end of the raw bytes' content.
    pub open spec fn find_byte_end(self) -> PaneModel {
        PaneModel { byte_cursor: content_end(self.raw_bytes, 0u8), ..self }
    }

    /// After an erase the edit cursor retreats over the blanks that end its
    /// row, blanking each cell it leaves, and stops at the row's first column
    /// or behind the row's last cell that is not blank.
    pub open spec fn settle(self) -> PaneModel
        decreases self.edit_cursor,
    {
        let k = self.edit_cursor;
        if 1 < k < 330 && k % 33 != 0 && blank_before(self.interior, k) {
            PaneModel { edit_cursor: k - 1, ..self }.put_cell(k - 1, '\0').settle()
        } else {
            self
        }
    }

    /// One character typed at the cursors.
    ///
    /// With the edit cursor at capacity nothing happens. Otherwise the cell at
    /// the edit cursor shows `c` and the byte at the byte cursor holds it (no
    /// byte is written past capacity). A character other than the erase
    /// sentinel then advances both cursors by one; the sentinel advances
    /// neither, and lets the edit cursor settle.
    pub open spec fn type_char(self, c: char) -> PaneModel {
        if 0 <= self.edit_cursor < 330 {
            let written = self.put_cell(self.edit_cursor, shown(c)).put_byte(
                self.byte_cursor,
                byte_of(c),
            );
            if c != '\0' {
                PaneModel {
                    edit_cursor: self.edit_cursor + 1,
                    byte_cursor: if self.byte_cursor < 2048 {
                        self.byte_cursor + 1
                    } else {
                        self.byte_cursor
                    },
                    ..written
                }
            } else {
                written.settle()
            }
        } else {
            self
        }
    }

    /// The characters of `s` typed one after another.
    pub open spec fn type_all(self, s: Seq<char>) -> PaneModel
        decreases s.len(),
    {
        if s.len() == 0 {
            self
        } else {
            self.type_all(s.drop_last()).type_char(s.last())
        }
    }

    /// A line break: the edit cursor snaps to the first column of the next
    /// row, a line feed goes into the raw bytes, and the second cell of the new
    /// row is marked with a space. On the last row nothing happens.
    pub open spec fn newline(self) -> PaneModel {
        let row = self.edit_cursor / 33 + 1;
        if 0 <= self.edit_cursor && row < 10 {
            PaneModel {
                edit_cursor: row * 33,
                byte_cursor: if self.byte_cursor < 2048 {
                    self.byte_cursor + 1
                } else {
                    self.byte_cursor
                },
                ..self.put_cell(row * 33 + 1, ' ').put_byte(self.byte_cursor, 10u8)
            }
        } else {
            self
        }
    }

    /// The erase key: the cursors step back one cell and one byte behind the
    /// end of the raw content, and the erase sentinel is typed there. At the
    /// first cell nothing happens.
    pub open spec fn erase(self) -> PaneModel {
        if 0 < self.edit_cursor {
            let end = content_end(self.raw_bytes, 0u8);
            PaneModel {
                edit_cursor: self.edit_cursor - 1,
                byte_cursor: if end > 0 { end - 1 } else { 0 },
                ..self
            }.type_char('\0')
        } else {
            self
        }
    }

    /// One key of the text keyboard: erase, line break or a character.
    pub open spec fn edit_key(self, key: char) -> PaneModel {
        if key == '\u{8}' {
            self.erase()
        } else if key == '\n' {
            self.newline()
        } else {
            self.type_char(key)
        }
    }

    /// The keys of `s` pressed one after another.
    pub open spec fn edit_keys(self, s: Seq<char>) -> PaneModel
        decreases s.len(),
    {
        if s.len() == 0 {
            self
        } else {
            self.edit_keys(s.drop_last()).edit_key(s.last())
        }
    }

    /// One batch of program output: every byte typed, then one line break.
    pub open spec fn append_output(self, bytes: Seq<u8>) -> PaneModel {
        self.type_all(bytes.map_values(|b: u8| b as char)).newline()
    }

    /// The highlight moves by one entry left or right, or by one row of three
    /// entries up or down. A move that would leave the listing does nothing.
    pub open spec fn navigate(self, direction: Direction) -> PaneModel {
        let target = match direction {
            Direction::Left => self.highlight_index - 1,
            Direction::Right => self.highlight_index + 1,
            Direction::Up => self.highlight_index - 3,
            Direction::Down => self.highlight_index + 3,
        };
        if 0 <= self.highlight_index < 30 && 0 <= target < 30 {
            PaneModel { highlight_index: target, ..self }
        } else {
            self
        }
    }

    /// Every cell white on black.
    pub open spec fn reset_colors(self) -> PaneModel {
        PaneModel {
            foreground: Seq::new(420, |g: int| Color::White),
            background: Seq::new(420, |g: int| Color::Black),
            ..self
        }
    }

    /// The colours of the pane: white on black, but for the highlighted
    /// directory entry of a listing, which is black on white.
    pub open spec fn highlight_colors(self) -> PaneModel {
        let h = self.highlight_index;
        if self.listing && 0 <= h < 30 {
            PaneModel {
                foreground: Seq::new(
                    420,
                    |g: int| if in_entry(h, g) { Color::Black } else { Color::White },
                ),
                background: Seq::new(
                    420,
                    |g: int| if in_entry(h, g) { Color::White } else { Color::Black },
                ),
                ..self
            }
        } else {
            self.reset_colors()
        }
    }

    /// What a cell of the border ring shows: the pane's label in two cells of
    /// the top row, elsewhere a star when the pane is selected and a dot when
    /// it is not.
    pub open spec fn ring_cell(self, g: int) -> char {
        if g == 17 {
            'F'
        } else if g == 18 {
            self.label
        } else if self.selected {
            '*'
        } else {
            '.'
        }
    }

    /// The border ring drawn anew around an unchanged interior.
    pub open spec fn ring(self) -> PaneModel {
        PaneModel {
            grid: Seq::new(
                420,
                |g: int| if is_inner(g) { self.grid[g] } else { self.ring_cell(g) },
            ),
            ..self
        }
    }

    /// The title of a pane being edited, given which bytes of the bound file
    /// name are shown: the colours are reset, the tag is written into the top
    /// border, and behind it each shown byte of the name, black on white.
    pub open spec fn title_with(self, mask: Seq<bool>) -> PaneModel {
        let name = self.bound_filename;
        PaneModel {
            grid: Seq::new(
                420,
                |g: int|
                    if 2 <= g < 6 {
                        title_tag()[g - 2]
                    } else if shows_name(mask, g) {
                        name[g - 6] as char
                    } else {
                        self.grid[g]
                    },
            ),
            foreground: Seq::new(
                420,
                |g: int| if shows_name(mask, g) { Color::Black } else { Color::White },
            ),
            background: Seq::new(
                420,
                |g: int| if shows_name(mask, g) { Color::White } else { Color::Black },
            ),
            ..self
        }
    }

    /// The title of a pane being edited: the tag and the alphanumeric bytes
    /// of the bound file name.
    pub open spec fn title_overlay(self) -> PaneModel {
        self.title_with(name_mask(self.bound_filename))
    }

    /// The pane shows `text` wrapped at `width` columns, with the edit cursor
    /// behind its last cell that is not blank.
    pub open spec fn show_wrapped(self, text: Seq<char>, width: int) -> PaneModel {
        self.set_contents(wrap(text, width).cells).find_content_end()
    }

    /// The pane shows a directory listing, three names to a row, and is no
    /// longer being edited.
    pub open spec fn show_listing(self, directory: Seq<Seq<u8>>) -> PaneModel {
        PaneModel { listing: true, being_edited: false, ..self }.show_wrapped(
            listing_text(directory),
            30,
        )
    }

    /// The pane blanked: no content, no raw bytes, both cursors at the start.
    pub open spec fn blanked(self) -> PaneModel {
        PaneModel {
            raw_bytes: Seq::new(2048, |k: int| 0u8),
            byte_cursor: 0,
            edit_cursor: 0,
            ..self.set_contents(Seq::new(330, |k: int| '\0'))
        }
    }

    /// The pane opens a file for editing: it binds the name, takes the
    /// contents as its raw bytes with the byte cursor behind them, and shows
    /// them wrapped at the full interior width.
    pub open spec fn open_file(self, name: Seq<u8>, contents: Seq<u8>) -> PaneModel {
        PaneModel {
            being_edited: true,
            listing: false,
            bound_filename: name,
            raw_bytes: padded(contents),
            ..self
        }.find_byte_end().show_wrapped(file_text(padded(contents)), 33)
    }

    /// The pane is handed to a program: it binds the name and is blanked.
    pub open spec fn begin_run(self, name: Seq<u8>) -> PaneModel {
        PaneModel { being_edited: false, listing: false, bound_filename: name, ..self.blanked() }
    }

    /// The pane leaves the editor and the listing, and is blanked.
    pub open spec fn closed(self) -> PaneModel {
        PaneModel { being_edited: false, listing: false, ..self.blanked() }
    }

    /// The bytes to persist: the raw bytes up to the last one that is not zero.
    pub open spec fn saved_bytes(self) -> Seq<u8> {
        self.raw_bytes.take(content_end(self.raw_bytes, 0u8))
    }

    /// The border of the pane as it is drawn: the ring, and over it the title
    /// when the pane is being edited.
    pub open spec fn render_borders(self) -> PaneModel {
        if self.being_edited {
            self.ring().title_overlay()
        } else {
            self.ring()
        }
    }
}

} // verus!
