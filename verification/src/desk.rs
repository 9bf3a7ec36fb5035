//! The mathematical model of the desktop: four panes, three program slots,
//! the keyboard router's modes, and the composed screen.

use vstd::prelude::*;
use crate::chars::{digit_char, drawable};
use crate::events::{ControlKey, KeyEvent, RequestModel, StepModel, TickOutcome, TurnModel};
use crate::pane::{Color, Direction, PaneModel};

verus! {

/// The prompt that opens the top input line.
pub open spec fn prompt() -> Seq<char> {
    seq!['F', '5', ' ', '-', ' ', 'F', 'i', 'l', 'e', 'n', 'a', 'm', 'e', ':', ' ']
}

/// The marker stamped into the pane of a program that is done.
pub open spec fn done_marker() -> Seq<char> {
    seq!['[', 'D', 'O', 'N', 'E', ']']
}

/// The marker stamped into the pane of a program that failed.
pub open spec fn error_marker() -> Seq<char> {
    seq!['[', 'E', 'R', 'R', 'O', 'R', ']']
}

/// The four cells that show a tick count in the sidebar: the decimal digits
/// of its last four places, without leading zeros, then spaces.
pub open spec fn tick_digits(n: int) -> Seq<char> {
    let m = n % 10000;
    let d1 = digit_char(m / 1000);
    let d2 = digit_char(m / 100 % 10);
    let d3 = digit_char(m / 10 % 10);
    let d4 = digit_char(m % 10);
    if m >= 1000 {
        seq![d1, d2, d3, d4]
    } else if m >= 100 {
        seq![d2, d3, d4, ' ']
    } else if m >= 10 {
        seq![d3, d4, ' ', ' ']
    } else {
        seq![d4, ' ', ' ', ' ']
    }
}

/// The pane whose cells are drawn at row `i`, column `j` of the screen: the
/// screen's rows 1 to 11 belong to the upper panes and 12 to 23 to the lower,
/// its columns 0 to 33 to the left panes and 34 to 68 to the right.
pub open spec fn pane_at(i: int, j: int) -> int {
    (if i < 12 { 0int } else { 2int }) + (if j < 34 { 0int } else { 1int })
}

/// The cell of its pane's grid that is drawn at row `i`, column `j` of the
/// screen.
pub open spec fn grid_cell_at(i: int, j: int) -> int {
    (if i < 12 { i - 1 } else { i - 12 }) * 35 + (if j < 34 { j } else { j - 34 })
}

/// Whether row `i`, column `j` of the screen shows a cell of a pane.
pub open spec fn in_panes(i: int, j: int) -> bool {
    1 <= i <= 23 && 0 <= j <= 68
}

/// Whether the quadrant of pane `n` (1 to 4) holds row `i`, column `j` of
/// the screen. Neighbouring quadrants share their edge cells.
pub open spec fn quadrant_holds(n: int, i: int, j: int) -> bool {
    &&& 1 <= n <= 4
    &&& if n <= 2 { 1 <= i <= 12 } else { 12 <= i <= 23 }
    &&& if n % 2 == 1 { 0 <= j <= 34 } else { 34 <= j <= 68 }
}

/// Whether row `i`, column `j` of the screen lies on a seam between quadrants.
pub open spec fn on_seam(i: int, j: int) -> bool {
    i == 12 || j == 34
}

/// One of the three program slots.
pub struct SlotModel {
    pub active: bool,
    pub awaiting_input: bool,
    pub line_ready: bool,
    pub pending_line: Seq<char>,
    pub tick_count: int,
}

impl SlotModel {
    /// A slot without a program.
    pub open spec fn idle() -> SlotModel {
        SlotModel {
            active: false,
            awaiting_input: false,
            line_ready: false,
            pending_line: Seq::empty(),
            tick_count: 0,
        }
    }

    /// A slot whose program has just been loaded.
    pub open spec fn started() -> SlotModel {
        SlotModel { active: true, ..SlotModel::idle() }
    }

    /// The invariant of a slot: the pending line fits, only an active slot
    /// waits for input, and only a waiting slot has a line ready.
    pub open spec fn wf(self) -> bool {
        &&& self.pending_line.len() <= 20
        &&& 0 <= self.tick_count
        &&& self.awaiting_input ==> self.active
        &&& self.line_ready ==> self.awaiting_input
    }

    /// Whether the slot's program can take a step.
    pub open spec fn runnable(self) -> bool {
        self.active && !self.awaiting_input
    }

    /// Whether the slot waits for a line that has not been entered yet.
    pub open spec fn blocked(self) -> bool {
        self.active && self.awaiting_input && !self.line_ready
    }

    /// The slot after a step that let the program go on: one more tick,
    /// unless the count is at the largest value it can hold.
    pub open spec fn ticked(self) -> SlotModel {
        SlotModel {
            tick_count: if self.tick_count < usize::MAX {
                self.tick_count + 1
            } else {
                self.tick_count
            },
            ..self
        }
    }

    /// The slot after its program ended: inactive, with no flag set.
    pub open spec fn stopped(self) -> SlotModel {
        SlotModel { active: false, awaiting_input: false, line_ready: false, ..self }
    }

    /// The slot after its line was handed to the program.
    pub open spec fn delivered(self) -> SlotModel {
        SlotModel {
            awaiting_input: false,
            line_ready: false,
            pending_line: Seq::empty(),
            ..self
        }
    }
}

/// What the desktop is.
///
/// `selected` is 0 when no pane is selected and else the number, 1 to 4, of
/// the selected pane. `input_line` holds the prompt and the file name being
/// entered, `notice` the message shown behind it; `sidebar` holds 25 rows of
/// 10 cells, `screen` and its colours 25 rows of 80 cells, row by row.
pub struct DeskModel {
    pub panes: Seq<PaneModel>,
    pub slots: Seq<SlotModel>,
    pub turn_index: int,
    pub selected: int,
    pub typing_filename: bool,
    pub editing: bool,
    pub input_line: Seq<char>,
    pub input_len: int,
    pub notice: Seq<char>,
    pub sidebar: Seq<char>,
    pub screen: Seq<char>,
    pub screen_foreground: Seq<Color>,
    pub screen_background: Seq<Color>,
}

impl DeskModel {
    /// The invariant of the desktop.
    ///
    /// Besides sizes and bounds: at most one pane is selected, and it is the
    /// pane `selected` names; the three modes of the keyboard exclude each
    /// other; a pane is being edited only while it is selected and the editor
    /// is open; and a pane with an active slot neither lists nor is edited.
    pub open spec fn wf(self) -> bool {
        &&& self.panes.len() == 4
        &&& self.slots.len() == 3
        &&& forall|i: int| 0 <= i < 4 ==> (#[trigger] self.panes[i]).wf()
        &&& forall|i: int| 0 <= i < 3 ==> (#[trigger] self.slots[i]).wf()
        &&& 0 <= self.turn_index < 3
        &&& 0 <= self.selected <= 4
        &&& self.input_line.len() == 25
        &&& 15 <= self.input_len <= 25
        &&& self.notice.len() == 45
        &&& self.sidebar.len() == 250
        &&& self.screen.len() == 2000
        &&& self.screen_foreground.len() == 2000
        &&& self.screen_background.len() == 2000
        &&& forall|i: int| 0 <= i < 4 ==> (#[trigger] self.panes[i]).selected == (self.selected == i + 1)
        &&& self.typing_filename ==> self.selected == 0
        &&& self.editing ==> 1 <= self.selected <= 4
        &&& forall|i: int|
            0 <= i < 4 ==> ((#[trigger] self.panes[i]).being_edited <==> self.editing && self.selected
                == i + 1)
        &&& forall|i: int|
            0 <= i < 3 && (#[trigger] self.slots[i]).active ==> !self.panes[i].being_edited
                && !self.panes[i].listing
    }

    /// The desktop at start: blank panes labelled 1 to 4, idle slots, nothing
    /// selected, the prompt in the input line.
    pub open spec fn initial() -> DeskModel {
        DeskModel {
            panes: seq![
                PaneModel::blank('1'),
                PaneModel::blank('2'),
                PaneModel::blank('3'),
                PaneModel::blank('4'),
            ],
            slots: seq![SlotModel::idle(), SlotModel::idle(), SlotModel::idle()],
            turn_index: 0,
            selected: 0,
            typing_filename: false,
            editing: false,
            input_line: prompt() + Seq::new(10, |k: int| '\0'),
            input_len: 15,
            notice: Seq::new(45, |k: int| '\0'),
            sidebar: Seq::new(250, |k: int| '\0'),
            screen: Seq::new(2000, |k: int| '\0'),
            screen_foreground: Seq::new(2000, |k: int| Color::White),
            screen_background: Seq::new(2000, |k: int| Color::Black),
        }
    }

    /// The desktop with pane `i` (0 to 3) replaced.
    pub open spec fn set_pane(self, i: int, pane: PaneModel) -> DeskModel {
        DeskModel { panes: self.panes.update(i, pane), ..self }
    }

    /// The desktop with slot `i` (0 to 2) replaced.
    pub open spec fn set_slot(self, i: int, slot: SlotModel) -> DeskModel {
        DeskModel { slots: self.slots.update(i, slot), ..self }
    }

    /// Whether a pane is selected.
    pub open spec fn has_selection(self) -> bool {
        1 <= self.selected <= 4
    }

    /// Whether pane `i` (0 to 3) has a slot with a program loaded.
    pub open spec fn slot_active(self, i: int) -> bool {
        0 <= i < 3 && self.slots[i].active
    }

    /// Whether the keyboard is captured by a blocked program: the selected
    /// pane's slot waits for a line that has not been entered yet.
    pub open spec fn input_blocked(self) -> bool {
        1 <= self.selected <= 3 && self.slots[self.selected - 1].blocked()
    }

    /// Whether the keyboard moves the highlight and opens files: no other
    /// mode is on, and the selected pane shows a listing.
    pub open spec fn browsing(self) -> bool {
        &&& !self.typing_filename
        &&& !self.editing
        &&& self.has_selection()
        &&& self.panes[self.selected - 1].listing
        &&& !self.slot_active(self.selected - 1)
    }

    // ---------------------------------------------------------------
    // Selection and rendering
    // ---------------------------------------------------------------

    /// Pane `n` (1 to 4) becomes the selected pane, or none for any other `n`.
    pub open spec fn select(self, n: int) -> DeskModel {
        let n = if 1 <= n <= 4 { n } else { 0 };
        DeskModel {
            selected: n,
            panes: Seq::new(4, |i: int| PaneModel { selected: n == i + 1, ..self.panes[i] }),
            ..self
        }
    }

    /// Every pane's border drawn anew.
    pub open spec fn update_borders(self) -> DeskModel {
        DeskModel { panes: Seq::new(4, |i: int| self.panes[i].render_borders()), ..self }
    }

    /// Every pane's colours computed anew.
    pub open spec fn update_colors(self) -> DeskModel {
        DeskModel { panes: Seq::new(4, |i: int| self.panes[i].highlight_colors()), ..self }
    }

    /// The character at row `i`, column `j` of the composed screen.
    ///
    /// Row 0 holds the input line, the notice and, at its right end, the
    /// sidebar; rows 1 to 23 hold the panes and the sidebar; the rest is blank. A dot on a seam
    /// between quadrants becomes a star when the selected pane's quadrant holds
    /// it.
    pub open spec fn screen_char(self, i: int, j: int) -> char {
        if 0 <= i <= 23 && 70 <= j < 80 {
            self.sidebar[i * 10 + (j - 70)]
        } else if i == 0 && 0 <= j < 25 {
            self.input_line[j]
        } else if i == 0 && 25 <= j < 70 {
            self.notice[j - 25]
        } else if in_panes(i, j) {
            let c = self.panes[pane_at(i, j)].grid[grid_cell_at(i, j)];
            if c == '.' && on_seam(i, j) && quadrant_holds(self.selected, i, j) {
                '*'
            } else {
                c
            }
        } else {
            '\0'
        }
    }

    /// The foreground colour at row `i`, column `j` of the composed screen.
    pub open spec fn screen_fg(self, i: int, j: int) -> Color {
        if in_panes(i, j) {
            self.panes[pane_at(i, j)].foreground[grid_cell_at(i, j)]
        } else {
            Color::White
        }
    }

    /// The background colour at row `i`, column `j` of the composed screen.
    pub open spec fn screen_bg(self, i: int, j: int) -> Color {
        if in_panes(i, j) {
            self.panes[pane_at(i, j)].background[grid_cell_at(i, j)]
        } else {
            Color::Black
        }
    }

    /// The screen composed from the panes, the input line and the sidebar.
    pub open spec fn compose(self) -> DeskModel {
        DeskModel {
            screen: Seq::new(2000, |k: int| self.screen_char(k / 80, k % 80)),
            screen_foreground: Seq::new(2000, |k: int| self.screen_fg(k / 80, k % 80)),
            screen_background: Seq::new(2000, |k: int| self.screen_bg(k / 80, k % 80)),
            ..self
        }
    }

    /// One redraw: colours, then borders, then the screen.
    pub open spec fn draw(self) -> DeskModel {
        self.update_colors().update_borders().compose()
    }

    /// Pane `n` is selected and the borders and the screen show it. Selecting
    /// a pane ends the entry of a file name. While the editor is open the
    /// selection stays as it is.
    pub open spec fn update_in_use(self, n: int) -> DeskModel {
        if self.editing {
            self
        } else {
            DeskModel {
                typing_filename: self.typing_filename && !(1 <= n <= 4),
                ..self.select(n)
            }.update_borders().compose()
        }
    }

    /// The tick count shown for sidebar entry `spot` (0 to 3): that of the
    /// slot, and 0 for the pane without one.
    pub open spec fn ticks_of(self, spot: int) -> int {
        if 0 <= spot < 3 { self.slots[spot].tick_count } else { 0 }
    }

    /// What cell `k` of the sidebar shows once the status is drawn: for each
    /// pane a row with its key and a row with its tick count.
    pub open spec fn status_cell(self, k: int) -> char {
        let row = k / 10;
        let col = k % 10;
        if 0 <= row < 8 && row % 2 == 0 && col == 0 {
            'F'
        } else if 0 <= row < 8 && row % 2 == 0 && col == 1 {
            digit_char(row / 2 + 1)
        } else if 0 <= row < 8 && row % 2 == 1 && col < 4 {
            tick_digits(self.ticks_of(row / 2))[col]
        } else {
            self.sidebar[k]
        }
    }

    /// The sidebar with the status drawn, and the screen composed.
    pub open spec fn draw_proc_status(self) -> DeskModel {
        DeskModel { sidebar: Seq::new(250, |k: int| self.status_cell(k)), ..self }.compose()
    }

    /// The notice becomes the first 45 bytes of `message`, and the screen is
    /// redrawn.
    pub open spec fn report_failure(self, message: Seq<u8>) -> DeskModel {
        DeskModel {
            notice: Seq::new(
                45,
                |k: int| if k < message.len() { message[k] as char } else { '\0' },
            ),
            ..self
        }.draw()
    }

    /// The desktop without a notice.
    pub open spec fn clear_notice(self) -> DeskModel {
        DeskModel { notice: Seq::new(45, |k: int| '\0'), ..self }
    }

    // ---------------------------------------------------------------
    // Showing text and listings
    // ---------------------------------------------------------------

    /// Pane `n` (1 to 4) shows `text`, wrapped at the listing's width, or at
    /// the interior's width while the editor is open; the screen is composed.
    pub open spec fn write_to_window(self, n: int, text: Seq<char>) -> DeskModel {
        (if 1 <= n <= 4 {
            self.set_pane(
                n - 1,
                self.panes[n - 1].show_wrapped(text, if self.editing { 33 } else { 30 }),
            )
        } else {
            self
        }).compose()
    }

    /// Whether pane `i` (0 to 3) may show a listing: it is not the pane in the
    /// editor and has no program loaded.
    pub open spec fn may_list(self, i: int) -> bool {
        !(self.editing && self.selected == i + 1) && !self.slot_active(i)
    }

    /// The selected pane returns to the directory listing, if it may.
    pub open spec fn default_window(self, directory: Seq<Seq<u8>>) -> DeskModel {
        (if self.has_selection() && self.may_list(self.selected - 1) {
            self.set_pane(self.selected - 1, self.panes[self.selected - 1].show_listing(directory))
        } else {
            self
        }).draw()
    }

    /// Every pane that may show a listing shows `directory`.
    pub open spec fn make_initial_files(self, directory: Seq<Seq<u8>>) -> DeskModel {
        DeskModel {
            panes: Seq::new(
                4,
                |i: int|
                    if self.may_list(i) {
                        self.panes[i].show_listing(directory)
                    } else {
                        self.panes[i]
                    },
            ),
            ..self
        }.draw()
    }

    /// Every pane that shows a listing shows `directory` instead.
    pub open spec fn refresh_listings(self, directory: Seq<Seq<u8>>) -> DeskModel {
        DeskModel {
            panes: Seq::new(
                4,
                |i: int|
                    if self.panes[i].listing && self.may_list(i) {
                        self.panes[i].show_listing(directory)
                    } else {
                        self.panes[i]
                    },
            ),
            ..self
        }.draw()
    }

    // ---------------------------------------------------------------
    // Editing and running files
    // ---------------------------------------------------------------

    /// The selected pane opens the file in the editor, if the desktop is
    /// browsing.
    pub open spec fn edit_file_setup(self, name: Seq<u8>, contents: Seq<u8>) -> DeskModel {
        (if self.browsing() {
            DeskModel { editing: true, ..self }.set_pane(
                self.selected - 1,
                self.panes[self.selected - 1].open_file(name, contents),
            )
        } else {
            self
        }).draw()
    }

    /// Whether the selected pane can start a program: the desktop is browsing
    /// and the pane has a slot.
    pub open spec fn can_run(self) -> bool {
        self.browsing() && self.selected <= 3
    }

    /// The selected pane's slot starts a program, if it can.
    pub open spec fn run_file(self, name: Seq<u8>) -> DeskModel {
        (if self.can_run() {
            self.set_pane(self.selected - 1, self.panes[self.selected - 1].begin_run(name)).set_slot(
                self.selected - 1,
                SlotModel::started(),
            )
        } else {
            self
        }).draw()
    }

    /// One key in the selected pane's text: erase, line break or character.
    pub open spec fn edit_file_text(self, key: char) -> DeskModel {
        if self.has_selection() {
            self.set_pane(self.selected - 1, self.panes[self.selected - 1].edit_key(key))
        } else {
            self
        }
    }

    /// The editor closes: the selected pane is no longer being edited.
    pub open spec fn shut_off_editing(self) -> DeskModel {
        if self.editing && self.has_selection() {
            DeskModel { editing: false, ..self }.set_pane(
                self.selected - 1,
                PaneModel { being_edited: false, ..self.panes[self.selected - 1] },
            )
        } else {
            DeskModel { editing: false, ..self }
        }
    }

    /// What closing the editor asks of the storage: to save the selected
    /// pane's raw bytes, up to the last one that is not zero, under the bound
    /// file name.
    pub open spec fn save_request(self) -> RequestModel {
        if self.editing && self.has_selection() {
            RequestModel::Save {
                name: self.panes[self.selected - 1].bound_filename,
                bytes: self.panes[self.selected - 1].saved_bytes(),
            }
        } else {
            RequestModel::Nothing
        }
    }

    // ---------------------------------------------------------------
    // The keyboard router
    // ---------------------------------------------------------------

    /// The cancel key: the editor closes, the selected pane's slot stops with
    /// its tick count reset, and the selected pane is blanked.
    pub open spec fn cancel(self) -> DeskModel {
        let d = self.shut_off_editing();
        if d.has_selection() {
            let i = d.selected - 1;
            let d = if i < 3 { d.set_slot(i, SlotModel::idle()) } else { d };
            d.set_pane(i, d.panes[i].closed())
        } else {
            d
        }
    }

    /// What the cancel key asks of the storage: to save when the editor was
    /// open, and to list the directory for the selected pane.
    pub open spec fn cancel_request(self) -> RequestModel {
        if self.editing && self.has_selection() {
            self.save_request()
        } else if self.has_selection() {
            RequestModel::Relist
        } else {
            RequestModel::Nothing
        }
    }

    /// Whether the keys that change the selection are ignored: the editor is
    /// open or the selected pane's program waits for input.
    pub open spec fn selection_locked(self) -> bool {
        self.editing || self.input_blocked()
    }

    /// The highlight of the selected pane moves, if the desktop is browsing.
    pub open spec fn move_highlight(self, direction: Direction) -> DeskModel {
        if self.browsing() {
            self.set_pane(self.selected - 1, self.panes[self.selected - 1].navigate(direction))
        } else {
            self
        }
    }

    /// The desktop after a control key.
    pub open spec fn handle_raw(self, key: ControlKey) -> DeskModel {
        match key {
            ControlKey::F1 => if self.selection_locked() {
                self
            } else {
                DeskModel { typing_filename: false, ..self.update_in_use(1) }
            },
            ControlKey::F2 => if self.selection_locked() {
                self
            } else {
                DeskModel { typing_filename: false, ..self.update_in_use(2) }
            },
            ControlKey::F3 => if self.selection_locked() {
                self
            } else {
                DeskModel { typing_filename: false, ..self.update_in_use(3) }
            },
            ControlKey::F4 => if self.selection_locked() {
                self
            } else {
                DeskModel { typing_filename: false, ..self.update_in_use(4) }
            },
            ControlKey::F5 => if self.selection_locked() {
                self
            } else {
                DeskModel { typing_filename: true, ..self.update_in_use(0) }
            },
            ControlKey::F6 => self.cancel(),
            ControlKey::ArrowLeft => self.move_highlight(Direction::Left),
            ControlKey::ArrowRight => self.move_highlight(Direction::Right),
            ControlKey::ArrowUp => self.move_highlight(Direction::Up),
            ControlKey::ArrowDown => self.move_highlight(Direction::Down),
            ControlKey::Other => self,
        }
    }

    /// What a control key asks of the storage.
    pub open spec fn raw_request(self, key: ControlKey) -> RequestModel {
        match key {
            ControlKey::F6 => self.cancel_request(),
            _ => RequestModel::Nothing,
        }
    }

    /// The file name entered so far, as the ten bytes of a name record.
    pub open spec fn typed_name(self) -> Seq<u8> {
        Seq::new(10, |k: int| self.input_line[15 + k] as u8)
    }

    /// The input line with the entered file name removed.
    pub open spec fn clear_input(self) -> DeskModel {
        DeskModel {
            input_line: Seq::new(25, |k: int| if k < 15 { self.input_line[k] } else { '\0' }),
            input_len: 15,
            ..self
        }
    }

    /// The desktop after a character key while a file name is entered: an
    /// alphanumeric character is appended if it fits, the erase key removes
    /// the last character entered, the line feed clears the entry.
    pub open spec fn type_filename(self, key: char, alnum: bool) -> DeskModel {
        if alnum {
            if 0 <= self.input_len < 25 {
                DeskModel {
                    input_line: self.input_line.update(self.input_len, key),
                    input_len: self.input_len + 1,
                    ..self
                }
            } else {
                self
            }
        } else if key == '\u{8}' {
            if 15 < self.input_len <= 25 {
                DeskModel {
                    input_line: self.input_line.update(self.input_len - 1, '\0'),
                    input_len: self.input_len - 1,
                    ..self
                }
            } else {
                self
            }
        } else if key == '\n' {
            self.clear_input()
        } else {
            self
        }
    }

    /// The desktop after a character key while the selected pane's program
    /// waits for input: the line feed makes the line ready and breaks the line
    /// in the pane; a drawable character joins the line, if it fits, and is
    /// typed into the pane; the erase key removes the line's last character
    /// from both.
    pub open spec fn type_input(self, key: char) -> DeskModel {
        let i = self.selected - 1;
        let slot = self.slots[i];
        let pane = self.panes[i];
        if key == '\n' {
            self.set_slot(i, SlotModel { line_ready: true, ..slot }).set_pane(i, pane.newline())
        } else if drawable(key) {
            if slot.pending_line.len() < 20 {
                self.set_slot(
                    i,
                    SlotModel { pending_line: slot.pending_line.push(key), ..slot },
                ).set_pane(i, pane.edit_key(key))
            } else {
                self
            }
        } else if key == '\u{8}' {
            if slot.pending_line.len() > 0 {
                self.set_slot(
                    i,
                    SlotModel { pending_line: slot.pending_line.drop_last(), ..slot },
                ).set_pane(i, pane.erase())
            } else {
                self
            }
        } else {
            self
        }
    }

    /// The desktop after a character key; `alnum` says whether the character
    /// is alphanumeric. The mode decides: file name entry, the editor, a
    /// blocked program's input, or browsing, where no character changes the
    /// desktop by itself.
    pub open spec fn handle_unicode(self, key: char, alnum: bool) -> DeskModel {
        if self.typing_filename {
            self.type_filename(key, alnum)
        } else if self.editing {
            self.edit_file_text(key)
        } else if self.input_blocked() {
            self.type_input(key)
        } else {
            self
        }
    }

    /// What a character key asks of the storage: the line feed that ends a
    /// file name entry asks to create the file; while browsing, `r` asks to run
    /// and `e` to open the highlighted entry.
    pub open spec fn unicode_request(self, key: char, alnum: bool) -> RequestModel {
        if self.typing_filename {
            if !alnum && key == '\n' {
                RequestModel::Create { name: self.typed_name() }
            } else {
                RequestModel::Nothing
            }
        } else if self.browsing() && key == 'r' && self.selected <= 3 {
            RequestModel::Run {
                pane: self.selected,
                entry: self.panes[self.selected - 1].highlight_index,
            }
        } else if self.browsing() && key == 'e' {
            RequestModel::Open {
                pane: self.selected,
                entry: self.panes[self.selected - 1].highlight_index,
            }
        } else {
            RequestModel::Nothing
        }
    }

    /// The desktop after a key: the notice goes, the router acts, then the
    /// screen is redrawn.
    pub open spec fn key(self, event: KeyEvent, alnum: bool) -> DeskModel {
        match event {
            KeyEvent::Control(k) => self.clear_notice().handle_raw(k),
            KeyEvent::Character(c) => self.clear_notice().handle_unicode(c, alnum),
        }.draw()
    }

    /// What a key asks of the storage.
    pub open spec fn key_request(self, event: KeyEvent, alnum: bool) -> RequestModel {
        match event {
            KeyEvent::Control(k) => self.raw_request(k),
            KeyEvent::Character(c) => self.unicode_request(c, alnum),
        }
    }

    // ---------------------------------------------------------------
    // The scheduler
    // ---------------------------------------------------------------

    /// What the scheduler asks of the host at this turn: nothing for an
    /// inactive slot or one that waits for a line not yet entered, to deliver
    /// the line once it is ready, and else to run one step.
    pub open spec fn plan_turn(self) -> TurnModel {
        let t = self.turn_index;
        if 0 <= t < 3 && self.slots[t].active {
            let slot = self.slots[t];
            if !slot.awaiting_input {
                TurnModel::Step { slot: t }
            } else if slot.line_ready {
                TurnModel::Deliver { slot: t, line: slot.pending_line }
            } else {
                TurnModel::Idle
            }
        } else {
            TurnModel::Idle
        }
    }

    /// The next turn index: one further round the three slots.
    pub open spec fn next_turn(self) -> int {
        if 0 <= self.turn_index < 2 { self.turn_index + 1 } else { 0 }
    }

    /// The pane after the batches of `printed` were appended, one after
    /// another.
    pub open spec fn print_all(pane: PaneModel, printed: Seq<Seq<u8>>) -> PaneModel
        decreases printed.len(),
    {
        if printed.len() == 0 {
            pane
        } else {
            Self::print_all(pane, printed.drop_last()).append_output(printed.last())
        }
    }

    /// The desktop after the program of slot `t` took the reported step: its
    /// output is in its pane, and the slot follows the outcome.
    pub open spec fn apply_step(self, t: int, step: StepModel) -> DeskModel {
        let pane = Self::print_all(self.panes[t], step.printed);
        let slot = self.slots[t];
        match step.outcome {
            TickOutcome::Continue => self.set_pane(t, pane).set_slot(t, slot.ticked()),
            TickOutcome::Finished => self.set_pane(t, pane.edit_keys(done_marker())).set_slot(
                t,
                slot.stopped(),
            ),
            TickOutcome::AwaitInput => self.set_pane(t, pane).set_slot(
                t,
                SlotModel { awaiting_input: true, ..slot },
            ),
            TickOutcome::Error => self.set_pane(t, pane.edit_keys(error_marker())).set_slot(
                t,
                slot.stopped(),
            ),
        }
    }

    /// The desktop after the slot of this turn has acted and the turn index
    /// has advanced; `step` is the host's report, if it ran a step.
    pub open spec fn run_one_instruction_acted(self, step: Option<StepModel>) -> DeskModel {
        let t = self.turn_index;
        let acted = match self.plan_turn() {
            TurnModel::Idle => self,
            TurnModel::Deliver { .. } => self.set_slot(t, self.slots[t].delivered()),
            TurnModel::Step { .. } => match step {
                Some(s) => self.apply_step(t, s),
                None => self,
            },
        };
        DeskModel { turn_index: self.next_turn(), ..acted }
    }

    /// The desktop after one invocation of the scheduler; `step` is the
    /// host's report, if it ran a step. Only the slot of this turn and its
    /// pane can change, and only as the plan of this turn says; the turn index
    /// always advances; the screen is redrawn.
    pub open spec fn run_one_instruction(self, step: Option<StepModel>) -> DeskModel {
        self.run_one_instruction_acted(step).draw()
    }
}

} // verus!
