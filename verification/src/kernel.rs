//! The desktop: four panes, three program slots advanced in strict rotation,
//! the keyboard router, and the compositor of the screen.

use vstd::prelude::*;
use pc_keyboard::DecodedKey;
use crate::geometry::{
    BUFFER_HEIGHT, BUFFER_WIDTH, INTERIOR_CELLS, INTERIOR_WIDTH, LISTING_WIDTH,
    MAX_FILENAME_BYTES, MAX_FILES_STORED, MAX_RUN_INPUT, MAX_USER_INPUT_BYTES, NOTICE_WIDTH,
    NUM_SLOTS, NUM_WINDOWS, PROMPT_LEN, TASK_MANAGER_WIDTH,
};
use crate::chars::{alphanumeric, digit_to_char, is_alphanumeric, is_drawable};
use crate::desk::{done_marker, error_marker, tick_digits, DeskModel, SlotModel};
use crate::desk_laws::{
    law_key_keeps_invariant, law_turn_keeps_invariant, lemma_cancel_wf, lemma_draw_proc_status_wf,
    lemma_draw_wf, lemma_edit_file_text_wf, lemma_files_wf, lemma_handle_raw_wf,
    lemma_handle_unicode_wf, lemma_listing_wf, lemma_move_highlight_wf, lemma_report_failure_wf,
    lemma_update_in_use_wf, lemma_write_to_window_wf,
};
use crate::events::{
    decode, event_of, reported, ControlKey, KeyEvent, Request, StepReport, TickOutcome, Turn,
};
use crate::output::KernelOutput;
use crate::pane::{Color, Direction};
use crate::window::{directory_names, Window};

verus! {

/// One of the three program slots: the scheduler's record of a program.
#[derive(Clone, Copy)]
pub struct Slot {
    active: bool,
    awaiting_input: bool,
    line_ready: bool,
    pending: [char; MAX_RUN_INPUT],
    pending_len: usize,
    tick_count: usize,
}

impl Slot {
    /// The slot as its model.
    pub closed spec fn view(&self) -> SlotModel {
        SlotModel {
            active: self.active,
            awaiting_input: self.awaiting_input,
            line_ready: self.line_ready,
            pending_line: self.pending@.take(
                if self.pending_len <= 20 { self.pending_len as int } else { 20 },
            ),
            tick_count: self.tick_count as int,
        }
    }

    /// A slot without a program.
    pub fn new() -> (s: Self)
        ensures
            s@ == SlotModel::idle(),
    {
        let s = Slot {
            active: false,
            awaiting_input: false,
            line_ready: false,
            pending: ['\0'; 20],
            pending_len: 0,
            tick_count: 0,
        };
        proof {
            assert(s@.pending_line =~= Seq::empty());
        }
        s
    }

    /// A slot whose program has just been loaded.
    pub fn started() -> (s: Self)
        ensures
            s@ == SlotModel::started(),
    {
        let mut s = Slot::new();
        s.active = true;
        s
    }

    /// Counts one more step, unless the count is at its largest value.
    fn tick(&mut self)
        ensures
            final(self)@ == old(self)@.ticked(),
    {
        if self.tick_count < usize::MAX {
            self.tick_count = self.tick_count + 1;
        }
    }

    /// Ends the program: the slot is inactive, with no flag set.
    fn stop(&mut self)
        ensures
            final(self)@ == old(self)@.stopped(),
    {
        self.active = false;
        self.awaiting_input = false;
        self.line_ready = false;
    }

    /// Marks the program as waiting for a line of input.
    fn await_input(&mut self)
        ensures
            final(self)@ == (SlotModel { awaiting_input: true, ..old(self)@ }),
    {
        self.awaiting_input = true;
    }

    /// Marks the pending line as entered.
    fn flush_line(&mut self)
        ensures
            final(self)@ == (SlotModel { line_ready: true, ..old(self)@ }),
    {
        self.line_ready = true;
    }

    /// Forgets the pending line once it has been handed to the program.
    fn deliver(&mut self)
        ensures
            final(self)@ == old(self)@.delivered(),
    {
        self.awaiting_input = false;
        self.line_ready = false;
        self.pending_len = 0;
        proof {
            assert(self@.pending_line =~= Seq::empty());
        }
    }

    /// Appends `c` to the pending line; the caller has checked that it fits.
    fn push_pending(&mut self, c: char)
        requires
            old(self)@.pending_line.len() < 20,
        ensures
            final(self)@ == (SlotModel {
                pending_line: old(self)@.pending_line.push(c),
                ..old(self)@
            }),
    {
        let n = self.pending_len;
        self.pending[n] = c;
        self.pending_len = n + 1;
        proof {
            assert(self@.pending_line =~= old(self)@.pending_line.push(c));
        }
    }

    /// Removes the last character of the pending line; the caller has checked
    /// that there is one.
    fn pop_pending(&mut self)
        requires
            old(self)@.pending_line.len() > 0,
        ensures
            final(self)@ == (SlotModel {
                pending_line: old(self)@.pending_line.drop_last(),
                ..old(self)@
            }),
    {
        let n = if self.pending_len <= 20 { self.pending_len } else { 20 };
        self.pending_len = n - 1;
        proof {
            assert(self@.pending_line =~= old(self)@.pending_line.drop_last());
        }
    }

    /// The number of characters of the pending line.
    fn pending_count(&self) -> (n: usize)
        ensures
            n == self@.pending_line.len(),
            n <= 20,
    {
        if self.pending_len <= 20 {
            self.pending_len
        } else {
            20
        }
    }

    /// Whether a program is loaded and not finished.
    pub fn is_active(&self) -> (b: bool)
        ensures
            b == self@.active,
    {
        self.active
    }

    /// Whether the program waits for a line of input.
    pub fn is_awaiting_input(&self) -> (b: bool)
        ensures
            b == self@.awaiting_input,
    {
        self.awaiting_input
    }

    /// Whether the line the program waits for has been entered.
    pub fn is_line_ready(&self) -> (b: bool)
        ensures
            b == self@.line_ready,
    {
        self.line_ready
    }

    /// The steps the program has taken without ending or blocking.
    pub fn tick_count(&self) -> (n: usize)
        ensures
            n == self@.tick_count,
    {
        self.tick_count
    }

    /// The line entered so far for the program.
    pub fn pending_line(&self) -> (line: Vec<char>)
        ensures
            line@ == self@.pending_line,
    {
        let n = if self.pending_len <= 20 { self.pending_len } else { 20 };
        let mut line: Vec<char> = Vec::new();
        let mut i: usize = 0;
        while i < n
            invariant
                i <= n,
                n <= 20,
                line@ == self.pending@.take(i as int),
            decreases n - i,
        {
            line.push(self.pending[i]);
            proof {
                assert(line@ =~= self.pending@.take(i + 1));
            }
            i += 1;
        }
        line
    }
}

/// The desktop.
pub struct Kernel {
    screen: [[char; BUFFER_WIDTH]; BUFFER_HEIGHT],
    foreground: [[Color; BUFFER_WIDTH]; BUFFER_HEIGHT],
    background: [[Color; BUFFER_WIDTH]; BUFFER_HEIGHT],
    task_manager: [[char; TASK_MANAGER_WIDTH]; BUFFER_HEIGHT],
    panes: [Window; NUM_WINDOWS],
    slots: [Slot; NUM_SLOTS],
    in_use: usize,
    user_is_typing: bool,
    editing: bool,
    user_input: [char; MAX_USER_INPUT_BYTES],
    current_user_input_index: usize,
    notice: [char; NOTICE_WIDTH],
    turn_index: usize,
}

/// The cells of a screen-sized array, row by row.
pub open spec fn screen_cells<T>(a: [[T; BUFFER_WIDTH]; BUFFER_HEIGHT]) -> Seq<T> {
    Seq::new(2000, |k: int| a@[k / 80]@[k % 80])
}

/// The cells of a sidebar-sized array, row by row.
pub open spec fn sidebar_cells(a: [[char; TASK_MANAGER_WIDTH]; BUFFER_HEIGHT]) -> Seq<char> {
    Seq::new(250, |k: int| a@[k / 10]@[k % 10])
}

impl Kernel {
    /// The desktop as its model.
    pub closed spec fn view(&self) -> DeskModel {
        DeskModel {
            panes: Seq::new(4, |i: int| self.panes@[i]@),
            slots: Seq::new(3, |i: int| self.slots@[i]@),
            turn_index: self.turn_index as int,
            selected: self.in_use as int,
            typing_filename: self.user_is_typing,
            editing: self.editing,
            input_line: self.user_input@,
            input_len: self.current_user_input_index as int,
            notice: self.notice@,
            sidebar: sidebar_cells(self.task_manager),
            screen: screen_cells(self.screen),
            screen_foreground: screen_cells(self.foreground),
            screen_background: screen_cells(self.background),
        }
    }

    /// The desktop at start.
    pub fn new() -> (k: Self)
        ensures
            k@ == DeskModel::initial(),
            k@.wf(),
    {
        let k = Kernel {
            screen: [['\0'; 80]; 25],
            foreground: [[Color::White; 80]; 25],
            background: [[Color::Black; 80]; 25],
            task_manager: [['\0'; 10]; 25],
            panes: [Window::new('1'), Window::new('2'), Window::new('3'), Window::new('4')],
            slots: [Slot::new(), Slot::new(), Slot::new()],
            in_use: 0,
            user_is_typing: false,
            editing: false,
            user_input: [
                'F', '5', ' ', '-', ' ', 'F', 'i', 'l', 'e', 'n', 'a', 'm', 'e', ':', ' ', '\0',
                '\0', '\0', '\0', '\0', '\0', '\0', '\0', '\0', '\0',
            ],
            current_user_input_index: PROMPT_LEN,
            notice: ['\0'; 45],
            turn_index: 0,
        };
        proof {
            let m = DeskModel::initial();
            assert(k@.panes =~= m.panes);
            assert(k@.slots =~= m.slots);
            assert(k@.input_line =~= m.input_line);
            assert(k@.notice =~= m.notice);
            assert(k@.sidebar =~= m.sidebar);
            assert(k@.screen =~= m.screen);
            assert(k@.screen_foreground =~= m.screen_foreground);
            assert(k@.screen_background =~= m.screen_background);
        }
        k
    }

    /// A copy of pane `i` (0 to 3); of the last pane for a larger `i`.
    pub fn pane(&self, i: usize) -> (w: Window)
        ensures
            w@ == self@.panes[if i < 4 { i as int } else { 3 }],
    {
        if i < 4 {
            self.panes[i]
        } else {
            self.panes[3]
        }
    }

    /// A copy of slot `i` (0 to 2); of the last slot for a larger `i`.
    pub fn slot(&self, i: usize) -> (s: Slot)
        ensures
            s@ == self@.slots[if i < 3 { i as int } else { 2 }],
    {
        if i < 3 {
            self.slots[i]
        } else {
            self.slots[2]
        }
    }

    /// Replaces pane `i`.
    fn put_pane(&mut self, i: usize, w: Window)
        requires
            i < 4,
        ensures
            final(self)@ == old(self)@.set_pane(i as int, w@),
    {
        self.panes[i] = w;
        proof {
            assert(self@.panes =~= old(self)@.panes.update(i as int, w@));
            assert(self@.slots =~= old(self)@.slots);
        }
    }

    /// Replaces slot `i`.
    fn put_slot(&mut self, i: usize, s: Slot)
        requires
            i < 3,
        ensures
            final(self)@ == old(self)@.set_slot(i as int, s@),
    {
        self.slots[i] = s;
        proof {
            assert(self@.slots =~= old(self)@.slots.update(i as int, s@));
            assert(self@.panes =~= old(self)@.panes);
        }
    }

    /// The number of the selected pane, 1 to 4, or 0 when none is selected.
    pub fn selected(&self) -> (n: usize)
        ensures
            n == self@.selected,
    {
        self.in_use
    }

    /// Whether a file name is being entered.
    pub fn is_typing_filename(&self) -> (b: bool)
        ensures
            b == self@.typing_filename,
    {
        self.user_is_typing
    }

    /// Whether the editor is open.
    pub fn is_editing(&self) -> (b: bool)
        ensures
            b == self@.editing,
    {
        self.editing
    }

    /// The index of the slot whose turn is next.
    pub fn turn_index(&self) -> (t: usize)
        ensures
            t == self@.turn_index,
    {
        self.turn_index
    }

    /// Makes pane `i` (1 to 4) the selected pane, or none for any other `i`,
    /// and shows it in the borders and on the screen. Selecting a pane ends
    /// the entry of a file name. While the editor is open the selection stays
    /// as it is.
    pub fn update_in_use(&mut self, i: usize)
        ensures
            old(self)@.wf() ==> final(self)@.wf(),
            final(self)@ == old(self)@.update_in_use(i as int),
    {
        proof {
            if self@.wf() {
                lemma_update_in_use_wf(self@, i as int, false);
            }
        }
        if !self.editing {
            let n = if 1 <= i && i <= 4 { i } else { 0 };
            self.panes[0].set_in_use(n == 1);
            self.panes[1].set_in_use(n == 2);
            self.panes[2].set_in_use(n == 3);
            self.panes[3].set_in_use(n == 4);
            self.in_use = n;
            self.user_is_typing = self.user_is_typing && n == 0;
            proof {
                let m = DeskModel {
                    typing_filename: old(self)@.typing_filename && !(1 <= i <= 4),
                    ..old(self)@.select(i as int)
                };
                assert(self@.panes =~= m.panes);
                assert(self@.slots =~= m.slots);
            }
            self.update_borders();
            self.update_screen();
        }
    }

    /// Draws every pane's border anew.
    pub fn update_borders(&mut self)
        ensures
            old(self)@.wf() ==> final(self)@.wf(),
            final(self)@ == old(self)@.update_borders(),
    {
        proof {
            if self@.wf() {
                lemma_draw_wf(self@);
            }
        }
        self.panes[0].update_borders();
        self.panes[1].update_borders();
        self.panes[2].update_borders();
        self.panes[3].update_borders();
        proof {
            assert(self@.panes =~= old(self)@.update_borders().panes);
            assert(self@.slots =~= old(self)@.slots);
        }
    }

    /// Computes every pane's colours anew.
    pub fn update_colors(&mut self)
        ensures
            old(self)@.wf() ==> final(self)@.wf(),
            final(self)@ == old(self)@.update_colors(),
    {
        proof {
            if self@.wf() {
                lemma_draw_wf(self@);
            }
        }
        self.panes[0].update_colors();
        self.panes[1].update_colors();
        self.panes[2].update_colors();
        self.panes[3].update_colors();
        proof {
            assert(self@.panes =~= old(self)@.update_colors().panes);
            assert(self@.slots =~= old(self)@.slots);
        }
    }

    /// What the composed screen shows at row `i`, column `j`: the character
    /// and its foreground and background colours.
    fn composed_cell(&self, i: usize, j: usize) -> (r: (char, Color, Color))
        requires
            i < 25,
            j < 80,
        ensures
            r.0 == self@.screen_char(i as int, j as int),
            r.1 == self@.screen_fg(i as int, j as int),
            r.2 == self@.screen_bg(i as int, j as int),
    {
        if 1 <= i && i <= 23 && j <= 68 {
            let p: usize = (if i < 12 { 0 } else { 2 }) + (if j < 34 { 0 } else { 1 });
            let row: usize = if i < 12 { i - 1 } else { i - 12 };
            let col: usize = if j < 34 { j } else { j - 34 };
            let c = self.panes[p].cell(row, col);
            let n = self.in_use;
            let held = 1 <= n && n <= 4 && (if n <= 2 { i <= 12 } else { 12 <= i }) && (if n % 2
                == 1 { j <= 34 } else { 34 <= j });
            let shown = if c == '.' && (i == 12 || j == 34) && held { '*' } else { c };
            (shown, self.panes[p].foreground_at(row, col), self.panes[p].background_at(row, col))
        } else if i <= 23 && j >= 70 {
            (self.task_manager[i][j - 70], Color::White, Color::Black)
        } else if i == 0 && j < 25 {
            (self.user_input[j], Color::White, Color::Black)
        } else if i == 0 && j < 70 {
            (self.notice[j - 25], Color::White, Color::Black)
        } else {
            ('\0', Color::White, Color::Black)
        }
    }

    /// Writes one cell of the screen.
    fn put_screen(&mut self, k: usize, c: char, foreground: Color, background: Color)
        requires
            k < 2000,
        ensures
            final(self)@ == (DeskModel {
                screen: old(self)@.screen.update(k as int, c),
                screen_foreground: old(self)@.screen_foreground.update(k as int, foreground),
                screen_background: old(self)@.screen_background.update(k as int, background),
                ..old(self)@
            }),
    {
        self.screen[k / 80][k % 80] = c;
        self.foreground[k / 80][k % 80] = foreground;
        self.background[k / 80][k % 80] = background;
        proof {
            assert(self@.screen =~= old(self)@.screen.update(k as int, c));
            assert(self@.screen_foreground =~= old(self)@.screen_foreground.update(
                k as int,
                foreground,
            ));
            assert(self@.screen_background =~= old(self)@.screen_background.update(
                k as int,
                background,
            ));
            assert(self@.panes =~= old(self)@.panes);
            assert(self@.slots =~= old(self)@.slots);
        }
    }

    /// Composes the screen from the panes, the input line and the sidebar.
    pub fn update_screen(&mut self)
        ensures
            old(self)@.wf() ==> final(self)@.wf(),
            final(self)@ == old(self)@.compose(),
    {
        proof {
            if self@.wf() {
                lemma_draw_wf(self@);
            }
        }
        let mut k: usize = 0;
        while k < 2000
            invariant
                k <= 2000,
                self@ == (DeskModel {
                    screen: self@.screen,
                    screen_foreground: self@.screen_foreground,
                    screen_background: self@.screen_background,
                    ..old(self)@
                }),
                self@.screen.len() == 2000,
                self@.screen_foreground.len() == 2000,
                self@.screen_background.len() == 2000,
                forall|x: int|
                    0 <= x < k ==> #[trigger] self@.screen[x] == old(self)@.screen_char(x / 80, x % 80),
                forall|x: int|
                    0 <= x < k ==> #[trigger] self@.screen_foreground[x] == old(self)@.screen_fg(
                        x / 80,
                        x % 80,
                    ),
                forall|x: int|
                    0 <= x < k ==> #[trigger] self@.screen_background[x] == old(self)@.screen_bg(
                        x / 80,
                        x % 80,
                    ),
            decreases 2000 - k,
        {
            let cell = self.composed_cell(k / 80, k % 80);
            self.put_screen(k, cell.0, cell.1, cell.2);
            k += 1;
        }
        proof {
            let m = old(self)@.compose();
            assert(self@.screen =~= m.screen);
            assert(self@.screen_foreground =~= m.screen_foreground);
            assert(self@.screen_background =~= m.screen_background);
        }
    }

    /// Redraws: colours, then borders, then the screen.
    pub fn draw(&mut self)
        ensures
            old(self)@.wf() ==> final(self)@.wf(),
            final(self)@ == old(self)@.draw(),
    {
        proof {
            if self@.wf() {
                lemma_draw_wf(self@);
            }
        }
        self.update_colors();
        self.update_borders();
        self.update_screen();
    }

    /// The character at row `row`, column `col` of the screen, or the blank
    /// outside it.
    pub fn screen_at(&self, row: usize, col: usize) -> (c: char)
        ensures
            c == (if row < 25 && col < 80 { self@.screen[row * 80 + col] } else { '\0' }),
    {
        if row < 25 && col < 80 {
            self.screen[row][col]
        } else {
            '\0'
        }
    }

    /// The foreground colour at row `row`, column `col` of the screen, or
    /// white outside it.
    pub fn foreground_at(&self, row: usize, col: usize) -> (c: Color)
        ensures
            c == (if row < 25 && col < 80 {
                self@.screen_foreground[row * 80 + col]
            } else {
                Color::White
            }),
    {
        if row < 25 && col < 80 {
            self.foreground[row][col]
        } else {
            Color::White
        }
    }

    /// The background colour at row `row`, column `col` of the screen, or
    /// black outside it.
    pub fn background_at(&self, row: usize, col: usize) -> (c: Color)
        ensures
            c == (if row < 25 && col < 80 {
                self@.screen_background[row * 80 + col]
            } else {
                Color::Black
            }),
    {
        if row < 25 && col < 80 {
            self.background[row][col]
        } else {
            Color::Black
        }
    }

    /// The four cells that show the tick count of sidebar entry `spot`.
    pub fn tick_numbers(&self, spot: usize) -> (r: (char, char, char, char))
        ensures
            seq![r.0, r.1, r.2, r.3] == tick_digits(self@.ticks_of(spot as int)),
    {
        let n: usize = if spot < 3 { self.slots[spot].tick_count } else { 0 };
        let m: usize = n % 10000;
        let d1 = digit_to_char((m / 1000) as u8);
        let d2 = digit_to_char((m / 100 % 10) as u8);
        let d3 = digit_to_char((m / 10 % 10) as u8);
        let d4 = digit_to_char((m % 10) as u8);
        let r = if m >= 1000 {
            (d1, d2, d3, d4)
        } else if m >= 100 {
            (d2, d3, d4, ' ')
        } else if m >= 10 {
            (d3, d4, ' ', ' ')
        } else {
            (d4, ' ', ' ', ' ')
        };
        proof {
            assert(seq![r.0, r.1, r.2, r.3] =~= tick_digits(self@.ticks_of(spot as int)));
        }
        r
    }

    /// Writes one cell of the sidebar.
    fn put_sidebar(&mut self, k: usize, c: char)
        requires
            k < 250,
        ensures
            final(self)@ == (DeskModel {
                sidebar: old(self)@.sidebar.update(k as int, c),
                ..old(self)@
            }),
    {
        self.task_manager[k / 10][k % 10] = c;
        proof {
            assert(self@.sidebar =~= old(self)@.sidebar.update(k as int, c));
            assert(self@.panes =~= old(self)@.panes);
            assert(self@.slots =~= old(self)@.slots);
        }
    }

    /// Draws the status sidebar: for each pane its key and, below it, the
    /// tick count of its slot.
    pub fn draw_proc_status(&mut self)
        ensures
            old(self)@.wf() ==> final(self)@.wf(),
            final(self)@ == old(self)@.draw_proc_status(),
    {
        proof {
            if self@.wf() {
                lemma_draw_proc_status_wf(self@);
            }
        }
        let mut p: usize = 0;
        while p < 4
            invariant
                p <= 4,
                self@ == (DeskModel { sidebar: self@.sidebar, ..old(self)@ }),
                self@.sidebar.len() == 250,
                forall|k: int|
                    0 <= k < 250 ==> #[trigger] self@.sidebar[k] == (if k < 20 * p {
                        old(self)@.status_cell(k)
                    } else {
                        old(self)@.sidebar[k]
                    }),
            decreases 4 - p,
        {
            let ticks = self.tick_numbers(p);
            let ghost digits = tick_digits(old(self)@.ticks_of(p as int));
            assert(digits == seq![ticks.0, ticks.1, ticks.2, ticks.3]);
            assert(digits[0] == ticks.0 && digits[1] == ticks.1 && digits[2] == ticks.2 && digits[3]
                == ticks.3);
            self.put_sidebar(20 * p, 'F');
            self.put_sidebar(20 * p + 1, digit_to_char((p + 1) as u8));
            self.put_sidebar(20 * p + 10, ticks.0);
            self.put_sidebar(20 * p + 11, ticks.1);
            self.put_sidebar(20 * p + 12, ticks.2);
            self.put_sidebar(20 * p + 13, ticks.3);
            p += 1;
        }
        proof {
            let m = DeskModel {
                sidebar: Seq::new(250, |k: int| old(self)@.status_cell(k)),
                ..old(self)@
            };
            assert(self@.sidebar =~= m.sidebar);
        }
        self.update_screen();
    }

    /// Shows `contents` in pane `window_num` (1 to 4), wrapped at the
    /// listing's width, or at the interior's width while the editor is open.
    pub fn write_to_window(&mut self, window_num: usize, contents: [char; INTERIOR_CELLS])
        ensures
            old(self)@.wf() ==> final(self)@.wf(),
            final(self)@ == old(self)@.write_to_window(window_num as int, contents@),
    {
        proof {
            if self@.wf() {
                lemma_write_to_window_wf(self@, window_num as int, contents@);
            }
        }
        if 1 <= window_num && window_num <= 4 {
            let width: usize = if self.editing { INTERIOR_WIDTH } else { LISTING_WIDTH };
            let mut w = self.pane(window_num - 1);
            w.write_wrapped(&contents, width);
            self.put_pane(window_num - 1, w);
        }
        self.update_screen();
    }

    /// Whether pane `i` (0 to 3) has a slot with a program loaded.
    fn slot_active(&self, i: usize) -> (b: bool)
        ensures
            b == self@.slot_active(i as int),
    {
        i < 3 && self.slots[i].active
    }

    /// Whether pane `i` (0 to 3) may show a listing.
    fn may_list(&self, i: usize) -> (b: bool)
        ensures
            b == self@.may_list(i as int),
    {
        !(self.editing && self.in_use >= 1 && self.in_use - 1 == i) && !self.slot_active(i)
    }

    /// Whether the keyboard moves the highlight and opens files.
    fn browsing(&self) -> (b: bool)
        ensures
            b == self@.browsing(),
    {
        let n = self.in_use;
        !self.user_is_typing && !self.editing && 1 <= n && n <= 4 && self.panes[n - 1].is_listing()
            && !self.slot_active(n - 1)
    }

    /// Whether the keyboard is captured by a blocked program: the selected
    /// pane's slot waits for a line that has not been entered yet.
    pub fn wait_check(&self) -> (b: bool)
        ensures
            b == self@.input_blocked(),
    {
        let n = self.in_use;
        1 <= n && n <= 3 && self.slots[n - 1].active && self.slots[n - 1].awaiting_input
            && !self.slots[n - 1].line_ready
    }

    /// Returns the selected pane to the directory listing, if it is neither in
    /// the editor nor running a program, and redraws.
    pub fn default_window(&mut self, directory: &[[u8; MAX_FILENAME_BYTES]; MAX_FILES_STORED])
        ensures
            old(self)@.wf() ==> final(self)@.wf(),
            final(self)@ == old(self)@.default_window(directory_names(*directory)),
    {
        proof {
            if self@.wf() {
                lemma_listing_wf(self@, directory_names(*directory));
            }
        }
        let n = self.in_use;
        if 1 <= n && n <= 4 && self.may_list(n - 1) {
            let mut w = self.pane(n - 1);
            w.show_listing(directory);
            self.put_pane(n - 1, w);
        }
        self.draw();
    }

    /// Shows the directory in every pane that is neither in the editor nor
    /// running a program, and redraws.
    pub fn make_initial_files(&mut self, directory: &[[u8; MAX_FILENAME_BYTES]; MAX_FILES_STORED])
        ensures
            old(self)@.wf() ==> final(self)@.wf(),
            final(self)@ == old(self)@.make_initial_files(directory_names(*directory)),
    {
        proof {
            if self@.wf() {
                lemma_listing_wf(self@, directory_names(*directory));
            }
        }
        let ghost names = directory_names(*directory);
        let mut i: usize = 0;
        while i < 4
            invariant
                i <= 4,
                names == directory_names(*directory),
                self@ == (DeskModel { panes: self@.panes, ..old(self)@ }),
                self@.panes.len() == 4,
                forall|p: int|
                    0 <= p < 4 ==> #[trigger] self@.panes[p] == (if p < i && old(self)@.may_list(p) {
                        old(self)@.panes[p].show_listing(names)
                    } else {
                        old(self)@.panes[p]
                    }),
            decreases 4 - i,
        {
            if self.may_list(i) {
                let mut w = self.pane(i);
                w.show_listing(directory);
                self.put_pane(i, w);
            }
            i += 1;
        }
        proof {
            let m = DeskModel {
                panes: Seq::new(
                    4,
                    |p: int|
                        if old(self)@.may_list(p) {
                            old(self)@.panes[p].show_listing(names)
                        } else {
                            old(self)@.panes[p]
                        },
                ),
                ..old(self)@
            };
            assert(self@.panes =~= m.panes);
        }
        self.draw();
    }

    /// Shows the directory in every pane that shows a listing, and redraws.
    pub fn refresh_listings(&mut self, directory: &[[u8; MAX_FILENAME_BYTES]; MAX_FILES_STORED])
        ensures
            old(self)@.wf() ==> final(self)@.wf(),
            final(self)@ == old(self)@.refresh_listings(directory_names(*directory)),
    {
        proof {
            if self@.wf() {
                lemma_listing_wf(self@, directory_names(*directory));
            }
        }
        let ghost names = directory_names(*directory);
        let mut i: usize = 0;
        while i < 4
            invariant
                i <= 4,
                names == directory_names(*directory),
                self@ == (DeskModel { panes: self@.panes, ..old(self)@ }),
                self@.panes.len() == 4,
                forall|p: int|
                    0 <= p < 4 ==> #[trigger] self@.panes[p] == (if p < i && old(self)@.panes[p].listing
                        && old(self)@.may_list(p) {
                        old(self)@.panes[p].show_listing(names)
                    } else {
                        old(self)@.panes[p]
                    }),
            decreases 4 - i,
        {
            if self.panes[i].is_listing() && self.may_list(i) {
                let mut w = self.pane(i);
                w.show_listing(directory);
                self.put_pane(i, w);
            }
            i += 1;
        }
        proof {
            let m = DeskModel {
                panes: Seq::new(
                    4,
                    |p: int|
                        if old(self)@.panes[p].listing && old(self)@.may_list(p) {
                            old(self)@.panes[p].show_listing(names)
                        } else {
                            old(self)@.panes[p]
                        },
                ),
                ..old(self)@
            };
            assert(self@.panes =~= m.panes);
        }
        self.draw();
    }

    /// Opens a file in the editor of the selected pane, if the desktop is
    /// browsing, and redraws.
    pub fn edit_file_setup(&mut self, name: [u8; MAX_FILENAME_BYTES], contents: &[u8])
        ensures
            old(self)@.wf() ==> final(self)@.wf(),
            final(self)@ == old(self)@.edit_file_setup(name@, contents@),
    {
        proof {
            if self@.wf() {
                lemma_files_wf(self@, name@, contents@);
            }
        }
        if self.browsing() {
            let n = self.in_use;
            self.editing = true;
            proof {
                assert(self@.panes =~= old(self)@.panes);
                assert(self@.slots =~= old(self)@.slots);
            }
            let mut w = self.pane(n - 1);
            w.open_file(name, contents);
            self.put_pane(n - 1, w);
        }
        self.draw();
    }

    /// Starts a program in the slot of the selected pane, if the desktop is
    /// browsing and the pane has a slot, and redraws.
    pub fn run_file(&mut self, name: [u8; MAX_FILENAME_BYTES])
        ensures
            old(self)@.wf() ==> final(self)@.wf(),
            final(self)@ == old(self)@.run_file(name@),
    {
        proof {
            if self@.wf() {
                lemma_files_wf(self@, name@, Seq::empty());
            }
        }
        if self.browsing() && self.in_use <= 3 {
            let n = self.in_use;
            let mut w = self.pane(n - 1);
            w.begin_run(name);
            self.put_pane(n - 1, w);
            self.put_slot(n - 1, Slot::started());
        }
        self.draw();
    }

    /// Applies one key to the text of the selected pane: backspace erases, a
    /// line feed breaks the line, any other character is typed.
    pub fn edit_file_text(&mut self, key: char)
        ensures
            old(self)@.wf() ==> final(self)@.wf(),
            final(self)@ == old(self)@.edit_file_text(key),
    {
        proof {
            if self@.wf() {
                lemma_edit_file_text_wf(self@, key);
            }
        }
        let n = self.in_use;
        if 1 <= n && n <= 4 {
            let mut w = self.pane(n - 1);
            w.edit_key(key);
            self.put_pane(n - 1, w);
        }
    }

    /// Closes the editor and says what to save: the selected pane's raw
    /// bytes, up to the last one that is not zero, under the bound file name.
    pub fn shut_off_editing(&mut self) -> (request: Request)
        ensures
            old(self)@.wf() ==> final(self)@.wf(),
            final(self)@ == old(self)@.shut_off_editing(),
            request@ == old(self)@.save_request(),
    {
        proof {
            if self@.wf() {
                lemma_cancel_wf(self@);
            }
        }
        let n = self.in_use;
        let was_editing = self.editing;
        self.editing = false;
        proof {
            assert(self@.panes =~= old(self)@.panes);
            assert(self@.slots =~= old(self)@.slots);
        }
        if was_editing && 1 <= n && n <= 4 {
            let mut w = self.pane(n - 1);
            let request = Request::Save { name: w.bound_filename(), bytes: w.saved_bytes() };
            w.stop_editing();
            self.put_pane(n - 1, w);
            request
        } else {
            Request::Nothing
        }
    }

    /// Moves the highlight of the selected pane, if the desktop is browsing.
    fn move_highlight(&mut self, direction: Direction)
        ensures
            final(self)@ == old(self)@.move_highlight(direction),
    {
        if self.browsing() {
            let n = self.in_use;
            let mut w = self.pane(n - 1);
            w.navigate(direction);
            self.put_pane(n - 1, w);
        }
    }

    /// Moves the highlight one entry to the left.
    pub fn move_left(&mut self)
        ensures
            old(self)@.wf() ==> final(self)@.wf(),
            final(self)@ == old(self)@.move_highlight(Direction::Left),
    {
        proof {
            if self@.wf() {
                lemma_move_highlight_wf(self@, Direction::Left);
            }
        }
        self.move_highlight(Direction::Left);
    }

    /// Moves the highlight one entry to the right.
    pub fn move_right(&mut self)
        ensures
            old(self)@.wf() ==> final(self)@.wf(),
            final(self)@ == old(self)@.move_highlight(Direction::Right),
    {
        proof {
            if self@.wf() {
                lemma_move_highlight_wf(self@, Direction::Right);
            }
        }
        self.move_highlight(Direction::Right);
    }

    /// Moves the highlight one row down.
    pub fn move_down(&mut self)
        ensures
            old(self)@.wf() ==> final(self)@.wf(),
            final(self)@ == old(self)@.move_highlight(Direction::Down),
    {
        proof {
            if self@.wf() {
                lemma_move_highlight_wf(self@, Direction::Down);
            }
        }
        self.move_highlight(Direction::Down);
    }

    /// Moves the highlight one row up.
    pub fn move_up(&mut self)
        ensures
            old(self)@.wf() ==> final(self)@.wf(),
            final(self)@ == old(self)@.move_highlight(Direction::Up),
    {
        proof {
            if self@.wf() {
                lemma_move_highlight_wf(self@, Direction::Up);
            }
        }
        self.move_highlight(Direction::Up);
    }

    /// Handles the cancel key: closes the editor, stops the program of the
    /// selected pane and blanks the pane. The request says what the storage
    /// has to do before the pane can show the directory again.
    fn cancel(&mut self) -> (request: Request)
        ensures
            final(self)@ == old(self)@.cancel(),
            request@ == old(self)@.cancel_request(),
    {
        let saved = self.shut_off_editing();
        let n = self.in_use;
        if 1 <= n && n <= 4 {
            if n <= 3 {
                self.put_slot(n - 1, Slot::new());
            }
            let mut w = self.pane(n - 1);
            w.close();
            self.put_pane(n - 1, w);
            match saved {
                Request::Save { name, bytes } => Request::Save { name, bytes },
                _ => Request::Relist,
            }
        } else {
            Request::Nothing
        }
    }

    /// Handles a key that changes the selection: it is ignored while the
    /// editor is open or the selected pane's program waits for input.
    fn select_key(&mut self, n: usize)
        requires
            n <= 4,
        ensures
            final(self)@ == (if old(self)@.selection_locked() {
                old(self)@
            } else {
                DeskModel { typing_filename: n == 0, ..old(self)@.update_in_use(n as int) }
            }),
    {
        if !self.editing && !self.wait_check() {
            self.update_in_use(n);
            self.user_is_typing = n == 0;
            proof {
                let m = DeskModel {
                    typing_filename: n == 0,
                    ..old(self)@.update_in_use(n as int)
                };
                assert(self@.panes =~= m.panes);
                assert(self@.slots =~= m.slots);
            }
        }
    }

    /// Routes a control key.
    pub fn handle_raw(&mut self, key: ControlKey) -> (request: Request)
        ensures
            old(self)@.wf() ==> final(self)@.wf(),
            final(self)@ == old(self)@.handle_raw(key),
            request@ == old(self)@.raw_request(key),
    {
        proof {
            if self@.wf() {
                lemma_handle_raw_wf(self@, key);
            }
        }
        match key {
            ControlKey::F1 => {
                self.select_key(1);
                Request::Nothing
            },
            ControlKey::F2 => {
                self.select_key(2);
                Request::Nothing
            },
            ControlKey::F3 => {
                self.select_key(3);
                Request::Nothing
            },
            ControlKey::F4 => {
                self.select_key(4);
                Request::Nothing
            },
            ControlKey::F5 => {
                self.select_key(0);
                Request::Nothing
            },
            ControlKey::F6 => self.cancel(),
            ControlKey::ArrowLeft => {
                self.move_left();
                Request::Nothing
            },
            ControlKey::ArrowRight => {
                self.move_right();
                Request::Nothing
            },
            ControlKey::ArrowUp => {
                self.move_up();
                Request::Nothing
            },
            ControlKey::ArrowDown => {
                self.move_down();
                Request::Nothing
            },
            ControlKey::Other => Request::Nothing,
        }
    }

    /// The file name entered so far, as the ten bytes of a name record.
    fn typed_name(&self) -> (name: [u8; MAX_FILENAME_BYTES])
        ensures
            name@ == self@.typed_name(),
    {
        let mut name = [0u8; 10];
        let mut k: usize = 0;
        while k < 10
            invariant
                k <= 10,
                forall|j: int| 0 <= j < k ==> #[trigger] name@[j] == self.user_input@[15 + j] as u8,
            decreases 10 - k,
        {
            name[k] = #[verifier::truncate] (self.user_input[PROMPT_LEN + k] as u8);
            k += 1;
        }
        proof {
            assert(name@ =~= self@.typed_name());
        }
        name
    }

    /// Handles a character key while a file name is entered.
    fn type_filename(&mut self, key: char, alnum: bool)
        ensures
            final(self)@ == old(self)@.type_filename(key, alnum),
    {
        let n = self.current_user_input_index;
        if alnum {
            if n < MAX_USER_INPUT_BYTES {
                self.user_input[n] = key;
                self.current_user_input_index = n + 1;
            }
        } else if key == '\u{8}' {
            if PROMPT_LEN < n && n <= MAX_USER_INPUT_BYTES {
                self.user_input[n - 1] = '\0';
                self.current_user_input_index = n - 1;
            }
        } else if key == '\n' {
            let mut k: usize = PROMPT_LEN;
            while k < MAX_USER_INPUT_BYTES
                invariant
                    15 <= k <= 25,
                    self@ == (DeskModel { input_line: self@.input_line, ..old(self)@ }),
                    self@.input_line.len() == 25,
                    forall|j: int|
                        0 <= j < 25 ==> #[trigger] self@.input_line[j] == (if 15 <= j < k {
                            '\0'
                        } else {
                            old(self)@.input_line[j]
                        }),
                decreases 25 - k,
            {
                self.user_input[k] = '\0';
                proof {
                    assert(self@.panes =~= old(self)@.panes);
                    assert(self@.slots =~= old(self)@.slots);
                }
                k += 1;
            }
            self.current_user_input_index = PROMPT_LEN;
            proof {
                assert(self@.input_line =~= old(self)@.clear_input().input_line);
            }
        }
        proof {
            let m = old(self)@.type_filename(key, alnum);
            assert(self@.panes =~= m.panes);
            assert(self@.slots =~= m.slots);
            assert(self@.input_line =~= m.input_line);
        }
    }

    /// Handles a character key while the selected pane's program waits for
    /// input.
    fn type_input(&mut self, key: char)
        requires
            old(self)@.input_blocked(),
        ensures
            final(self)@ == old(self)@.type_input(key),
    {
        let i = self.in_use - 1;
        let mut slot = self.slot(i);
        let mut w = self.pane(i);
        if key == '\n' {
            slot.flush_line();
            w.edit_press_enter();
            self.put_slot(i, slot);
            self.put_pane(i, w);
        } else if is_drawable(key) {
            if slot.pending_count() < 20 {
                slot.push_pending(key);
                w.edit_key(key);
                self.put_slot(i, slot);
                self.put_pane(i, w);
            }
        } else if key == '\u{8}' {
            if slot.pending_count() > 0 {
                slot.pop_pending();
                w.erase();
                self.put_slot(i, slot);
                self.put_pane(i, w);
            }
        }
    }

    /// Routes a character key; `alnum` says whether the character is
    /// alphanumeric.
    pub fn handle_unicode(&mut self, key: char, alnum: bool) -> (request: Request)
        ensures
            old(self)@.wf() ==> final(self)@.wf(),
            final(self)@ == old(self)@.handle_unicode(key, alnum),
            request@ == old(self)@.unicode_request(key, alnum),
    {
        proof {
            if self@.wf() {
                lemma_handle_unicode_wf(self@, key, alnum);
            }
        }
        if self.user_is_typing {
            let request = if !alnum && key == '\n' {
                Request::Create { name: self.typed_name() }
            } else {
                Request::Nothing
            };
            self.type_filename(key, alnum);
            request
        } else if self.editing {
            self.edit_file_text(key);
            Request::Nothing
        } else if self.wait_check() {
            self.type_input(key);
            Request::Nothing
        } else if self.browsing() && key == 'r' && self.in_use <= 3 {
            Request::Run { pane: self.in_use, entry: self.panes[self.in_use - 1].highlighted() }
        } else if self.browsing() && key == 'e' {
            Request::Open { pane: self.in_use, entry: self.panes[self.in_use - 1].highlighted() }
        } else {
            Request::Nothing
        }
    }

    /// Removes the notice.
    fn clear_notice(&mut self)
        ensures
            final(self)@ == old(self)@.clear_notice(),
    {
        self.notice = ['\0'; 45];
        proof {
            assert(self@.notice =~= old(self)@.clear_notice().notice);
            assert(self@.panes =~= old(self)@.panes);
            assert(self@.slots =~= old(self)@.slots);
        }
    }

    /// Shows a short message behind the input line of the top row, where it
    /// stays until the next key: the way to tell the user that the storage or
    /// a program failed. Of a longer message the first 45 bytes are shown.
    pub fn report_failure(&mut self, message: &[u8])
        ensures
            old(self)@.wf() ==> final(self)@.wf(),
            final(self)@ == old(self)@.report_failure(message@),
    {
        proof {
            if self@.wf() {
                lemma_report_failure_wf(self@, message@);
            }
        }
        let mut notice = ['\0'; 45];
        let mut k: usize = 0;
        while k < 45 && k < message.len()
            invariant
                k <= 45,
                k <= message.len(),
                forall|j: int|
                    0 <= j < 45 ==> #[trigger] notice@[j] == (if j < k {
                        message@[j] as char
                    } else {
                        '\0'
                    }),
            decreases 45 - k,
        {
            notice[k] = message[k] as char;
            k += 1;
        }
        self.notice = notice;
        proof {
            let m = DeskModel {
                notice: Seq::new(
                    45,
                    |k: int| if k < message@.len() { message@[k] as char } else { '\0' },
                ),
                ..old(self)@
            };
            assert(self@.notice =~= m.notice);
            assert(self@.panes =~= m.panes);
            assert(self@.slots =~= m.slots);
        }
        self.draw();
    }

    /// Routes a key and redraws; `alnum` says whether a character key's
    /// character is alphanumeric. The request says what the host has to ask of
    /// the storage.
    pub fn route(&mut self, event: KeyEvent, alnum: bool) -> (request: Request)
        ensures
            old(self)@.wf() ==> final(self)@.wf(),
            final(self)@ == old(self)@.key(event, alnum),
            request@ == old(self)@.key_request(event, alnum),
    {
        proof {
            if self@.wf() {
                law_key_keeps_invariant(self@, event, alnum);
            }
        }
        self.clear_notice();
        let request = match event {
            KeyEvent::Control(k) => self.handle_raw(k),
            KeyEvent::Character(c) => self.handle_unicode(c, alnum),
        };
        self.draw();
        request
    }

    /// Routes a key event and redraws.
    pub fn handle_key(&mut self, event: KeyEvent) -> (request: Request)
        ensures
            old(self)@.wf() ==> final(self)@.wf(),
            final(self)@ == old(self)@.key(event, event_alphanumeric(event)),
            request@ == old(self)@.key_request(event, event_alphanumeric(event)),
    {
        proof {
            if self@.wf() {
                law_key_keeps_invariant(self@, event, event_alphanumeric(event));
            }
        }
        let alnum = match event {
            KeyEvent::Control(_) => false,
            KeyEvent::Character(c) => is_alphanumeric(c),
        };
        self.route(event, alnum)
    }

    /// Routes a key of the keyboard driver and redraws.
    pub fn key(&mut self, key: DecodedKey) -> (request: Request)
        ensures
            old(self)@.wf() ==> final(self)@.wf(),
            final(self)@ == old(self)@.key(event_of(key), event_alphanumeric(event_of(key))),
            request@ == old(self)@.key_request(event_of(key), event_alphanumeric(event_of(key))),
    {
        let event = decode(key);
        self.handle_key(event)
    }

    /// What the scheduler asks of the host at this turn.
    pub fn plan_turn(&self) -> (turn: Turn)
        ensures
            turn@ == self@.plan_turn(),
    {
        let t = self.turn_index;
        if t < 3 && self.slots[t].active {
            if !self.slots[t].awaiting_input {
                Turn::Step { slot: t }
            } else if self.slots[t].line_ready {
                Turn::Deliver { slot: t, line: self.slots[t].pending_line() }
            } else {
                Turn::Idle
            }
        } else {
            Turn::Idle
        }
    }

    /// Takes the reported step of the program of slot `t`: its output goes
    /// into its pane, and the slot follows the outcome.
    fn apply_step(&mut self, t: usize, step: &StepReport)
        requires
            t < 3,
        ensures
            final(self)@ == old(self)@.apply_step(t as int, step@),
    {
        let mut output = KernelOutput::new(self.pane(t), t + 1);
        let mut slot = self.slot(t);
        let ghost printed = step@.printed;
        let mut i: usize = 0;
        while i < step.printed.len()
            invariant
                i <= step.printed.len(),
                printed == step@.printed,
                output@ == DeskModel::print_all(old(self)@.panes[t as int], printed.take(i as int)),
            decreases step.printed.len() - i,
        {
            proof {
                assert(printed.take(i + 1).drop_last() =~= printed.take(i as int));
            }
            output.print(step.printed[i].as_slice());
            i += 1;
        }
        proof {
            assert(printed.take(i as int) =~= printed);
        }
        let mut w = output.window();
        match step.outcome {
            TickOutcome::Continue => {
                slot.tick();
            },
            TickOutcome::Finished => {
                let marker = ['[', 'D', 'O', 'N', 'E', ']'];
                proof {
                    assert(marker@ =~= done_marker());
                }
                stamp(&mut w, &marker);
                slot.stop();
            },
            TickOutcome::AwaitInput => {
                slot.await_input();
            },
            TickOutcome::Error => {
                let marker = ['[', 'E', 'R', 'R', 'O', 'R', ']'];
                proof {
                    assert(marker@ =~= error_marker());
                }
                stamp(&mut w, &marker);
                slot.stop();
            },
        }
        self.put_pane(t, w);
        self.put_slot(t, slot);
    }

    /// One invocation of the scheduler. `step` is what the host reports of
    /// the step it ran because the plan of this turn asked for one. The turn
    /// index advances whatever happened, and the screen is redrawn.
    pub fn run_one_instruction(&mut self, step: Option<StepReport>)
        ensures
            old(self)@.wf() ==> final(self)@.wf(),
            final(self)@ == old(self)@.run_one_instruction(reported(step)),
    {
        proof {
            if self@.wf() {
                law_turn_keeps_invariant(self@, reported(step));
            }
        }
        let t = self.turn_index;
        if t < 3 && self.slots[t].active {
            if !self.slots[t].awaiting_input {
                match step {
                    Some(s) => {
                        self.apply_step(t, &s);
                    },
                    None => {},
                }
            } else if self.slots[t].line_ready {
                let mut slot = self.slot(t);
                slot.deliver();
                self.put_slot(t, slot);
            }
        }
        self.turn_index = if t < 2 { t + 1 } else { 0 };
        proof {
            assert(self@.panes =~= old(self)@.run_one_instruction_acted(reported(step)).panes);
            assert(self@.slots =~= old(self)@.run_one_instruction_acted(reported(step)).slots);
        }
        self.draw();
    }
}

/// Whether the character of a character key is alphanumeric; a control key
/// has none.
pub open spec fn event_alphanumeric(event: KeyEvent) -> bool {
    match event {
        KeyEvent::Control(_) => false,
        KeyEvent::Character(c) => alphanumeric(c),
    }
}

/// Presses the keys of `marker` in the pane, one after another.
fn stamp(w: &mut Window, marker: &[char])
    ensures
        final(w)@ == old(w)@.edit_keys(marker@),
{
    let mut i: usize = 0;
    while i < marker.len()
        invariant
            i <= marker.len(),
            w@ == old(w)@.edit_keys(marker@.take(i as int)),
        decreases marker.len() - i,
    {
        proof {
            assert(marker@.take(i + 1).drop_last() =~= marker@.take(i as int));
        }
        w.edit_key(marker[i]);
        i += 1;
    }
    proof {
        assert(marker@.take(i as int) =~= marker@);
    }
}

} // verus!
