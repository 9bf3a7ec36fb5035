use pane_kernel::events::{decode, ControlKey, KeyEvent, Request, StepReport, TickOutcome, Turn};
use pane_kernel::kernel::{Kernel, Slot};
use pane_kernel::pane::Color;
use pane_kernel::window::Window;
use pc_keyboard::{DecodedKey, KeyCode};

fn name10(s: &str) -> [u8; 10] {
    let mut n = [0u8; 10];
    for (i, b) in s.bytes().enumerate() {
        n[i] = b;
    }
    n
}

fn directory(names: &[&str]) -> [[u8; 10]; 30] {
    let mut d = [[0u8; 10]; 30];
    for (i, n) in names.iter().enumerate() {
        d[i] = name10(n);
    }
    d
}

fn seeded() -> [[u8; 10]; 30] {
    directory(&["hello", "nums", "add_one", "countdown", "average", "pi"])
}

fn row_text(w: &Window, row: usize) -> String {
    let mut s = String::new();
    for col in 0..33 {
        let c = w.content_at(row, col);
        if c == '\0' {
            break;
        }
        s.push(c);
    }
    s
}

fn control(k: &mut Kernel, key: ControlKey) -> Request {
    k.handle_key(KeyEvent::Control(key))
}

fn press(k: &mut Kernel, c: char) -> Request {
    k.handle_key(KeyEvent::Character(c))
}

fn started() -> Kernel {
    let mut k = Kernel::new();
    k.make_initial_files(&seeded());
    k
}

fn step(printed: &[&[u8]], outcome: TickOutcome) -> Option<StepReport> {
    Some(StepReport { printed: printed.iter().map(|b| b.to_vec()).collect(), outcome })
}

fn is_nothing(r: &Request) -> bool {
    matches!(r, Request::Nothing)
}

#[test]
fn new_kernel_is_idle() {
    let k = Kernel::new();
    assert_eq!(k.selected(), 0);
    assert!(!k.is_typing_filename());
    assert!(!k.is_editing());
    assert_eq!(k.turn_index(), 0);
    for i in 0..3 {
        assert!(!k.slot(i).is_active());
        assert_eq!(k.slot(i).tick_count(), 0);
    }
    for i in 0..4 {
        assert!(!k.pane(i).is_selected());
        assert!(!k.pane(i).is_listing());
    }
    assert_eq!(k.screen_at(0, 0), '\0');
    assert!(matches!(k.plan_turn(), Turn::Idle));
}

#[test]
fn slot_constructors() {
    let s = Slot::new();
    assert!(!s.is_active());
    assert!(!s.is_awaiting_input());
    assert!(!s.is_line_ready());
    assert_eq!(s.tick_count(), 0);
    assert_eq!(s.pending_line(), Vec::<char>::new());
    let t = Slot::started();
    assert!(t.is_active());
    assert!(!t.is_awaiting_input());
}

#[test]
fn initial_files_are_listed_in_every_pane() {
    let k = started();
    for i in 0..4 {
        let w = k.pane(i);
        assert!(w.is_listing());
        assert_eq!(w.content_at(0, 0), 'h');
        assert_eq!(w.content_at(1, 20), 'p');
    }
    assert_eq!(k.selected(), 0);
    assert_eq!(k.screen_at(2, 1), 'h');
    assert_eq!(k.screen_at(2, 35), 'h');
    assert_eq!(k.screen_at(13, 1), 'h');
    assert_eq!(k.screen_at(13, 35), 'h');
}

#[test]
fn prompt_is_on_top_row_after_draw() {
    let mut k = Kernel::new();
    k.draw();
    let prompt = "F5 - Filename: ";
    for (j, c) in prompt.chars().enumerate() {
        assert_eq!(k.screen_at(0, j), c);
    }
    assert_eq!(k.screen_at(0, 15), '\0');
    assert_eq!(k.foreground_at(0, 0), Color::White);
    assert_eq!(k.background_at(0, 0), Color::Black);
}

#[test]
fn function_keys_select_panes() {
    let mut k = started();
    assert!(is_nothing(&control(&mut k, ControlKey::F2)));
    assert_eq!(k.selected(), 2);
    assert!(k.pane(1).is_selected());
    assert!(!k.pane(0).is_selected());
    control(&mut k, ControlKey::F4);
    assert_eq!(k.selected(), 4);
    assert!(k.pane(3).is_selected());
    assert!(!k.pane(1).is_selected());
    control(&mut k, ControlKey::F5);
    assert_eq!(k.selected(), 0);
    assert!(k.is_typing_filename());
    for i in 0..4 {
        assert!(!k.pane(i).is_selected());
    }
    control(&mut k, ControlKey::F1);
    assert_eq!(k.selected(), 1);
    assert!(!k.is_typing_filename());
    control(&mut k, ControlKey::Other);
    assert_eq!(k.selected(), 1);
}

#[test]
fn update_in_use_out_of_range_selects_none() {
    let mut k = started();
    k.update_in_use(3);
    assert_eq!(k.selected(), 3);
    k.update_in_use(7);
    assert_eq!(k.selected(), 0);
    assert!(!k.pane(2).is_selected());
}

#[test]
fn decoded_keys_are_routed() {
    let mut k = started();
    k.key(DecodedKey::RawKey(KeyCode::F3));
    assert_eq!(k.selected(), 3);
    k.key(DecodedKey::RawKey(KeyCode::ArrowRight));
    assert_eq!(k.pane(2).highlighted(), 1);
    k.key(DecodedKey::RawKey(KeyCode::ArrowDown));
    assert_eq!(k.pane(2).highlighted(), 4);
    k.key(DecodedKey::RawKey(KeyCode::ArrowLeft));
    assert_eq!(k.pane(2).highlighted(), 3);
    k.key(DecodedKey::RawKey(KeyCode::ArrowUp));
    assert_eq!(k.pane(2).highlighted(), 0);
    k.key(DecodedKey::RawKey(KeyCode::Escape));
    assert_eq!(k.selected(), 3);
    let r = k.key(DecodedKey::Unicode('r'));
    assert!(matches!(r, Request::Run { pane: 3, entry: 0 }));
    k.key(DecodedKey::RawKey(KeyCode::F5));
    assert!(k.is_typing_filename());
    k.key(DecodedKey::RawKey(KeyCode::F4));
    assert_eq!(k.selected(), 4);
    k.key(DecodedKey::RawKey(KeyCode::F2));
    assert_eq!(k.selected(), 2);
    k.key(DecodedKey::RawKey(KeyCode::F1));
    assert_eq!(k.selected(), 1);
    let r = k.key(DecodedKey::RawKey(KeyCode::F6));
    assert!(matches!(r, Request::Relist));
}

#[test]
fn decode_tells_keys_apart() {
    assert_eq!(decode(DecodedKey::Unicode('x')), KeyEvent::Character('x'));
    assert_eq!(decode(DecodedKey::RawKey(KeyCode::F1)), KeyEvent::Control(ControlKey::F1));
    assert_eq!(decode(DecodedKey::RawKey(KeyCode::F6)), KeyEvent::Control(ControlKey::F6));
    assert_eq!(
        decode(DecodedKey::RawKey(KeyCode::ArrowDown)),
        KeyEvent::Control(ControlKey::ArrowDown)
    );
    assert_eq!(decode(DecodedKey::RawKey(KeyCode::Home)), KeyEvent::Control(ControlKey::Other));
}

#[test]
fn selected_pane_has_star_border_and_seams() {
    let mut k = started();
    control(&mut k, ControlKey::F1);
    assert_eq!(k.screen_at(1, 0), '*');
    assert_eq!(k.screen_at(5, 0), '*');
    assert_eq!(k.screen_at(1, 17), 'F');
    assert_eq!(k.screen_at(1, 18), '1');
    assert_eq!(k.screen_at(5, 34), '*');
    assert_eq!(k.screen_at(12, 5), '*');
    assert_eq!(k.screen_at(12, 34), '*');
    assert_eq!(k.screen_at(12, 17), 'F');
    assert_eq!(k.screen_at(12, 18), '3');
    assert_eq!(k.screen_at(12, 40), '.');
    assert_eq!(k.screen_at(15, 34), '.');
    assert_eq!(k.screen_at(1, 40), '.');
    assert_eq!(k.screen_at(1, 68), '.');
    control(&mut k, ControlKey::F2);
    assert_eq!(k.screen_at(1, 0), '.');
    assert_eq!(k.screen_at(5, 34), '*');
    assert_eq!(k.screen_at(12, 40), '*');
    assert_eq!(k.screen_at(12, 34), '*');
    assert_eq!(k.screen_at(12, 5), '.');
    assert_eq!(k.screen_at(5, 68), '*');
    control(&mut k, ControlKey::F3);
    assert_eq!(k.screen_at(12, 5), '*');
    assert_eq!(k.screen_at(15, 34), '*');
    assert_eq!(k.screen_at(12, 34), '*');
    assert_eq!(k.screen_at(5, 34), '.');
    assert_eq!(k.screen_at(23, 3), '*');
    control(&mut k, ControlKey::F4);
    assert_eq!(k.screen_at(12, 34), '*');
    assert_eq!(k.screen_at(12, 40), '*');
    assert_eq!(k.screen_at(15, 34), '*');
    assert_eq!(k.screen_at(12, 5), '.');
    assert_eq!(k.screen_at(23, 68), '*');
    assert_eq!(k.screen_at(12, 51), 'F');
    assert_eq!(k.screen_at(12, 52), '4');
}

#[test]
fn screen_margins_are_blank() {
    let mut k = started();
    control(&mut k, ControlKey::F1);
    for j in 0..80 {
        assert_eq!(k.screen_at(24, j), '\0');
    }
    for i in 1..24 {
        assert_eq!(k.screen_at(i, 69), '\0');
    }
    assert_eq!(k.screen_at(0, 40), '\0');
    assert_eq!(k.screen_at(25, 0), '\0');
    assert_eq!(k.foreground_at(25, 0), Color::White);
    assert_eq!(k.background_at(0, 80), Color::Black);
}

#[test]
fn highlight_is_shown_on_screen() {
    let mut k = started();
    control(&mut k, ControlKey::F1);
    control(&mut k, ControlKey::ArrowRight);
    assert_eq!(k.pane(0).highlighted(), 1);
    assert_eq!(k.foreground_at(2, 11), Color::Black);
    assert_eq!(k.background_at(2, 11), Color::White);
    assert_eq!(k.foreground_at(2, 20), Color::Black);
    assert_eq!(k.foreground_at(2, 21), Color::White);
    assert_eq!(k.foreground_at(2, 1), Color::White);
    assert_eq!(k.background_at(2, 1), Color::Black);
}

#[test]
fn arrows_clamp_at_listing_bounds() {
    let mut k = started();
    control(&mut k, ControlKey::F2);
    control(&mut k, ControlKey::ArrowLeft);
    control(&mut k, ControlKey::ArrowUp);
    assert_eq!(k.pane(1).highlighted(), 0);
    for _ in 0..50 {
        control(&mut k, ControlKey::ArrowRight);
    }
    assert_eq!(k.pane(1).highlighted(), 29);
    control(&mut k, ControlKey::ArrowDown);
    assert_eq!(k.pane(1).highlighted(), 29);
    assert_eq!(k.pane(0).highlighted(), 0);
}

#[test]
fn arrows_without_selection_do_nothing() {
    let mut k = started();
    k.move_right();
    k.move_down();
    for i in 0..4 {
        assert_eq!(k.pane(i).highlighted(), 0);
    }
    k.update_in_use(1);
    k.move_right();
    k.move_down();
    assert_eq!(k.pane(0).highlighted(), 4);
    k.move_left();
    k.move_up();
    assert_eq!(k.pane(0).highlighted(), 0);
}

#[test]
fn filename_entry_accepts_alphanumerics_and_erases() {
    let mut k = started();
    control(&mut k, ControlKey::F5);
    press(&mut k, 'a');
    press(&mut k, '-');
    press(&mut k, 'b');
    press(&mut k, '7');
    assert_eq!(k.screen_at(0, 15), 'a');
    assert_eq!(k.screen_at(0, 16), 'b');
    assert_eq!(k.screen_at(0, 17), '7');
    assert_eq!(k.screen_at(0, 18), '\0');
    press(&mut k, '\u{8}');
    assert_eq!(k.screen_at(0, 17), '\0');
    for _ in 0..5 {
        press(&mut k, '\u{8}');
    }
    assert_eq!(k.screen_at(0, 15), '\0');
    assert_eq!(k.screen_at(0, 14), ' ');
    assert_eq!(k.screen_at(0, 13), ':');
}

#[test]
fn filename_entry_is_bounded() {
    let mut k = started();
    control(&mut k, ControlKey::F5);
    for c in "abcdefghijklmnop".chars() {
        press(&mut k, c);
    }
    assert_eq!(k.screen_at(0, 24), 'j');
    assert_eq!(k.screen_at(0, 25), '\0');
    let r = press(&mut k, '\n');
    match r {
        Request::Create { name } => assert_eq!(&name, b"abcdefghij"),
        other => panic!("unexpected request {:?}", other),
    }
    assert_eq!(k.screen_at(0, 15), '\0');
    assert_eq!(k.screen_at(0, 24), '\0');
    assert!(k.is_typing_filename());
}

#[test]
fn filename_enter_asks_to_create_and_listing_refreshes() {
    let mut k = started();
    control(&mut k, ControlKey::F5);
    press(&mut k, 'n');
    press(&mut k, 'e');
    press(&mut k, 'w');
    let r = press(&mut k, '\n');
    match r {
        Request::Create { name } => assert_eq!(name, name10("new")),
        other => panic!("unexpected request {:?}", other),
    }
    k.refresh_listings(&directory(&["hello", "new"]));
    for i in 0..4 {
        assert_eq!(k.pane(i).content_at(0, 10), 'n');
        assert_eq!(k.pane(i).content_at(0, 12), 'w');
    }
    assert_eq!(k.screen_at(2, 11), 'n');
}

#[test]
fn run_key_asks_to_run_highlighted_entry() {
    let mut k = started();
    control(&mut k, ControlKey::F1);
    control(&mut k, ControlKey::ArrowDown);
    let r = press(&mut k, 'r');
    assert!(matches!(r, Request::Run { pane: 1, entry: 3 }));
    control(&mut k, ControlKey::F4);
    assert!(is_nothing(&press(&mut k, 'r')));
    let r = press(&mut k, 'e');
    assert!(matches!(r, Request::Open { pane: 4, entry: 0 }));
    control(&mut k, ControlKey::F5);
    assert!(is_nothing(&press(&mut k, 'r')));
    assert!(is_nothing(&press(&mut k, 'e')));
    let mut fresh = started();
    assert!(is_nothing(&press(&mut fresh, 'r')));
    assert!(is_nothing(&press(&mut fresh, 'e')));
}

#[test]
fn run_file_activates_slot_and_blanks_pane() {
    let mut k = started();
    control(&mut k, ControlKey::F2);
    k.run_file(name10("hello"));
    assert!(k.slot(1).is_active());
    assert!(!k.slot(0).is_active());
    assert!(!k.pane(1).is_listing());
    assert!(!k.pane(1).is_being_edited());
    assert_eq!(k.pane(1).bound_filename(), name10("hello"));
    assert_eq!(row_text(&k.pane(1), 0), "");
    assert_eq!(k.slot(1).tick_count(), 0);
    assert!(is_nothing(&press(&mut k, 'r')));
    assert!(is_nothing(&press(&mut k, 'e')));
    k.run_file(name10("nums"));
    assert_eq!(k.pane(1).bound_filename(), name10("hello"));
}

#[test]
fn run_file_needs_a_slot() {
    let mut k = started();
    control(&mut k, ControlKey::F4);
    k.run_file(name10("hello"));
    assert!(k.pane(3).is_listing());
    for i in 0..3 {
        assert!(!k.slot(i).is_active());
    }
    let mut none = started();
    none.run_file(name10("hello"));
    for i in 0..3 {
        assert!(!none.slot(i).is_active());
    }
}

#[test]
fn edit_file_setup_opens_editor() {
    let mut k = started();
    control(&mut k, ControlKey::F4);
    k.edit_file_setup(name10("pi"), b"sum := 0\ni := 0");
    assert!(k.is_editing());
    assert!(k.pane(3).is_being_edited());
    assert_eq!(row_text(&k.pane(3), 0), "sum := 0");
    assert_eq!(row_text(&k.pane(3), 1), "i := 0");
    assert_eq!(k.screen_at(12, 36), '(');
    assert_eq!(k.screen_at(12, 37), 'F');
    assert_eq!(k.screen_at(12, 38), '6');
    assert_eq!(k.screen_at(12, 39), ')');
    assert_eq!(k.screen_at(12, 40), 'p');
    assert_eq!(k.screen_at(12, 41), 'i');
    assert_eq!(k.foreground_at(12, 40), Color::Black);
    assert_eq!(k.background_at(12, 40), Color::White);
    control(&mut k, ControlKey::F1);
    assert_eq!(k.selected(), 4);
    control(&mut k, ControlKey::F5);
    assert!(!k.is_typing_filename());
    control(&mut k, ControlKey::ArrowRight);
    assert_eq!(k.pane(3).highlighted(), 0);
}

#[test]
fn editing_keys_go_to_the_pane() {
    let mut k = started();
    control(&mut k, ControlKey::F1);
    k.edit_file_setup(name10("notes"), b"");
    press(&mut k, 'r');
    press(&mut k, 'e');
    press(&mut k, 'x');
    assert_eq!(row_text(&k.pane(0), 0), "rex");
    press(&mut k, '\u{8}');
    assert_eq!(row_text(&k.pane(0), 0), "re");
    press(&mut k, '\n');
    press(&mut k, 'z');
    press(&mut k, 'y');
    assert_eq!(row_text(&k.pane(0), 1), "zy");
    assert_eq!(k.screen_at(2, 1), 'r');
    assert_eq!(k.screen_at(3, 1), 'z');
    assert_eq!(k.pane(0).saved_bytes(), b"re\nzy".to_vec());
}

#[test]
fn edit_file_text_without_selection_does_nothing() {
    let mut k = started();
    k.edit_file_text('a');
    for i in 0..4 {
        assert_eq!(k.pane(i).content_at(0, 0), 'h');
    }
}

#[test]
fn shut_off_editing_asks_to_save() {
    let mut k = started();
    control(&mut k, ControlKey::F3);
    k.edit_file_setup(name10("memo"), b"abc");
    press(&mut k, 'd');
    let r = k.shut_off_editing();
    match r {
        Request::Save { name, bytes } => {
            assert_eq!(name, name10("memo"));
            assert_eq!(bytes, b"abcd".to_vec());
        }
        other => panic!("unexpected request {:?}", other),
    }
    assert!(!k.is_editing());
    assert!(!k.pane(2).is_being_edited());
    assert!(is_nothing(&k.shut_off_editing()));
}

#[test]
fn default_window_lists_selected_pane_only_when_free() {
    let mut k = Kernel::new();
    k.default_window(&seeded());
    for i in 0..4 {
        assert!(!k.pane(i).is_listing());
    }
    k.update_in_use(2);
    k.default_window(&seeded());
    assert!(k.pane(1).is_listing());
    assert!(!k.pane(0).is_listing());
    k.run_file(name10("hello"));
    k.default_window(&seeded());
    assert!(!k.pane(1).is_listing());
    assert!(k.slot(1).is_active());
}

#[test]
fn write_to_window_uses_listing_width_unless_editing() {
    let mut k = started();
    let mut text = ['\0'; 330];
    for i in 0..32 {
        text[i] = 'a';
    }
    k.write_to_window(2, text);
    assert_eq!(row_text(&k.pane(1), 0).len(), 30);
    assert_eq!(row_text(&k.pane(1), 1), "aa");
    assert_eq!(k.screen_at(3, 35), 'a');
    k.write_to_window(9, text);
    k.write_to_window(0, text);
    assert_eq!(k.pane(0).content_at(0, 0), 'h');
    k.update_in_use(1);
    k.edit_file_setup(name10("f"), b"");
    k.write_to_window(1, text);
    assert_eq!(row_text(&k.pane(0), 0).len(), 32);
}

#[test]
fn wait_check_reports_blocked_input() {
    let mut k = started();
    control(&mut k, ControlKey::F1);
    k.run_file(name10("add_one"));
    assert!(!k.wait_check());
    k.run_one_instruction(step(&[], TickOutcome::AwaitInput));
    assert!(k.wait_check());
    control(&mut k, ControlKey::F2);
    assert_eq!(k.selected(), 1);
    press(&mut k, '5');
    press(&mut k, '\n');
    assert!(!k.wait_check());
    control(&mut k, ControlKey::F2);
    assert_eq!(k.selected(), 2);
}

#[test]
fn tick_numbers_are_left_aligned_digits() {
    let mut k = started();
    control(&mut k, ControlKey::F1);
    k.run_file(name10("countdown"));
    assert_eq!(k.tick_numbers(0), ('0', ' ', ' ', ' '));
    for _ in 0..7 {
        k.run_one_instruction(step(&[], TickOutcome::Continue));
        k.run_one_instruction(None);
        k.run_one_instruction(None);
    }
    assert_eq!(k.slot(0).tick_count(), 7);
    assert_eq!(k.tick_numbers(0), ('7', ' ', ' ', ' '));
    for _ in 0..35 {
        k.run_one_instruction(step(&[], TickOutcome::Continue));
        k.run_one_instruction(None);
        k.run_one_instruction(None);
    }
    assert_eq!(k.tick_numbers(0), ('4', '2', ' ', ' '));
    assert_eq!(k.tick_numbers(1), ('0', ' ', ' ', ' '));
    assert_eq!(k.tick_numbers(3), ('0', ' ', ' ', ' '));
    assert_eq!(k.tick_numbers(17), ('0', ' ', ' ', ' '));
    for _ in 0..(1234 - 42) {
        k.run_one_instruction(step(&[], TickOutcome::Continue));
        k.run_one_instruction(None);
        k.run_one_instruction(None);
    }
    assert_eq!(k.tick_numbers(0), ('1', '2', '3', '4'));
    for _ in 0..(10005 - 1234) {
        k.run_one_instruction(step(&[], TickOutcome::Continue));
        k.run_one_instruction(None);
        k.run_one_instruction(None);
    }
    assert_eq!(k.slot(0).tick_count(), 10005);
    assert_eq!(k.tick_numbers(0), ('5', ' ', ' ', ' '));
    for _ in 0..95 {
        k.run_one_instruction(step(&[], TickOutcome::Continue));
        k.run_one_instruction(None);
        k.run_one_instruction(None);
    }
    assert_eq!(k.tick_numbers(0), ('1', '0', '0', ' '));
}

#[test]
fn proc_status_is_drawn_in_sidebar() {
    let mut k = started();
    control(&mut k, ControlKey::F2);
    k.run_file(name10("countdown"));
    for _ in 0..12 {
        k.run_one_instruction(None);
        k.run_one_instruction(step(&[], TickOutcome::Continue));
        k.run_one_instruction(None);
    }
    k.draw_proc_status();
    assert_eq!(k.screen_at(0, 70), 'F');
    assert_eq!(k.screen_at(0, 71), '1');
    assert_eq!(k.screen_at(1, 70), '0');
    assert_eq!(k.screen_at(1, 71), ' ');
    assert_eq!(k.screen_at(2, 70), 'F');
    assert_eq!(k.screen_at(2, 71), '2');
    assert_eq!(k.screen_at(3, 70), '1');
    assert_eq!(k.screen_at(3, 71), '2');
    assert_eq!(k.screen_at(3, 72), ' ');
    assert_eq!(k.screen_at(3, 73), ' ');
    assert_eq!(k.screen_at(3, 74), '\0');
    assert_eq!(k.screen_at(4, 70), 'F');
    assert_eq!(k.screen_at(4, 71), '3');
    assert_eq!(k.screen_at(6, 70), 'F');
    assert_eq!(k.screen_at(6, 71), '4');
    assert_eq!(k.screen_at(7, 70), '0');
    assert_eq!(k.screen_at(8, 70), '\0');
}

#[test]
fn turn_index_always_advances() {
    let mut k = Kernel::new();
    for n in 0..7 {
        assert_eq!(k.turn_index(), n % 3);
        k.run_one_instruction(None);
    }
    let mut k = started();
    control(&mut k, ControlKey::F1);
    k.run_file(name10("hello"));
    k.run_one_instruction(step(&[], TickOutcome::Continue));
    assert_eq!(k.turn_index(), 1);
    k.run_one_instruction(step(&[b"stray"], TickOutcome::Finished));
    assert_eq!(k.turn_index(), 2);
    assert!(k.slot(0).is_active());
    assert!(!k.slot(1).is_active());
    assert!(k.pane(1).is_listing());
    assert_eq!(k.pane(1).content_at(0, 0), 'h');
}

#[test]
fn step_not_reported_counts_nothing() {
    let mut k = started();
    control(&mut k, ControlKey::F1);
    k.run_file(name10("hello"));
    assert!(matches!(k.plan_turn(), Turn::Step { slot: 0 }));
    k.run_one_instruction(None);
    assert_eq!(k.slot(0).tick_count(), 0);
    assert!(k.slot(0).is_active());
    assert_eq!(k.turn_index(), 1);
}

#[test]
fn error_stops_only_the_failing_slot() {
    let mut k = started();
    control(&mut k, ControlKey::F1);
    k.run_file(name10("hello"));
    control(&mut k, ControlKey::F2);
    k.run_file(name10("nums"));
    k.run_one_instruction(step(&[b"partial"], TickOutcome::Error));
    assert!(!k.slot(0).is_active());
    assert!(!k.slot(0).is_awaiting_input());
    assert!(k.slot(1).is_active());
    assert_eq!(row_text(&k.pane(0), 0), "partial");
    assert_eq!(row_text(&k.pane(0), 1), "[ERROR]");
    assert_eq!(row_text(&k.pane(1), 0), "");
    k.run_one_instruction(step(&[b"1"], TickOutcome::Continue));
    assert_eq!(row_text(&k.pane(1), 0), "1");
    assert_eq!(k.slot(1).tick_count(), 1);
}

#[test]
fn cancel_stops_running_program() {
    let mut k = started();
    control(&mut k, ControlKey::F1);
    k.run_file(name10("countdown"));
    k.run_one_instruction(step(&[b"out"], TickOutcome::Continue));
    assert_eq!(k.slot(0).tick_count(), 1);
    let r = control(&mut k, ControlKey::F6);
    assert!(matches!(r, Request::Relist));
    assert!(!k.slot(0).is_active());
    assert_eq!(k.slot(0).tick_count(), 0);
    assert_eq!(row_text(&k.pane(0), 0), "");
    k.default_window(&seeded());
    assert!(k.pane(0).is_listing());
    assert_eq!(k.pane(0).content_at(0, 0), 'h');
    assert_eq!(k.screen_at(2, 1), 'h');
}

#[test]
fn cancel_while_blocked_takes_effect() {
    let mut k = started();
    control(&mut k, ControlKey::F3);
    k.run_file(name10("add_one"));
    k.run_one_instruction(None);
    k.run_one_instruction(None);
    k.run_one_instruction(step(&[b"Enter a number"], TickOutcome::AwaitInput));
    assert!(k.wait_check());
    press(&mut k, '4');
    let r = control(&mut k, ControlKey::F6);
    assert!(matches!(r, Request::Relist));
    assert!(!k.wait_check());
    assert!(!k.slot(2).is_active());
    assert!(!k.slot(2).is_awaiting_input());
    assert_eq!(k.slot(2).pending_line(), Vec::<char>::new());
}

#[test]
fn cancel_without_selection_asks_nothing() {
    let mut k = started();
    let r = control(&mut k, ControlKey::F6);
    assert!(is_nothing(&r));
    control(&mut k, ControlKey::F5);
    let r = control(&mut k, ControlKey::F6);
    assert!(is_nothing(&r));
    assert!(k.is_typing_filename());
}

#[test]
fn route_uses_given_classification() {
    let mut k = started();
    control(&mut k, ControlKey::F5);
    k.route(KeyEvent::Character('-'), true);
    assert_eq!(k.screen_at(0, 15), '-');
    k.route(KeyEvent::Character('a'), false);
    assert_eq!(k.screen_at(0, 16), '\0');
    let r = k.handle_unicode('\n', false);
    assert!(matches!(r, Request::Create { .. }));
    let r = k.handle_raw(ControlKey::F1);
    assert!(is_nothing(&r));
    assert_eq!(k.selected(), 1);
}

#[test]
fn refresh_skips_panes_that_do_not_list() {
    let mut k = started();
    control(&mut k, ControlKey::F1);
    k.run_file(name10("hello"));
    control(&mut k, ControlKey::F2);
    k.edit_file_setup(name10("nums"), b"print(1)");
    k.refresh_listings(&directory(&["zeta"]));
    assert_eq!(row_text(&k.pane(0), 0), "");
    assert_eq!(row_text(&k.pane(1), 0), "print(1)");
    assert_eq!(k.pane(2).content_at(0, 0), 'z');
    assert_eq!(k.pane(3).content_at(0, 0), 'z');
    k.make_initial_files(&directory(&["yang"]));
    assert_eq!(row_text(&k.pane(0), 0), "");
    assert_eq!(row_text(&k.pane(1), 0), "print(1)");
    assert_eq!(k.pane(2).content_at(0, 0), 'y');
}

#[test]
fn update_calls_compose_borders_and_colors() {
    let mut k = started();
    k.update_in_use(1);
    k.update_colors();
    k.update_borders();
    k.update_screen();
    assert_eq!(k.screen_at(1, 0), '*');
    assert_eq!(k.foreground_at(2, 1), Color::Black);
    assert_eq!(k.background_at(2, 10), Color::White);
    assert_eq!(k.foreground_at(2, 11), Color::White);
}

#[test]
fn failure_notice_is_shown_until_next_key() {
    let mut k = started();
    k.report_failure(b"file not found");
    let shown: String = (25..39).map(|j| k.screen_at(0, j)).collect();
    assert_eq!(shown, "file not found");
    assert_eq!(k.screen_at(0, 39), '\0');
    assert_eq!(k.screen_at(0, 24), '\0');
    assert_eq!(k.screen_at(0, 0), 'F');
    control(&mut k, ControlKey::Other);
    for j in 25..70 {
        assert_eq!(k.screen_at(0, j), '\0');
    }
    let long = [b'x'; 60];
    k.report_failure(&long);
    assert_eq!(k.screen_at(0, 25), 'x');
    assert_eq!(k.screen_at(0, 69), 'x');
    assert_eq!(k.screen_at(0, 70), '\0');
    press(&mut k, 'q');
    assert_eq!(k.screen_at(0, 25), '\0');
}

#[test]
fn update_in_use_respects_editor_and_ends_filename_entry() {
    let mut k = started();
    control(&mut k, ControlKey::F5);
    assert!(k.is_typing_filename());
    k.update_in_use(0);
    assert!(k.is_typing_filename());
    k.update_in_use(2);
    assert!(!k.is_typing_filename());
    assert_eq!(k.selected(), 2);
    k.edit_file_setup(name10("nums"), b"print(1)");
    k.update_in_use(3);
    assert_eq!(k.selected(), 2);
    assert!(k.pane(1).is_selected());
    assert!(!k.pane(2).is_selected());
}
