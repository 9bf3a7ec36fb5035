use pane_kernel::chars::is_drawable;
use pane_kernel::output::KernelOutput;
use pane_kernel::pane::{Color, Direction};
use pane_kernel::window::Window;

fn row_text(w: &Window, row: usize) -> String {
    let mut s = String::new();
    for col in 0..33 {
        let c = w.content_at(row, col);
        if c == '\0' {
            break;
        }
        s.push(c);
    }
    s
}

fn type_str(w: &mut Window, s: &str) {
    for c in s.chars() {
        w.type_char(c);
    }
}

fn name10(s: &str) -> [u8; 10] {
    let mut n = [0u8; 10];
    for (i, b) in s.bytes().enumerate() {
        n[i] = b;
    }
    n
}

fn directory(names: &[&str]) -> [[u8; 10]; 30] {
    let mut d = [[0u8; 10]; 30];
    for (i, n) in names.iter().enumerate() {
        d[i] = name10(n);
    }
    d
}

#[test]
fn new_window_is_blank() {
    let w = Window::new('3');
    assert_eq!(w.edit_cursor(), 0);
    assert_eq!(w.byte_cursor(), 0);
    assert_eq!(w.highlighted(), 0);
    assert!(!w.is_selected());
    assert!(!w.is_being_edited());
    assert!(!w.is_listing());
    assert_eq!(w.bound_filename(), [b'*'; 10]);
    for row in 0..12 {
        for col in 0..35 {
            assert_eq!(w.cell(row, col), '\0');
            assert_eq!(w.foreground_at(row, col), Color::White);
            assert_eq!(w.background_at(row, col), Color::Black);
        }
    }
    assert_eq!(w.saved_bytes(), Vec::<u8>::new());
}

#[test]
fn type_char_writes_cell_byte_and_advances() {
    let mut w = Window::new('1');
    w.type_char('a');
    assert_eq!(w.content_at(0, 0), 'a');
    assert_eq!(w.cell(1, 1), 'a');
    assert_eq!(w.raw_byte(0), b'a');
    assert_eq!(w.edit_cursor(), 1);
    assert_eq!(w.byte_cursor(), 1);
}

#[test]
fn type_char_sentinel_does_not_advance() {
    let mut w = Window::new('1');
    type_str(&mut w, "ab");
    w.type_char('\0');
    assert_eq!(w.edit_cursor(), 2);
    assert_eq!(w.byte_cursor(), 2);
    assert_eq!(w.content_at(0, 2), '\0');
    w.type_char('c');
    assert_eq!(row_text(&w, 0), "abc");
    assert_eq!(w.saved_bytes(), b"abc".to_vec());
}

#[test]
fn line_feed_shows_as_space_and_is_kept_as_byte() {
    let mut w = Window::new('1');
    w.type_char('\n');
    assert_eq!(w.content_at(0, 0), ' ');
    assert_eq!(w.raw_byte(0), b'\n');
    assert_eq!(w.edit_cursor(), 1);
}

#[test]
fn raw_bytes_reconstruct_typed_characters() {
    let mut w = Window::new('1');
    let typed = "The quick brown fox jumps over the lazy dog, twice over.";
    for (i, c) in typed.chars().enumerate() {
        w.type_char(c);
        if i % 7 == 3 {
            w.type_char('\0');
        }
    }
    assert_eq!(w.saved_bytes(), typed.as_bytes().to_vec());
    assert_eq!(w.byte_cursor(), typed.len());
    for i in typed.len()..2048 {
        assert_eq!(w.raw_byte(i), 0);
    }
}

#[test]
fn raw_bytes_keep_low_eight_bits() {
    let mut w = Window::new('1');
    w.type_char('\u{141}');
    assert_eq!(w.raw_byte(0), 0x41);
    assert_eq!(w.content_at(0, 0), '\u{141}');
}

#[test]
fn full_row_then_next_character_starts_row_one() {
    let mut w = Window::new('1');
    let row: String = "abcdefghijklmnopqrstuvwxyz0123456".to_string();
    assert_eq!(row.len(), 33);
    type_str(&mut w, &row);
    assert_eq!(row_text(&w, 0), row);
    assert_eq!(w.edit_cursor(), 33);
    assert_eq!(w.content_at(1, 0), '\0');
    w.type_char('Z');
    assert_eq!(w.content_at(1, 0), 'Z');
    assert_eq!(w.edit_cursor(), 34);
    assert_eq!(w.cell(2, 1), 'Z');
}

#[test]
fn typing_stops_at_capacity() {
    let mut w = Window::new('1');
    for _ in 0..330 {
        w.type_char('x');
    }
    assert_eq!(w.edit_cursor(), 330);
    assert_eq!(w.byte_cursor(), 330);
    w.type_char('y');
    assert_eq!(w.edit_cursor(), 330);
    assert_eq!(w.byte_cursor(), 330);
    assert_eq!(w.content_at(9, 32), 'x');
    assert_eq!(w.raw_byte(330), 0);
}

#[test]
fn erase_after_automatic_wrap_goes_to_last_column() {
    let mut w = Window::new('1');
    type_str(&mut w, "abcdefghijklmnopqrstuvwxyz0123456");
    assert_eq!(w.edit_cursor(), 33);
    w.erase();
    assert_eq!(w.edit_cursor(), 32);
    assert_eq!(w.content_at(0, 32), '\0');
    assert_eq!(w.content_at(0, 31), '5');
    assert_eq!(w.byte_cursor(), 32);
    assert_eq!(w.saved_bytes(), b"abcdefghijklmnopqrstuvwxyz012345".to_vec());
}

#[test]
fn erase_after_line_break_lands_behind_last_character() {
    let mut w = Window::new('1');
    type_str(&mut w, "abc");
    w.edit_press_enter();
    assert_eq!(w.edit_cursor(), 33);
    assert_eq!(w.raw_byte(3), b'\n');
    assert_eq!(w.byte_cursor(), 4);
    w.erase();
    assert_eq!(w.edit_cursor(), 3);
    assert_eq!(w.byte_cursor(), 3);
    assert_eq!(w.saved_bytes(), b"abc".to_vec());
    assert_eq!(row_text(&w, 0), "abc");
}

#[test]
fn erase_at_start_does_nothing() {
    let mut w = Window::new('1');
    w.erase();
    assert_eq!(w.edit_cursor(), 0);
    assert_eq!(w.byte_cursor(), 0);
}

#[test]
fn erase_removes_last_character() {
    let mut w = Window::new('1');
    type_str(&mut w, "abc");
    w.erase();
    assert_eq!(row_text(&w, 0), "ab");
    assert_eq!(w.edit_cursor(), 2);
    assert_eq!(w.saved_bytes(), b"ab".to_vec());
    w.type_char('d');
    assert_eq!(row_text(&w, 0), "abd");
    assert_eq!(w.saved_bytes(), b"abd".to_vec());
}

#[test]
fn bytes_stay_in_order_after_line_break_and_erase() {
    let mut w = Window::new('1');
    type_str(&mut w, "ab");
    w.edit_press_enter();
    type_str(&mut w, "cd");
    w.erase();
    w.erase();
    w.type_char('x');
    assert_eq!(w.saved_bytes(), b"ab\nx".to_vec());
    assert_eq!(w.content_at(1, 0), 'x');
}

#[test]
fn enter_moves_to_next_row() {
    let mut w = Window::new('1');
    type_str(&mut w, "hi");
    w.edit_press_enter();
    assert_eq!(w.edit_cursor(), 33);
    assert_eq!(w.content_at(1, 1), ' ');
    assert_eq!(w.byte_cursor(), 3);
    w.type_char('x');
    assert_eq!(w.content_at(1, 0), 'x');
}

#[test]
fn enter_on_last_row_does_nothing() {
    let mut w = Window::new('1');
    for _ in 0..9 {
        w.edit_press_enter();
    }
    assert_eq!(w.edit_cursor(), 297);
    let bytes = w.byte_cursor();
    w.edit_press_enter();
    assert_eq!(w.edit_cursor(), 297);
    assert_eq!(w.byte_cursor(), bytes);
}

#[test]
fn edit_key_dispatches() {
    let mut w = Window::new('1');
    w.edit_key('a');
    w.edit_key('b');
    w.edit_key('\u{8}');
    assert_eq!(row_text(&w, 0), "a");
    w.edit_key('\n');
    assert_eq!(w.edit_cursor(), 33);
}

#[test]
fn append_output_types_and_breaks_line() {
    let mut w = Window::new('1');
    w.append_output(b"Hello, world!");
    assert_eq!(row_text(&w, 0), "Hello, world!");
    assert_eq!(w.edit_cursor(), 33);
    w.append_output(b"next");
    assert_eq!(row_text(&w, 1), "next");
    assert_eq!(w.edit_cursor(), 66);
}

#[test]
fn kernel_output_prints_into_its_window() {
    let mut out = KernelOutput::new(Window::new('2'), 2);
    out.print(b"one");
    out.print(b"two");
    assert_eq!(out.which_one(), 2);
    let w = out.window();
    assert_eq!(row_text(&w, 0), "one");
    assert_eq!(row_text(&w, 1), "two");
}

#[test]
fn kernel_output_write_to_window_wraps_at_interior_width() {
    let mut out = KernelOutput::new(Window::new('2'), 2);
    let mut text = ['\0'; 330];
    for i in 0..40 {
        text[i] = 'a';
    }
    out.write_to_window(2, text);
    let w = out.window();
    assert_eq!(row_text(&w, 0).len(), 33);
    assert_eq!(row_text(&w, 1), "aaaaaaa");
    assert_eq!(w.edit_cursor(), 40);
}

#[test]
fn navigate_moves_within_listing() {
    let mut w = Window::new('1');
    w.navigate(Direction::Right);
    assert_eq!(w.highlighted(), 1);
    w.navigate(Direction::Down);
    assert_eq!(w.highlighted(), 4);
    w.navigate(Direction::Left);
    assert_eq!(w.highlighted(), 3);
    w.navigate(Direction::Up);
    assert_eq!(w.highlighted(), 0);
}

#[test]
fn navigate_past_bounds_is_noop() {
    let mut w = Window::new('1');
    for _ in 0..5 {
        w.navigate(Direction::Left);
        assert_eq!(w.highlighted(), 0);
        w.navigate(Direction::Up);
        assert_eq!(w.highlighted(), 0);
    }
    w.navigate(Direction::Right);
    w.navigate(Direction::Right);
    w.navigate(Direction::Up);
    assert_eq!(w.highlighted(), 2);
    for _ in 0..40 {
        w.navigate(Direction::Right);
    }
    assert_eq!(w.highlighted(), 29);
    w.navigate(Direction::Down);
    assert_eq!(w.highlighted(), 29);
    w.navigate(Direction::Left);
    w.navigate(Direction::Left);
    assert_eq!(w.highlighted(), 27);
    w.navigate(Direction::Down);
    assert_eq!(w.highlighted(), 27);
    w.navigate(Direction::Up);
    assert_eq!(w.highlighted(), 24);
    w.navigate(Direction::Down);
    assert_eq!(w.highlighted(), 27);
}

#[test]
fn navigate_down_stops_at_last_row() {
    let mut w = Window::new('1');
    for _ in 0..20 {
        w.navigate(Direction::Down);
    }
    assert_eq!(w.highlighted(), 27);
}

#[test]
fn borders_are_dots_with_label() {
    let mut w = Window::new('2');
    w.type_char('q');
    w.update_borders();
    assert_eq!(w.cell(0, 0), '.');
    assert_eq!(w.cell(0, 34), '.');
    assert_eq!(w.cell(11, 0), '.');
    assert_eq!(w.cell(11, 34), '.');
    assert_eq!(w.cell(5, 0), '.');
    assert_eq!(w.cell(5, 34), '.');
    assert_eq!(w.cell(0, 17), 'F');
    assert_eq!(w.cell(0, 18), '2');
    assert_eq!(w.cell(1, 1), 'q');
    assert_eq!(w.cell(5, 5), '\0');
}

#[test]
fn borders_are_stars_when_selected() {
    let mut w = Window::new('4');
    w.set_in_use(true);
    w.update_borders();
    assert_eq!(w.cell(0, 0), '*');
    assert_eq!(w.cell(11, 20), '*');
    assert_eq!(w.cell(7, 34), '*');
    assert_eq!(w.cell(0, 17), 'F');
    assert_eq!(w.cell(0, 18), '4');
    w.set_in_use(false);
    w.update_borders();
    assert_eq!(w.cell(0, 0), '.');
}

#[test]
fn title_shows_tag_and_alphanumeric_name_bytes() {
    let mut w = Window::new('1');
    w.open_file(name10("ab_c9"), b"text");
    assert!(w.is_being_edited());
    w.update_borders();
    assert_eq!(w.cell(0, 2), '(');
    assert_eq!(w.cell(0, 3), 'F');
    assert_eq!(w.cell(0, 4), '6');
    assert_eq!(w.cell(0, 5), ')');
    assert_eq!(w.cell(0, 6), 'a');
    assert_eq!(w.cell(0, 7), 'b');
    assert_eq!(w.cell(0, 8), '.');
    assert_eq!(w.cell(0, 9), 'c');
    assert_eq!(w.cell(0, 10), '9');
    assert_eq!(w.cell(0, 11), '.');
    assert_eq!(w.foreground_at(0, 6), Color::Black);
    assert_eq!(w.background_at(0, 6), Color::White);
    assert_eq!(w.foreground_at(0, 8), Color::White);
    assert_eq!(w.background_at(0, 8), Color::Black);
    assert_eq!(w.foreground_at(0, 2), Color::White);
    assert_eq!(w.cell(0, 17), 'F');
}

#[test]
fn show_title_uses_given_mask() {
    let mut w = Window::new('1');
    w.open_file(name10("abcd"), b"");
    w.update_borders();
    let mut mask = [false; 10];
    mask[1] = true;
    w.show_title(&mask);
    assert_eq!(w.cell(0, 6), 'a');
    assert_eq!(w.foreground_at(0, 6), Color::White);
    assert_eq!(w.cell(0, 7), 'b');
    assert_eq!(w.foreground_at(0, 7), Color::Black);
    assert_eq!(w.background_at(0, 7), Color::White);
}

#[test]
fn colors_highlight_entry_in_listing() {
    let mut w = Window::new('1');
    w.show_listing(&directory(&["hello", "nums", "add_one", "countdown"]));
    w.navigate(Direction::Right);
    w.navigate(Direction::Down);
    assert_eq!(w.highlighted(), 4);
    w.update_colors();
    for col in 0..35 {
        for row in 0..12 {
            let inside = row == 2 && (11..=20).contains(&col);
            let fg = if inside { Color::Black } else { Color::White };
            let bg = if inside { Color::White } else { Color::Black };
            assert_eq!(w.foreground_at(row, col), fg);
            assert_eq!(w.background_at(row, col), bg);
        }
    }
    w.reset_colors();
    assert_eq!(w.foreground_at(2, 11), Color::White);
    assert_eq!(w.background_at(2, 11), Color::Black);
}

#[test]
fn colors_do_not_highlight_outside_listing() {
    let mut w = Window::new('1');
    w.update_colors();
    assert_eq!(w.foreground_at(1, 1), Color::White);
    assert_eq!(w.background_at(1, 1), Color::Black);
}

#[test]
fn listing_shows_three_names_per_row() {
    let mut w = Window::new('1');
    w.show_listing(&directory(&["hello", "nums", "add_one", "countdown", "average", "pi"]));
    assert!(w.is_listing());
    assert_eq!(w.content_at(0, 0), 'h');
    assert_eq!(w.content_at(0, 4), 'o');
    assert_eq!(w.content_at(0, 5), '\0');
    assert_eq!(w.content_at(0, 10), 'n');
    assert_eq!(w.content_at(0, 20), 'a');
    assert_eq!(w.content_at(0, 26), 'e');
    assert_eq!(w.content_at(0, 30), '\0');
    assert_eq!(w.content_at(1, 0), 'c');
    assert_eq!(w.content_at(1, 8), 'n');
    assert_eq!(w.content_at(1, 10), 'a');
    assert_eq!(w.content_at(1, 20), 'p');
    assert_eq!(w.content_at(1, 21), 'i');
    assert_eq!(w.edit_cursor(), 33 + 22);
    assert_eq!(w.cell(1, 1), 'h');
}

#[test]
fn write_wrapped_handles_line_feeds_and_overflow() {
    let mut w = Window::new('1');
    let mut text = ['\0'; 330];
    let src = "ab\ncd";
    for (i, c) in src.chars().enumerate() {
        text[i] = c;
    }
    w.write_wrapped(&text, 33);
    assert_eq!(row_text(&w, 0), "ab");
    assert_eq!(row_text(&w, 1), "cd");
    assert_eq!(w.edit_cursor(), 35);
    let many = ['\n'; 330];
    w.write_wrapped(&many, 33);
    assert_eq!(w.edit_cursor(), 0);
    assert_eq!(row_text(&w, 0), "");
}

#[test]
fn update_contents_replaces_interior_and_grid() {
    let mut w = Window::new('1');
    w.type_char('z');
    let mut c = [['\0'; 33]; 10];
    c[2][3] = 'k';
    w.update_contents(c);
    assert_eq!(w.content_at(0, 0), '\0');
    assert_eq!(w.cell(1, 1), '\0');
    assert_eq!(w.content_at(2, 3), 'k');
    assert_eq!(w.cell(3, 4), 'k');
    w.find_contents_index();
    assert_eq!(w.edit_cursor(), 2 * 33 + 4);
}

#[test]
fn open_file_loads_bytes_and_shows_text() {
    let mut w = Window::new('1');
    w.open_file(name10("notes"), b"line one\nline two");
    assert!(w.is_being_edited());
    assert!(!w.is_listing());
    assert_eq!(w.bound_filename(), name10("notes"));
    assert_eq!(row_text(&w, 0), "line one");
    assert_eq!(row_text(&w, 1), "line two");
    assert_eq!(w.byte_cursor(), 17);
    assert_eq!(w.edit_cursor(), 33 + 8);
    assert_eq!(w.saved_bytes(), b"line one\nline two".to_vec());
}

#[test]
fn find_u8_index_finds_end_of_bytes() {
    let mut w = Window::new('1');
    w.open_file(name10("f"), &[1, 2, 0, 3, 0, 0]);
    assert_eq!(w.byte_cursor(), 4);
    w.find_u8_index();
    assert_eq!(w.byte_cursor(), 4);
    assert_eq!(w.saved_bytes(), vec![1, 2, 0, 3]);
}

#[test]
fn blank_and_begin_run_clear_the_pane() {
    let mut w = Window::new('1');
    w.show_listing(&directory(&["hello"]));
    w.begin_run(name10("hello"));
    assert!(!w.is_listing());
    assert!(!w.is_being_edited());
    assert_eq!(w.bound_filename(), name10("hello"));
    assert_eq!(w.edit_cursor(), 0);
    assert_eq!(w.byte_cursor(), 0);
    assert_eq!(row_text(&w, 0), "");
    w.type_char('a');
    w.blank();
    assert_eq!(w.edit_cursor(), 0);
    assert_eq!(w.content_at(0, 0), '\0');
    assert_eq!(w.raw_byte(0), 0);
}

#[test]
fn getters_outside_bounds_return_defaults() {
    let w = Window::new('1');
    assert_eq!(w.cell(12, 0), '\0');
    assert_eq!(w.content_at(0, 33), '\0');
    assert_eq!(w.raw_byte(5000), 0);
    assert_eq!(w.foreground_at(0, 35), Color::White);
    assert_eq!(w.background_at(99, 0), Color::Black);
}

#[test]
fn drawable_characters() {
    assert!(is_drawable(' '));
    assert!(is_drawable('~'));
    assert!(is_drawable('a'));
    assert!(!is_drawable('\n'));
    assert!(!is_drawable('\u{8}'));
    assert!(!is_drawable('\u{7f}'));
    assert!(is_drawable('\u{141}'));
    assert!(!is_drawable('\u{100}'));
}

#[test]
fn write_wrapped_never_wraps_wider_than_interior() {
    let mut w = Window::new('1');
    let text = ['b'; 330];
    w.write_wrapped(&text, 500);
    assert_eq!(row_text(&w, 0).len(), 33);
    assert_eq!(w.content_at(9, 32), 'b');
    assert_eq!(w.edit_cursor(), 330);
    w.write_wrapped(&text, 0);
    assert_eq!(row_text(&w, 0), "");
    assert_eq!(row_text(&w, 1), "b");
    assert_eq!(row_text(&w, 9), "b");
    assert_eq!(w.edit_cursor(), 9 * 33 + 1);
}
