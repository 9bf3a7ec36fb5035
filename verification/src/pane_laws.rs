//! What holds of every pane: the invariant that every operation keeps, and
//! the laws of typing, erasing and navigating.

use vstd::prelude::*;
use crate::geometry::{grid_index, lemma_grid_interior};
use crate::pane::{
    blank_before, byte_of, content_end, file_text, lemma_content_end, lemma_content_end_unique,
    listing_text, padded, shown, wrap, Direction, PaneModel,
};

verus! {

/// What typing and erasing leave alone: colours, highlight, flags, the bound
/// name and the label.
pub open spec fn same_frame(p: PaneModel, q: PaneModel) -> bool {
    &&& q.foreground == p.foreground
    &&& q.background == p.background
    &&& q.highlight_index == p.highlight_index
    &&& q.selected == p.selected
    &&& q.being_edited == p.being_edited
    &&& q.listing == p.listing
    &&& q.bound_filename == p.bound_filename
    &&& q.label == p.label
}

/// Writing a cell keeps the invariant.
pub proof fn lemma_put_cell_wf(p: PaneModel, k: int, c: char)
    requires
        p.wf(),
    ensures
        p.put_cell(k, c).wf(),
{
    if 0 <= k < 330 {
        let q = p.put_cell(k, c);
        lemma_grid_interior(k);
        assert forall|j: int| 0 <= j < 330 implies q.grid[grid_index(j)] == #[trigger] q.interior[j] by {
            lemma_grid_interior(j);
            assert(p.grid[grid_index(j)] == p.interior[j]);
        }
    }
}

/// Where an erase lets the edit cursor settle: it stays in its row, moves
/// back only, leaves blanks behind, changes nothing else, and cannot move
/// further.
pub proof fn lemma_settle(p: PaneModel)
    requires
        p.wf(),
    ensures
        p.settle().wf(),
        same_frame(p, p.settle()),
        p.settle().raw_bytes == p.raw_bytes,
        p.settle().byte_cursor == p.byte_cursor,
        p.settle().edit_cursor <= p.edit_cursor,
        p.edit_cursor < 330 ==> p.settle().edit_cursor / 33 == p.edit_cursor / 33,
        forall|j: int| p.settle().edit_cursor <= j < p.edit_cursor ==> p.settle().interior[j] == '\0',
        forall|j: int|
            0 <= j < 330 && !(p.settle().edit_cursor <= j < p.edit_cursor) ==> p.settle().interior[j]
                == p.interior[j],
        !(1 < p.settle().edit_cursor < 330 && p.settle().edit_cursor % 33 != 0 && blank_before(
            p.settle().interior,
            p.settle().edit_cursor,
        )),
    decreases p.edit_cursor,
{
    let k = p.edit_cursor;
    if 1 < k < 330 && k % 33 != 0 && blank_before(p.interior, k) {
        let q = PaneModel { edit_cursor: k - 1, ..p }.put_cell(k - 1, '\0');
        lemma_put_cell_wf(PaneModel { edit_cursor: k - 1, ..p }, k - 1, '\0');
        lemma_settle(q);
        let r = q.settle();
        assert(p.settle() == r);
        assert forall|j: int| r.edit_cursor <= j < k implies r.interior[j] == '\0' by {
            if j == k - 1 {
                assert(q.interior[j] == '\0');
            }
        }
        assert forall|j: int| 0 <= j < 330 && !(r.edit_cursor <= j < k) implies r.interior[j]
            == p.interior[j] by {
            assert(q.interior[j] == p.interior[j]);
        }
    }
}

/// Typing one character keeps the invariant and the frame.
pub proof fn lemma_type_char_wf(p: PaneModel, c: char)
    requires
        p.wf(),
    ensures
        p.type_char(c).wf(),
        same_frame(p, p.type_char(c)),
{
    if 0 <= p.edit_cursor < 330 {
        lemma_put_cell_wf(p, p.edit_cursor, shown(c));
        let written = p.put_cell(p.edit_cursor, shown(c)).put_byte(p.byte_cursor, byte_of(c));
        if c == '\0' {
            lemma_settle(written);
        }
    }
}

/// A line break keeps the invariant and the frame.
pub proof fn lemma_newline_wf(p: PaneModel)
    requires
        p.wf(),
    ensures
        p.newline().wf(),
        same_frame(p, p.newline()),
{
    let row = p.edit_cursor / 33 + 1;
    if row < 10 {
        lemma_put_cell_wf(p, row * 33 + 1, ' ');
    }
}

/// An erase keeps the invariant and the frame.
pub proof fn lemma_erase_wf(p: PaneModel)
    requires
        p.wf(),
    ensures
        p.erase().wf(),
        same_frame(p, p.erase()),
{
    if 0 < p.edit_cursor {
        lemma_content_end(p.raw_bytes, 0u8);
        let end = content_end(p.raw_bytes, 0u8);
        let q = PaneModel {
            edit_cursor: p.edit_cursor - 1,
            byte_cursor: if end > 0 { end - 1 } else { 0 },
            ..p
        };
        lemma_type_char_wf(q, '\0');
    }
}

/// One key of the text keyboard keeps the invariant and the frame.
pub proof fn lemma_edit_key_wf(p: PaneModel, key: char)
    requires
        p.wf(),
    ensures
        p.edit_key(key).wf(),
        same_frame(p, p.edit_key(key)),
{
    lemma_erase_wf(p);
    lemma_newline_wf(p);
    lemma_type_char_wf(p, key);
}

/// Typing a sequence of characters keeps the invariant and the frame.
pub proof fn lemma_type_all_wf(p: PaneModel, s: Seq<char>)
    requires
        p.wf(),
    ensures
        p.type_all(s).wf(),
        same_frame(p, p.type_all(s)),
    decreases s.len(),
{
    if s.len() > 0 {
        lemma_type_all_wf(p, s.drop_last());
        lemma_type_char_wf(p.type_all(s.drop_last()), s.last());
    }
}

/// Pressing a sequence of keys keeps the invariant and the frame.
pub proof fn lemma_edit_keys_wf(p: PaneModel, s: Seq<char>)
    requires
        p.wf(),
    ensures
        p.edit_keys(s).wf(),
        same_frame(p, p.edit_keys(s)),
    decreases s.len(),
{
    if s.len() > 0 {
        lemma_edit_keys_wf(p, s.drop_last());
        lemma_edit_key_wf(p.edit_keys(s.drop_last()), s.last());
    }
}

/// A batch of output keeps the invariant and the frame.
pub proof fn lemma_append_output_wf(p: PaneModel, bytes: Seq<u8>)
    requires
        p.wf(),
    ensures
        p.append_output(bytes).wf(),
        same_frame(p, p.append_output(bytes)),
{
    let typed = bytes.map_values(|b: u8| b as char);
    lemma_type_all_wf(p, typed);
    lemma_newline_wf(p.type_all(typed));
}

/// Replacing the interior keeps the invariant.
pub proof fn lemma_set_contents_wf(p: PaneModel, cells: Seq<char>)
    requires
        p.wf(),
        cells.len() == 330,
    ensures
        p.set_contents(cells).wf(),
        same_frame(p, p.set_contents(cells)),
{
    let q = p.set_contents(cells);
    assert forall|k: int| 0 <= k < 330 implies q.grid[grid_index(k)] == #[trigger] q.interior[k] by {
        lemma_grid_interior(k);
    }
}

/// Moving a cursor to the end of the content keeps the invariant.
pub proof fn lemma_find_end_wf(p: PaneModel)
    requires
        p.wf(),
    ensures
        p.find_content_end().wf(),
        p.find_byte_end().wf(),
{
    lemma_content_end(p.interior, '\0');
    lemma_content_end(p.raw_bytes, 0u8);
}

/// Drawing the border and the title keeps the invariant: neither touches the
/// interior's cells.
pub proof fn lemma_render_borders_wf(p: PaneModel)
    requires
        p.wf(),
    ensures
        p.ring().wf(),
        forall|mask: Seq<bool>| (#[trigger] p.title_with(mask)).wf(),
        p.render_borders().wf(),
{
    assert forall|k: int| 0 <= k < 330 implies p.ring().grid[grid_index(k)] == #[trigger] p.ring().interior[k] by {
        lemma_grid_interior(k);
    }
    assert forall|mask: Seq<bool>| (#[trigger] p.title_with(mask)).wf() by {
        lemma_title_wf(p, mask);
    }
    lemma_title_wf(p.ring(), crate::pane::name_mask(p.ring().bound_filename));
}

/// Writing the title keeps the invariant.
pub proof fn lemma_title_wf(p: PaneModel, mask: Seq<bool>)
    requires
        p.wf(),
    ensures
        p.title_with(mask).wf(),
{
    let q = p.title_with(mask);
    assert forall|k: int| 0 <= k < 330 implies q.grid[grid_index(k)] == #[trigger] q.interior[k] by {
        lemma_grid_interior(k);
        assert(grid_index(k) >= 36);
    }
}

/// The highlight stays inside the listing, and a move changes nothing but
/// the highlight.
pub proof fn law_navigate_in_bounds(p: PaneModel, direction: Direction)
    requires
        0 <= p.highlight_index < 30,
    ensures
        0 <= p.navigate(direction).highlight_index < 30,
        p.navigate(direction) == (PaneModel {
            highlight_index: p.navigate(direction).highlight_index,
            ..p
        }),
        p.wf() ==> p.navigate(direction).wf(),
{
}

/// `n` moves of the highlight in one direction.
pub open spec fn navigate_times(p: PaneModel, direction: Direction, n: nat) -> PaneModel
    decreases n,
{
    if n == 0 {
        p
    } else {
        navigate_times(p, direction, (n - 1) as nat).navigate(direction)
    }
}

/// A move past a bound of the listing is a no-op however often it is
/// repeated.
pub proof fn law_navigate_past_bound(p: PaneModel, direction: Direction, n: nat)
    requires
        p.navigate(direction) == p,
    ensures
        navigate_times(p, direction, n) == p,
    decreases n,
{
    if n > 0 {
        law_navigate_past_bound(p, direction, (n - 1) as nat);
    }
}

/// Moves in one direction reach a bound of the listing after at most thirty
/// steps, and stay there.
pub proof fn law_navigate_reaches_bound(p: PaneModel, direction: Direction, n: nat)
    requires
        0 <= p.highlight_index < 30,
        n >= 30,
    ensures
        navigate_times(p, direction, n) == navigate_times(p, direction, 30),
        0 <= navigate_times(p, direction, n).highlight_index < 30,
    decreases n,
{
    lemma_navigate_progress(p, direction, 30);
    let at = navigate_times(p, direction, 30);
    assert(at.navigate(direction) == at);
    if n > 30 {
        law_navigate_reaches_bound(p, direction, (n - 1) as nat);
    }
}

/// The step of a move: how far it shifts the highlight when it is not held
/// back.
pub open spec fn step_of(direction: Direction) -> int {
    match direction {
        Direction::Left => -1,
        Direction::Right => 1,
        Direction::Up => -3,
        Direction::Down => 3,
    }
}

/// After `n` moves in one direction the highlight is in the listing, and
/// either every move shifted it or it sits where a further move is held back.
proof fn lemma_navigate_progress(p: PaneModel, direction: Direction, n: nat)
    requires
        0 <= p.highlight_index < 30,
    ensures
        0 <= navigate_times(p, direction, n).highlight_index < 30,
        navigate_times(p, direction, n).highlight_index == p.highlight_index + n * step_of(direction)
            || navigate_times(p, direction, n).navigate(direction) == navigate_times(
            p,
            direction,
            n,
        ),
    decreases n,
{
    if n > 0 {
        lemma_navigate_progress(p, direction, (n - 1) as nat);
        let d = step_of(direction);
        assert((n - 1) * d + d == n * d) by (nonlinear_arith);
    }
}

/// Wrapping a text fills an interior: 330 cells, whatever the text.
pub proof fn lemma_wrap_len(text: Seq<char>, width: int)
    requires
        0 <= width <= 33,
    ensures
        wrap(text, width).cells.len() == 330,
        0 <= wrap(text, width).row,
        0 <= wrap(text, width).col <= 33,
    decreases text.len(),
{
    if text.len() > 0 {
        lemma_wrap_len(text.drop_last(), width);
    }
}

/// Showing a wrapped text keeps the invariant and the frame.
pub proof fn lemma_show_wrapped_wf(p: PaneModel, text: Seq<char>, width: int)
    requires
        p.wf(),
        0 <= width <= 33,
    ensures
        p.show_wrapped(text, width).wf(),
        same_frame(p, p.show_wrapped(text, width)),
{
    lemma_wrap_len(text, width);
    lemma_set_contents_wf(p, wrap(text, width).cells);
    lemma_find_end_wf(p.set_contents(wrap(text, width).cells));
}

/// Showing a listing keeps the invariant; the pane then lists and is not
/// being edited.
pub proof fn lemma_show_listing_wf(p: PaneModel, directory: Seq<Seq<u8>>)
    requires
        p.wf(),
    ensures
        p.show_listing(directory).wf(),
        p.show_listing(directory).listing,
        !p.show_listing(directory).being_edited,
        p.show_listing(directory).selected == p.selected,
{
    lemma_show_wrapped_wf(
        PaneModel { listing: true, being_edited: false, ..p },
        listing_text(directory),
        30,
    );
}

/// Opening a file keeps the invariant; the pane is then being edited and
/// does not list.
pub proof fn lemma_open_file_wf(p: PaneModel, name: Seq<u8>, contents: Seq<u8>)
    requires
        p.wf(),
        name.len() == 10,
    ensures
        p.open_file(name, contents).wf(),
        p.open_file(name, contents).being_edited,
        !p.open_file(name, contents).listing,
        p.open_file(name, contents).selected == p.selected,
{
    let q = PaneModel {
        being_edited: true,
        listing: false,
        bound_filename: name,
        raw_bytes: padded(contents),
        ..p
    };
    lemma_find_end_wf(q);
    lemma_show_wrapped_wf(q.find_byte_end(), file_text(padded(contents)), 33);
}

/// Blanking a pane keeps the invariant and the frame.
pub proof fn lemma_blanked_wf(p: PaneModel)
    requires
        p.wf(),
    ensures
        p.blanked().wf(),
        same_frame(p, p.blanked()),
{
    lemma_set_contents_wf(p, Seq::new(330, |k: int| '\0'));
}

/// Recolouring a pane keeps the invariant.
pub proof fn lemma_colors_wf(p: PaneModel)
    requires
        p.wf(),
    ensures
        p.reset_colors().wf(),
        p.highlight_colors().wf(),
{
}

/// The bytes that typing the characters of `s` puts into the raw buffer: the
/// low eight bits of each character that is not the erase sentinel, in order.
pub open spec fn typed_bytes(s: Seq<char>) -> Seq<u8>
    decreases s.len(),
{
    if s.len() == 0 {
        Seq::empty()
    } else if s.last() != '\0' {
        typed_bytes(s.drop_last()).push(byte_of(s.last()))
    } else {
        typed_bytes(s.drop_last())
    }
}

/// Typing within capacity writes the typed bytes into the raw buffer, in
/// order, from the byte cursor on. No other byte changes, but that the byte
/// at the new byte cursor may have been zeroed by an erase sentinel.
pub proof fn law_raw_bytes_follow_typing(p: PaneModel, s: Seq<char>)
    requires
        p.wf(),
        p.edit_cursor + typed_bytes(s).len() <= 330,
        p.byte_cursor + typed_bytes(s).len() <= 2048,
    ensures
        p.type_all(s).wf(),
        p.type_all(s).byte_cursor == p.byte_cursor + typed_bytes(s).len(),
        p.type_all(s).edit_cursor <= p.edit_cursor + typed_bytes(s).len(),
        forall|j: int|
            0 <= j < typed_bytes(s).len() ==> p.type_all(s).raw_bytes[p.byte_cursor + j]
                == #[trigger] typed_bytes(s)[j],
        forall|j: int|
            0 <= j < 2048 && !(p.byte_cursor <= j <= p.byte_cursor + typed_bytes(s).len())
                ==> p.type_all(s).raw_bytes[j] == p.raw_bytes[j],
        p.byte_cursor + typed_bytes(s).len() < 2048 ==> {
            let at = p.byte_cursor + typed_bytes(s).len();
            p.type_all(s).raw_bytes[at] == p.raw_bytes[at] || p.type_all(s).raw_bytes[at] == 0u8
        },
    decreases s.len(),
{
    if s.len() > 0 {
        let t = s.drop_last();
        let c = s.last();
        let q = p.type_all(t);
        law_raw_bytes_follow_typing(p, t);
        lemma_type_char_wf(q, c);
        let r = q.type_char(c);
        assert(p.type_all(s) == r);
        if 0 <= q.edit_cursor < 330 {
            let written = q.put_cell(q.edit_cursor, shown(c)).put_byte(q.byte_cursor, byte_of(c));
            lemma_put_cell_wf(q, q.edit_cursor, shown(c));
            if c == '\0' {
                lemma_settle(written);
            }
        }
        assert forall|j: int| 0 <= j < typed_bytes(s).len() implies r.raw_bytes[p.byte_cursor + j]
            == #[trigger] typed_bytes(s)[j] by {
            if j < typed_bytes(t).len() {
                assert(q.raw_bytes[p.byte_cursor + j] == typed_bytes(t)[j]);
            }
        }
    }
}

/// In a fresh pane, the raw buffer holds exactly the typed bytes, then
/// zeros; and what is saved, the raw bytes up to the last one that is not
/// zero, is the typed bytes whenever these do not end in a zero byte.
pub proof fn law_fresh_pane_holds_typed_bytes(label: char, s: Seq<char>)
    requires
        typed_bytes(s).len() <= 330,
    ensures
        PaneModel::blank(label).type_all(s).raw_bytes == typed_bytes(s) + Seq::new(
            (2048 - typed_bytes(s).len()) as nat,
            |i: int| 0u8,
        ),
        typed_bytes(s).len() == 0 || typed_bytes(s).last() != 0u8 ==> PaneModel::blank(
            label,
        ).type_all(s).saved_bytes() == typed_bytes(s),
{
    let p = PaneModel::blank(label);
    let q = p.type_all(s);
    let k = typed_bytes(s).len() as int;
    lemma_blank_wf(label);
    law_raw_bytes_follow_typing(p, s);
    let expected = typed_bytes(s) + Seq::new((2048 - k) as nat, |i: int| 0u8);
    assert forall|j: int| 0 <= j < 2048 implies q.raw_bytes[j] == expected[j] by {
        if j < k {
            assert(q.raw_bytes[0 + j] == typed_bytes(s)[j]);
        } else {
            assert(p.raw_bytes[j] == 0u8);
            assert(expected[j] == 0u8);
        }
    }
    assert(q.raw_bytes =~= expected);
    if k == 0 || typed_bytes(s).last() != 0u8 {
        lemma_content_end_unique(q.raw_bytes, 0u8, k);
        assert(q.saved_bytes() =~= typed_bytes(s));
    }
}

/// A blank pane satisfies the invariant.
pub proof fn lemma_blank_wf(label: char)
    ensures
        PaneModel::blank(label).wf(),
{
    let p = PaneModel::blank(label);
    assert forall|k: int| 0 <= k < 330 implies p.grid[grid_index(k)] == #[trigger] p.interior[k] by {
        lemma_grid_interior(k);
    }
}

/// Typing characters other than the erase sentinel within capacity fills
/// the cells from the edit cursor on, one cell per character and in order,
/// and changes no other cell.
pub proof fn law_typing_fills_cells_in_order(p: PaneModel, s: Seq<char>)
    requires
        p.wf(),
        forall|i: int| 0 <= i < s.len() ==> s[i] != '\0',
        p.edit_cursor + s.len() <= 330,
    ensures
        p.type_all(s).wf(),
        p.type_all(s).edit_cursor == p.edit_cursor + s.len(),
        forall|j: int|
            0 <= j < s.len() ==> #[trigger] p.type_all(s).interior[p.edit_cursor + j] == shown(s[j]),
        forall|j: int|
            0 <= j < 330 && !(p.edit_cursor <= j < p.edit_cursor + s.len()) ==> p.type_all(
                s,
            ).interior[j] == p.interior[j],
    decreases s.len(),
{
    if s.len() > 0 {
        let t = s.drop_last();
        let q = p.type_all(t);
        law_typing_fills_cells_in_order(p, t);
        lemma_type_char_wf(q, s.last());
        let r = q.type_char(s.last());
        assert(p.type_all(s) == r);
        assert forall|j: int| 0 <= j < s.len() implies #[trigger] r.interior[p.edit_cursor + j]
            == shown(s[j]) by {
            if j < t.len() {
                assert(q.interior[p.edit_cursor + j] == shown(t[j]));
            }
        }
    }
}

/// Typing exactly one row of characters into a fresh pane fills row 0 and
/// leaves the edit cursor at row 1, column 0; the next character is written
/// there.
pub proof fn law_full_row_then_wrap(label: char, s: Seq<char>, next: char)
    requires
        s.len() == 33,
        forall|i: int| 0 <= i < s.len() ==> s[i] != '\0',
        next != '\0',
    ensures
        PaneModel::blank(label).type_all(s).edit_cursor / 33 == 1,
        PaneModel::blank(label).type_all(s).edit_cursor % 33 == 0,
        forall|j: int|
            0 <= j < 33 ==> #[trigger] PaneModel::blank(label).type_all(s).interior[j] == shown(s[j]),
        forall|j: int|
            33 <= j < 330 ==> #[trigger] PaneModel::blank(label).type_all(s).interior[j] == '\0',
        PaneModel::blank(label).type_all(s).type_char(next).interior[33] == shown(next),
        PaneModel::blank(label).type_all(s).type_char(next).edit_cursor == 34,
{
    let p = PaneModel::blank(label);
    lemma_blank_wf(label);
    law_typing_fills_cells_in_order(p, s);
    let q = p.type_all(s);
    assert forall|j: int| 0 <= j < 33 implies #[trigger] q.interior[j] == shown(s[j]) by {
        assert(q.interior[p.edit_cursor + j] == shown(s[j]));
    }
    assert forall|j: int| 33 <= j < 330 implies #[trigger] q.interior[j] == '\0' by {
        assert(p.interior[j] == '\0');
    }
}

/// An erase at the first column of a row whose previous row is full moves
/// the edit cursor to the last column of the previous row, blanks that cell,
/// and changes no other cell.
pub proof fn law_erase_after_wrap(p: PaneModel)
    requires
        p.wf(),
        p.edit_cursor >= 33,
        p.edit_cursor % 33 == 0,
        forall|j: int| p.edit_cursor - 33 <= j < p.edit_cursor ==> p.interior[j] != '\0',
    ensures
        p.erase().edit_cursor == p.edit_cursor - 1,
        p.erase().interior == p.interior.update(p.edit_cursor - 1, '\0'),
{
    lemma_content_end(p.raw_bytes, 0u8);
    let end = content_end(p.raw_bytes, 0u8);
    let k = p.edit_cursor - 1;
    let q = PaneModel { edit_cursor: k, byte_cursor: if end > 0 { end - 1 } else { 0 }, ..p };
    let written = q.put_cell(k, '\0').put_byte(q.byte_cursor, 0u8);
    assert(p.interior[k - 1] != '\0');
    assert(p.interior[k - 2] != '\0');
    assert(written.interior[k - 1] == p.interior[k - 1]);
    assert(written.interior[k - 2] == p.interior[k - 2]);
    assert(written.settle() == written);
    assert(p.erase() == written);
}

/// An erase at the first column of a row always lands in the previous row:
/// behind that row's last cell that is not blank, with blanks from there to
/// the row's end, and no other cell changed.
pub proof fn law_erase_lands_in_previous_row(p: PaneModel)
    requires
        p.wf(),
        p.edit_cursor >= 33,
        p.edit_cursor % 33 == 0,
    ensures
        p.edit_cursor - 33 <= p.erase().edit_cursor < p.edit_cursor,
        forall|j: int| p.erase().edit_cursor <= j < p.edit_cursor ==> p.erase().interior[j] == '\0',
        forall|j: int|
            0 <= j < 330 && !(p.erase().edit_cursor <= j < p.edit_cursor) ==> p.erase().interior[j]
                == p.interior[j],
        p.erase().edit_cursor % 33 != 0 && p.erase().edit_cursor > 1 ==> !blank_before(
            p.erase().interior,
            p.erase().edit_cursor,
        ),
{
    lemma_content_end(p.raw_bytes, 0u8);
    let end = content_end(p.raw_bytes, 0u8);
    let k = p.edit_cursor - 1;
    let q = PaneModel { edit_cursor: k, byte_cursor: if end > 0 { end - 1 } else { 0 }, ..p };
    lemma_put_cell_wf(q, k, '\0');
    let written = q.put_cell(k, '\0').put_byte(q.byte_cursor, 0u8);
    lemma_settle(written);
    let r = written.settle();
    assert(p.erase() == r);
    assert forall|j: int| r.edit_cursor <= j < p.edit_cursor implies r.interior[j] == '\0' by {
        if j == k {
            assert(written.interior[k] == '\0');
        }
    }
    assert forall|j: int| 0 <= j < 330 && !(r.edit_cursor <= j < p.edit_cursor) implies r.interior[j]
        == p.interior[j] by {
        assert(written.interior[j] == p.interior[j]);
    }
}

} // verus!
