//! What holds of every desktop: the invariant that every transition keeps,
//! and the laws of the scheduler's rotation.

use vstd::prelude::*;
use crate::desk::{done_marker, error_marker, DeskModel, SlotModel};
use crate::events::{ControlKey, KeyEvent, StepModel, TickOutcome, TurnModel};
use crate::pane::{Direction, PaneModel};
use crate::pane_laws::{
    law_navigate_in_bounds, lemma_append_output_wf, lemma_blanked_wf,
    lemma_colors_wf, lemma_edit_key_wf, lemma_edit_keys_wf, lemma_erase_wf, lemma_newline_wf,
    lemma_open_file_wf, lemma_render_borders_wf, lemma_show_listing_wf, lemma_show_wrapped_wf,
    same_frame,
};

verus! {

/// Replacing a pane by one that satisfies the pane invariant and has the
/// same flags keeps the desktop's invariant.
pub proof fn lemma_set_pane_wf(d: DeskModel, i: int, pane: PaneModel)
    requires
        d.wf(),
        0 <= i < 4,
        pane.wf(),
        pane.selected == d.panes[i].selected,
        pane.being_edited == d.panes[i].being_edited,
        pane.listing == d.panes[i].listing,
    ensures
        d.set_pane(i, pane).wf(),
{
    let e = d.set_pane(i, pane);
    assert forall|j: int| 0 <= j < 4 implies (#[trigger] e.panes[j]).wf() by {
        if j != i {
            assert(e.panes[j] == d.panes[j]);
        }
    }
    assert forall|j: int| 0 <= j < 4 implies (#[trigger] e.panes[j]).selected == (e.selected == j
        + 1) by {
        assert(d.panes[j].selected == (d.selected == j + 1));
    }
    assert forall|j: int| 0 <= j < 4 implies ((#[trigger] e.panes[j]).being_edited <==> e.editing
        && e.selected == j + 1) by {
        assert(d.panes[j].being_edited <==> d.editing && d.selected == j + 1);
    }
    assert forall|j: int| 0 <= j < 3 && (#[trigger] e.slots[j]).active implies !e.panes[j].being_edited
        && !e.panes[j].listing by {
        assert(d.slots[j].active);
    }
}

/// A redraw keeps the invariant, the slots and the modes.
pub proof fn lemma_draw_wf(d: DeskModel)
    requires
        d.wf(),
    ensures
        d.update_colors().wf(),
        d.update_borders().wf(),
        d.compose().wf(),
        d.draw().wf(),
        d.draw().slots == d.slots,
        d.draw().turn_index == d.turn_index,
        d.draw().selected == d.selected,
        d.draw().editing == d.editing,
        d.draw().typing_filename == d.typing_filename,
{
    lemma_colors_step(d);
    lemma_borders_step(d);
    lemma_borders_step(d.update_colors());
}

/// Recolouring the panes keeps the invariant.
proof fn lemma_colors_step(d: DeskModel)
    requires
        d.wf(),
    ensures
        d.update_colors().wf(),
{
    let e = d.update_colors();
    assert forall|i: int| 0 <= i < 4 implies (#[trigger] e.panes[i]).wf() by {
        lemma_colors_wf(d.panes[i]);
    }
    assert forall|i: int| 0 <= i < 4 implies (#[trigger] e.panes[i]).selected == (e.selected == i
        + 1) by {
        assert(d.panes[i].selected == (d.selected == i + 1));
    }
    assert forall|i: int| 0 <= i < 4 implies ((#[trigger] e.panes[i]).being_edited <==> e.editing
        && e.selected == i + 1) by {
        assert(d.panes[i].being_edited <==> d.editing && d.selected == i + 1);
    }
    assert forall|i: int| 0 <= i < 3 && (#[trigger] e.slots[i]).active implies !e.panes[i].being_edited
        && !e.panes[i].listing by {
        assert(d.slots[i].active);
    }
}

/// Drawing the borders keeps the invariant.
proof fn lemma_borders_step(d: DeskModel)
    requires
        d.wf(),
    ensures
        d.update_borders().wf(),
{
    let e = d.update_borders();
    assert forall|i: int| 0 <= i < 4 implies (#[trigger] e.panes[i]).wf() by {
        lemma_render_borders_wf(d.panes[i]);
    }
    assert forall|i: int| 0 <= i < 4 implies (#[trigger] e.panes[i]).selected == (e.selected == i
        + 1) by {
        assert(d.panes[i].selected == (d.selected == i + 1));
    }
    assert forall|i: int| 0 <= i < 4 implies ((#[trigger] e.panes[i]).being_edited <==> e.editing
        && e.selected == i + 1) by {
        assert(d.panes[i].being_edited <==> d.editing && d.selected == i + 1);
    }
    assert forall|i: int| 0 <= i < 3 && (#[trigger] e.slots[i]).active implies !e.panes[i].being_edited
        && !e.panes[i].listing by {
        assert(d.slots[i].active);
    }
}

/// Selecting a pane keeps the invariant, also when the entry of a file name
/// is switched on or off with it, as long as a file name is entered only
/// while no pane is selected.
pub proof fn lemma_update_in_use_wf(d: DeskModel, n: int, typing: bool)
    requires
        d.wf(),
        typing ==> !(1 <= n <= 4),
    ensures
        d.update_in_use(n).wf(),
        !d.editing ==> (DeskModel { typing_filename: typing, ..d.update_in_use(n) }).wf(),
{
    if !d.editing {
        lemma_select_wf(d, n, typing);
        lemma_select_wf(d, n, d.typing_filename && !(1 <= n <= 4));
    }
}

/// Selecting a pane while the editor is closed keeps the invariant.
proof fn lemma_select_wf(d: DeskModel, n: int, typing: bool)
    requires
        d.wf(),
        !d.editing,
        typing ==> !(1 <= n <= 4),
    ensures
        (DeskModel { typing_filename: typing, ..d.update_in_use(n) }).wf(),
        (DeskModel { typing_filename: typing, ..d.update_in_use(n) }) == (DeskModel {
            typing_filename: typing,
            ..d.select(n)
        }).update_borders().compose(),
{
    let e = DeskModel { typing_filename: typing, ..d.select(n) };
    assert forall|i: int| 0 <= i < 4 implies (#[trigger] e.panes[i]).wf() by {
        assert(d.panes[i].wf());
    }
    assert forall|i: int| 0 <= i < 4 implies ((#[trigger] e.panes[i]).being_edited <==> e.editing
        && e.selected == i + 1) by {
        assert(d.panes[i].being_edited <==> d.editing && d.selected == i + 1);
    }
    assert forall|i: int| 0 <= i < 3 && (#[trigger] e.slots[i]).active implies !e.panes[i].being_edited
        && !e.panes[i].listing by {
        assert(d.slots[i].active);
    }
    assert(e.wf());
    lemma_borders_step(e);
    let a = DeskModel { typing_filename: typing, ..d.update_in_use(n) };
    let b = e.update_borders().compose();
    assert(a.panes =~= b.panes);
    assert(a.screen =~= b.screen);
    assert(a.screen_foreground =~= b.screen_foreground);
    assert(a.screen_background =~= b.screen_background);
    assert(a == b);
}

/// Showing a text in a pane keeps the invariant.
pub proof fn lemma_write_to_window_wf(d: DeskModel, n: int, text: Seq<char>)
    requires
        d.wf(),
    ensures
        d.write_to_window(n, text).wf(),
{
    if 1 <= n <= 4 {
        let width = if d.editing { 33int } else { 30int };
        lemma_show_wrapped_wf(d.panes[n - 1], text, width);
        lemma_set_pane_wf(d, n - 1, d.panes[n - 1].show_wrapped(text, width));
    }
}

/// Showing listings keeps the invariant.
pub proof fn lemma_listing_wf(d: DeskModel, directory: Seq<Seq<u8>>)
    requires
        d.wf(),
    ensures
        d.default_window(directory).wf(),
        d.make_initial_files(directory).wf(),
        d.refresh_listings(directory).wf(),
{
    if d.has_selection() && d.may_list(d.selected - 1) {
        let i = d.selected - 1;
        lemma_show_listing_wf(d.panes[i], directory);
        let e = d.set_pane(i, d.panes[i].show_listing(directory));
        lemma_panes_replaced_wf(d, e);
        lemma_draw_wf(e);
    } else {
        lemma_draw_wf(d);
    }
    let all = DeskModel {
        panes: Seq::new(
            4,
            |i: int| if d.may_list(i) { d.panes[i].show_listing(directory) } else { d.panes[i] },
        ),
        ..d
    };
    assert forall|i: int| 0 <= i < 4 implies listing_step(d.panes[i], #[trigger] all.panes[i]) by {
        lemma_show_listing_wf(d.panes[i], directory);
    }
    lemma_panes_replaced_wf(d, all);
    lemma_draw_wf(all);
    let some = DeskModel {
        panes: Seq::new(
            4,
            |i: int|
                if d.panes[i].listing && d.may_list(i) {
                    d.panes[i].show_listing(directory)
                } else {
                    d.panes[i]
                },
        ),
        ..d
    };
    assert forall|i: int| 0 <= i < 4 implies listing_step(d.panes[i], #[trigger] some.panes[i]) by {
        lemma_show_listing_wf(d.panes[i], directory);
    }
    lemma_panes_replaced_wf(d, some);
    lemma_draw_wf(some);
}

/// How a pane may change when listings are shown: not at all, or into a
/// listing that is not being edited.
pub open spec fn listing_step(p: PaneModel, q: PaneModel) -> bool {
    q == p || (q.wf() && q.listing && !q.being_edited && q.selected == p.selected)
}

/// Replacing panes that may list by listings keeps the invariant.
proof fn lemma_panes_replaced_wf(d: DeskModel, e: DeskModel)
    requires
        d.wf(),
        e == (DeskModel { panes: e.panes, ..d }),
        e.panes.len() == 4,
        forall|i: int| 0 <= i < 4 ==> listing_step(d.panes[i], #[trigger] e.panes[i]),
        forall|i: int| 0 <= i < 4 && e.panes[i] != d.panes[i] ==> d.may_list(i),
    ensures
        e.wf(),
{
    assert forall|i: int| 0 <= i < 4 implies (#[trigger] e.panes[i]).wf() by {
        assert(d.panes[i].wf());
    }
    assert forall|i: int| 0 <= i < 4 implies (#[trigger] e.panes[i]).selected == (e.selected == i
        + 1) by {
        assert(d.panes[i].selected == (d.selected == i + 1));
    }
    assert forall|i: int| 0 <= i < 4 implies ((#[trigger] e.panes[i]).being_edited <==> e.editing
        && e.selected == i + 1) by {
        assert(d.panes[i].being_edited <==> d.editing && d.selected == i + 1);
        assert(listing_step(d.panes[i], e.panes[i]));
        assert(e.panes[i] != d.panes[i] ==> d.may_list(i));
    }
    assert forall|i: int| 0 <= i < 3 && (#[trigger] e.slots[i]).active implies !e.panes[i].being_edited
        && !e.panes[i].listing by {
        assert(d.slots[i].active);
        assert(d.slot_active(i));
        assert(e.panes[i] != d.panes[i] ==> d.may_list(i));
    }
}

/// Opening a file and starting a program keep the invariant.
pub proof fn lemma_files_wf(d: DeskModel, name: Seq<u8>, contents: Seq<u8>)
    requires
        d.wf(),
        name.len() == 10,
    ensures
        d.edit_file_setup(name, contents).wf(),
        d.run_file(name).wf(),
{
    if d.browsing() {
        let i = d.selected - 1;
        lemma_open_file_wf(d.panes[i], name, contents);
        let e = DeskModel { editing: true, ..d }.set_pane(i, d.panes[i].open_file(name, contents));
        assert forall|j: int| 0 <= j < 4 implies (#[trigger] e.panes[j]).wf() by {
            assert(d.panes[j].wf());
        }
        assert forall|j: int| 0 <= j < 4 implies (#[trigger] e.panes[j]).selected == (e.selected
            == j + 1) by {
            assert(d.panes[j].selected == (d.selected == j + 1));
        }
        assert forall|j: int| 0 <= j < 4 implies ((#[trigger] e.panes[j]).being_edited <==> e.editing
            && e.selected == j + 1) by {
            assert(d.panes[j].being_edited <==> d.editing && d.selected == j + 1);
        }
        assert forall|j: int| 0 <= j < 3 && (#[trigger] e.slots[j]).active implies !e.panes[j].being_edited
            && !e.panes[j].listing by {
            assert(d.slots[j].active);
        }
        lemma_draw_wf(e);
    } else {
        lemma_draw_wf(d);
    }
    if d.can_run() {
        let i = d.selected - 1;
        lemma_blanked_wf(d.panes[i]);
        let e = d.set_pane(i, d.panes[i].begin_run(name)).set_slot(i, SlotModel::started());
        assert forall|j: int| 0 <= j < 4 implies (#[trigger] e.panes[j]).wf() by {
            assert(d.panes[j].wf());
        }
        assert forall|j: int| 0 <= j < 3 implies (#[trigger] e.slots[j]).wf() by {
            assert(d.slots[j].wf());
        }
        assert forall|j: int| 0 <= j < 4 implies (#[trigger] e.panes[j]).selected == (e.selected
            == j + 1) by {
            assert(d.panes[j].selected == (d.selected == j + 1));
        }
        assert forall|j: int| 0 <= j < 4 implies ((#[trigger] e.panes[j]).being_edited <==> e.editing
            && e.selected == j + 1) by {
            assert(d.panes[j].being_edited <==> d.editing && d.selected == j + 1);
        }
        assert forall|j: int| 0 <= j < 3 && (#[trigger] e.slots[j]).active implies !e.panes[j].being_edited
            && !e.panes[j].listing by {
            if j != i {
                assert(d.slots[j].active);
            }
        }
        lemma_draw_wf(e);
    } else {
        lemma_draw_wf(d);
    }
}

/// A key in the selected pane's text keeps the invariant.
pub proof fn lemma_edit_file_text_wf(d: DeskModel, key: char)
    requires
        d.wf(),
    ensures
        d.edit_file_text(key).wf(),
{
    if d.has_selection() {
        let i = d.selected - 1;
        lemma_edit_key_wf(d.panes[i], key);
        lemma_set_pane_wf(d, i, d.panes[i].edit_key(key));
    }
}

/// Closing the editor and cancelling keep the invariant.
pub proof fn lemma_cancel_wf(d: DeskModel)
    requires
        d.wf(),
    ensures
        d.shut_off_editing().wf(),
        d.cancel().wf(),
{
    let s = d.shut_off_editing();
    assert forall|j: int| 0 <= j < 4 implies (#[trigger] s.panes[j]).wf() by {
        assert(d.panes[j].wf());
    }
    assert forall|j: int| 0 <= j < 4 implies (#[trigger] s.panes[j]).selected == (s.selected == j
        + 1) by {
        assert(d.panes[j].selected == (d.selected == j + 1));
    }
    assert forall|j: int| 0 <= j < 4 implies ((#[trigger] s.panes[j]).being_edited <==> s.editing
        && s.selected == j + 1) by {
        assert(d.panes[j].being_edited <==> d.editing && d.selected == j + 1);
    }
    assert forall|j: int| 0 <= j < 3 && (#[trigger] s.slots[j]).active implies !s.panes[j].being_edited
        && !s.panes[j].listing by {
        assert(d.slots[j].active);
        assert(d.panes[j].being_edited <==> d.editing && d.selected == j + 1);
    }
    assert(s.wf());
    if s.has_selection() {
        let i = s.selected - 1;
        let t = if i < 3 { s.set_slot(i, SlotModel::idle()) } else { s };
        lemma_blanked_wf(t.panes[i]);
        let e = t.set_pane(i, t.panes[i].closed());
        assert(e == d.cancel());
        assert forall|j: int| 0 <= j < 4 implies (#[trigger] e.panes[j]).wf() by {
            assert(s.panes[j].wf());
        }
        assert forall|j: int| 0 <= j < 3 implies (#[trigger] e.slots[j]).wf() by {
            assert(s.slots[j].wf());
        }
        assert forall|j: int| 0 <= j < 4 implies (#[trigger] e.panes[j]).selected == (e.selected
            == j + 1) by {
            assert(s.panes[j].selected == (s.selected == j + 1));
        }
        assert forall|j: int| 0 <= j < 4 implies ((#[trigger] e.panes[j]).being_edited <==> e.editing
            && e.selected == j + 1) by {
            assert(s.panes[j].being_edited <==> s.editing && s.selected == j + 1);
        }
        assert forall|j: int| 0 <= j < 3 && (#[trigger] e.slots[j]).active implies !e.panes[j].being_edited
            && !e.panes[j].listing by {
            if j != i {
                assert(s.slots[j].active);
            }
        }
    }
}

/// Moving the highlight keeps the invariant.
pub proof fn lemma_move_highlight_wf(d: DeskModel, direction: Direction)
    requires
        d.wf(),
    ensures
        d.move_highlight(direction).wf(),
{
    if d.browsing() {
        let i = d.selected - 1;
        assert(d.panes[i].wf());
        law_navigate_in_bounds(d.panes[i], direction);
        lemma_set_pane_wf(d, i, d.panes[i].navigate(direction));
    }
}

/// Every control key keeps the invariant.
pub proof fn lemma_handle_raw_wf(d: DeskModel, key: ControlKey)
    requires
        d.wf(),
    ensures
        d.handle_raw(key).wf(),
{
    lemma_cancel_wf(d);
    lemma_move_highlight_wf(d, Direction::Left);
    lemma_move_highlight_wf(d, Direction::Right);
    lemma_move_highlight_wf(d, Direction::Up);
    lemma_move_highlight_wf(d, Direction::Down);
    if !d.selection_locked() {
        lemma_update_in_use_wf(d, 1, false);
        lemma_update_in_use_wf(d, 2, false);
        lemma_update_in_use_wf(d, 3, false);
        lemma_update_in_use_wf(d, 4, false);
        lemma_update_in_use_wf(d, 0, true);
    }
}

/// Every character key keeps the invariant.
pub proof fn lemma_handle_unicode_wf(d: DeskModel, key: char, alnum: bool)
    requires
        d.wf(),
    ensures
        d.handle_unicode(key, alnum).wf(),
{
    if d.typing_filename {
        let e = d.type_filename(key, alnum);
        assert(e.panes == d.panes);
        assert(e.slots == d.slots);
    } else if d.editing {
        lemma_edit_file_text_wf(d, key);
    } else if d.input_blocked() {
        let i = d.selected - 1;
        let pane = d.panes[i];
        let slot = d.slots[i];
        assert(pane.wf());
        assert(slot.wf());
        lemma_newline_wf(pane);
        lemma_edit_key_wf(pane, key);
        lemma_erase_wf(pane);
        let e = d.type_input(key);
        if e != d {
            let s = e.slots[i];
            let mid = d.set_slot(i, s);
            assert(s.wf());
            assert(s.active == slot.active);
            assert forall|j: int| 0 <= j < 3 implies (#[trigger] mid.slots[j]).wf() by {
                assert(d.slots[j].wf());
            }
            assert forall|j: int| 0 <= j < 3 && (#[trigger] mid.slots[j]).active implies !mid.panes[j].being_edited
                && !mid.panes[j].listing by {
                assert(d.slots[j].active);
            }
            assert(mid.wf());
            lemma_set_pane_wf(mid, i, e.panes[i]);
            assert(e =~= mid.set_pane(i, e.panes[i]));
        }
    }
}

/// Every key keeps the invariant.
pub proof fn law_key_keeps_invariant(d: DeskModel, event: KeyEvent, alnum: bool)
    requires
        d.wf(),
    ensures
        d.key(event, alnum).wf(),
{
    let c = d.clear_notice();
    assert(c.wf());
    match event {
        KeyEvent::Control(k) => {
            lemma_handle_raw_wf(c, k);
            lemma_draw_wf(c.handle_raw(k));
        },
        KeyEvent::Character(ch) => {
            lemma_handle_unicode_wf(c, ch, alnum);
            lemma_draw_wf(c.handle_unicode(ch, alnum));
        },
    }
}

/// Showing a notice keeps the invariant.
pub proof fn lemma_report_failure_wf(d: DeskModel, message: Seq<u8>)
    requires
        d.wf(),
    ensures
        d.report_failure(message).wf(),
{
    let e = DeskModel {
        notice: Seq::new(45, |k: int| if k < message.len() { message[k] as char } else { '\0' }),
        ..d
    };
    assert(e.wf());
    lemma_draw_wf(e);
}

/// Printing batches of output keeps the pane's invariant and frame.
pub proof fn lemma_print_all_wf(pane: PaneModel, printed: Seq<Seq<u8>>)
    requires
        pane.wf(),
    ensures
        DeskModel::print_all(pane, printed).wf(),
        same_frame(pane, DeskModel::print_all(pane, printed)),
    decreases printed.len(),
{
    if printed.len() > 0 {
        lemma_print_all_wf(pane, printed.drop_last());
        lemma_append_output_wf(DeskModel::print_all(pane, printed.drop_last()), printed.last());
    }
}

/// Every invocation of the scheduler keeps the invariant.
pub proof fn law_turn_keeps_invariant(d: DeskModel, step: Option<StepModel>)
    requires
        d.wf(),
    ensures
        d.run_one_instruction(step).wf(),
{
    let t = d.turn_index;
    let e = d.run_one_instruction_acted(step);
    assert(d.slots[t].wf());
    assert(d.panes[t].wf());
    let pane = e.panes[t];
    let slot = e.slots[t];
    match d.plan_turn() {
        TurnModel::Step { .. } => {
            if let Some(s) = step {
                lemma_print_all_wf(d.panes[t], s.printed);
                let printed = DeskModel::print_all(d.panes[t], s.printed);
                lemma_edit_keys_wf(printed, done_marker());
                lemma_edit_keys_wf(printed, error_marker());
            }
        },
        _ => {},
    }
    assert(pane.wf());
    assert(same_frame(d.panes[t], pane));
    assert(slot.wf());
    assert(slot.active ==> d.slots[t].active);
    assert(e.panes =~= d.panes.update(t, pane));
    assert(e.slots =~= d.slots.update(t, slot));
    assert forall|j: int| 0 <= j < 4 implies (#[trigger] e.panes[j]).wf() by {
        assert(d.panes[j].wf());
    }
    assert forall|j: int| 0 <= j < 3 implies (#[trigger] e.slots[j]).wf() by {
        assert(d.slots[j].wf());
    }
    assert forall|j: int| 0 <= j < 4 implies (#[trigger] e.panes[j]).selected == (e.selected == j
        + 1) by {
        assert(d.panes[j].selected == (d.selected == j + 1));
    }
    assert forall|j: int| 0 <= j < 4 implies ((#[trigger] e.panes[j]).being_edited <==> e.editing
        && e.selected == j + 1) by {
        assert(d.panes[j].being_edited <==> d.editing && d.selected == j + 1);
    }
    assert forall|j: int| 0 <= j < 3 && (#[trigger] e.slots[j]).active implies !e.panes[j].being_edited
        && !e.panes[j].listing by {
        assert(d.slots[j].active);
    }
    lemma_draw_wf(e);
}

/// Drawing the status sidebar keeps the invariant.
pub proof fn lemma_draw_proc_status_wf(d: DeskModel)
    requires
        d.wf(),
    ensures
        d.draw_proc_status().wf(),
{
}

/// The turn index advances by exactly one position round the three slots
/// on every invocation of the scheduler, whatever the slot did.
pub proof fn law_turn_always_advances(d: DeskModel, step: Option<StepModel>)
    requires
        d.wf(),
    ensures
        d.run_one_instruction(step).turn_index == (d.turn_index + 1) % 3,
{
    lemma_draw_wf_turn(d.run_one_instruction_acted(step));
}

/// A redraw changes neither the slots nor the turn index nor what the panes
/// hold as text.
pub proof fn lemma_draw_wf_turn(d: DeskModel)
    requires
        d.panes.len() == 4,
    ensures
        d.draw().slots == d.slots,
        d.draw().turn_index == d.turn_index,
        d.draw().selected == d.selected,
        d.draw().panes.len() == 4,
        forall|i: int|
            0 <= i < 4 ==> (#[trigger] d.draw().panes[i]).interior == d.panes[i].interior
                && d.draw().panes[i].raw_bytes == d.panes[i].raw_bytes && d.draw().panes[i].edit_cursor
                == d.panes[i].edit_cursor && d.draw().panes[i].byte_cursor == d.panes[i].byte_cursor,
{
}

/// An invocation of the scheduler changes no slot but the one whose turn it
/// is, and the text of no pane but that slot's.
pub proof fn law_turn_changes_own_slot_only(d: DeskModel, step: Option<StepModel>, i: int)
    requires
        d.wf(),
        0 <= i < 4,
        i != d.turn_index,
    ensures
        i < 3 ==> d.run_one_instruction(step).slots[i] == d.slots[i],
        d.run_one_instruction(step).panes[i].interior == d.panes[i].interior,
        d.run_one_instruction(step).panes[i].raw_bytes == d.panes[i].raw_bytes,
        d.run_one_instruction(step).panes[i].edit_cursor == d.panes[i].edit_cursor,
{
    let e = d.run_one_instruction_acted(step);
    lemma_draw_wf_turn(e);
    assert(e.draw().panes[i].interior == e.panes[i].interior);
}

/// No invocation of the scheduler lets a tick count fall, and only a step
/// that lets the program go on raises one, by one.
pub proof fn law_tick_count_is_monotone(d: DeskModel, step: Option<StepModel>, i: int)
    requires
        d.wf(),
        0 <= i < 3,
    ensures
        d.slots[i].tick_count <= d.run_one_instruction(step).slots[i].tick_count <= d.slots[i].tick_count
            + 1,
        d.run_one_instruction(step).slots[i].tick_count > d.slots[i].tick_count ==> i == d.turn_index
            && d.slots[i].runnable() && step is Some && step->0.outcome == TickOutcome::Continue,
{
    let e = d.run_one_instruction_acted(step);
    lemma_draw_wf_turn(e);
}

/// A slot that waits for a line not yet entered does no work: at its turn
/// the plan is idle, and no invocation of the scheduler changes it. Its tick
/// count stands still.
pub proof fn law_blocked_slot_waits(d: DeskModel, step: Option<StepModel>, i: int)
    requires
        d.wf(),
        0 <= i < 3,
        d.slots[i].blocked(),
    ensures
        d.turn_index == i ==> d.plan_turn() == TurnModel::Idle,
        d.run_one_instruction(step).slots[i] == d.slots[i],
{
    let e = d.run_one_instruction_acted(step);
    lemma_draw_wf_turn(e);
}

/// Once the line of a waiting slot has been entered, the plan at the slot's
/// turn is to deliver exactly that line, and the invocation clears the wait.
pub proof fn law_entered_line_is_delivered(d: DeskModel, step: Option<StepModel>)
    requires
        d.wf(),
        d.slots[d.turn_index].active,
        d.slots[d.turn_index].awaiting_input,
        d.slots[d.turn_index].line_ready,
    ensures
        d.plan_turn() == (TurnModel::Deliver {
            slot: d.turn_index,
            line: d.slots[d.turn_index].pending_line,
        }),
        d.run_one_instruction(step).slots[d.turn_index] == d.slots[d.turn_index].delivered(),
        d.run_one_instruction(step).slots[d.turn_index].runnable(),
{
    let e = d.run_one_instruction_acted(step);
    lemma_draw_wf_turn(e);
}

/// With all three slots runnable, three consecutive invocations of the
/// scheduler plan one step for each slot, in rotation from the turn index on,
/// whatever the steps report; then the turn index is where it began.
pub proof fn law_round_robin(d: DeskModel, first: StepModel, second: StepModel, third: StepModel)
    requires
        d.wf(),
        forall|i: int| 0 <= i < 3 ==> (#[trigger] d.slots[i]).runnable(),
    ensures
        d.plan_turn() == (TurnModel::Step { slot: d.turn_index }),
        d.run_one_instruction(Some(first)).plan_turn() == (TurnModel::Step {
            slot: (d.turn_index + 1) % 3,
        }),
        d.run_one_instruction(Some(first)).run_one_instruction(Some(second)).plan_turn() == (
        TurnModel::Step { slot: (d.turn_index + 2) % 3 }),
        d.run_one_instruction(Some(first)).run_one_instruction(Some(second)).run_one_instruction(
            Some(third),
        ).turn_index == d.turn_index,
{
    let t = d.turn_index;
    assert(d.slots[t].runnable());
    let d1 = d.run_one_instruction(Some(first));
    law_turn_keeps_invariant(d, Some(first));
    law_turn_always_advances(d, Some(first));
    law_turn_changes_own_slot_only(d, Some(first), (t + 1) % 3);
    law_turn_changes_own_slot_only(d, Some(first), (t + 2) % 3);
    assert(d.slots[(t + 1) % 3].runnable());
    assert(d.slots[(t + 2) % 3].runnable());
    let d2 = d1.run_one_instruction(Some(second));
    law_turn_keeps_invariant(d1, Some(second));
    law_turn_always_advances(d1, Some(second));
    law_turn_changes_own_slot_only(d1, Some(second), (t + 2) % 3);
    law_turn_keeps_invariant(d2, Some(third));
    law_turn_always_advances(d2, Some(third));
}

/// In a desktop that satisfies the invariant at most one pane is selected,
/// and the three keyboard modes exclude each other.
pub proof fn law_modes_exclude_each_other(d: DeskModel, i: int, j: int)
    requires
        d.wf(),
        0 <= i < 4,
        0 <= j < 4,
    ensures
        d.panes[i].selected && d.panes[j].selected ==> i == j,
        !(d.typing_filename && d.editing),
        !(d.typing_filename && d.input_blocked()),
        !(d.editing && d.input_blocked()),
        i < 3 && d.slots[i].active ==> !d.panes[i].being_edited,
{
    assert(d.panes[i].selected == (d.selected == i + 1));
    assert(d.panes[j].selected == (d.selected == j + 1));
    if d.editing && d.input_blocked() {
        let k = d.selected - 1;
        assert(d.slots[k].active);
        assert(d.panes[k].being_edited <==> d.editing && d.selected == k + 1);
    }
    if i < 3 {
        assert(d.slots[i].active ==> !d.panes[i].being_edited);
    }
}

} // verus!
