//! The line of text that is edited in a dialog.
//!
//! The line is a `tui_input::Input`. Besides its text and its cursor it keeps the text that was
//! last cut, which it does not give out, so the value itself is kept and not its parts.

use crossterm::event::{
    Event, KeyCode as C, KeyEvent as KE, KeyEventKind as K, KeyModifiers as M,
};
use tui_input::backend::crossterm::EventHandler;
use vstd::prelude::*;

use crate::event::{KeyCode, KeyEvent, KeyEventKind, SHIFT};
use crate::text::{opt_text, trim, trim_text};

verus! {

/// `tui_input::Input`, a line of text with a cursor.
#[verifier::external_type_specification]
#[verifier::external_body]
pub struct ExInput(tui_input::Input);

/// The characters of a line.
pub uninterp spec fn input_text(input: tui_input::Input) -> Seq<char>;

/// How many characters stand before the cursor of a line.
pub uninterp spec fn input_cursor(input: tui_input::Input) -> nat;

/// The characters that were last cut from a line.
pub uninterp spec fn input_yank(input: tui_input::Input) -> Seq<char>;

/// Whether the last thing done to a line was to cut from it.
pub uninterp spec fn input_last_was_cut(input: tui_input::Input) -> bool;

/// What a line holds.
#[verifier::ext_equal]
pub ghost struct EditState {
    pub text: Seq<char>,
    pub cursor: nat,
    pub yank: Seq<char>,
    pub last_was_cut: bool,
}

/// What a line holds.
pub open spec fn edit_state(input: tui_input::Input) -> EditState {
    EditState {
        text: input_text(input),
        cursor: input_cursor(input),
        yank: input_yank(input),
        last_was_cut: input_last_was_cut(input),
    }
}

/// A fresh line with the cursor at its end.
pub open spec fn fresh_line(text: Seq<char>) -> EditState {
    EditState { text, cursor: text.len(), yank: Seq::empty(), last_was_cut: false }
}

/// What a line holds after a key.
pub uninterp spec fn after_key(line: EditState, key: KeyEvent) -> EditState;

/// The column of the cursor, counted in cells of the screen.
pub uninterp spec fn cursor_column(text: Seq<char>, cursor: nat) -> nat;

/// How many cells of the line are left out on the left where it is shown in `width` cells.
pub uninterp spec fn scrolled_cells(text: Seq<char>, cursor: nat, width: nat) -> nat;

/// The key types the character `c`.
pub open spec fn types(key: KeyEvent, c: char) -> bool {
    &&& key.code == KeyCode::Char(c)
    &&& key.modifiers.bits == 0 || key.modifiers.bits == SHIFT
    &&& key.kind != KeyEventKind::Release
}

/// The line with a character put in at the cursor.
pub open spec fn typed_in(line: EditState, c: char) -> EditState {
    EditState {
        text: line.text.insert(line.cursor as int, c),
        cursor: line.cursor + 1,
        yank: line.yank,
        last_was_cut: false,
    }
}

/// Calls `tui_input::Input::new`, which gives a line with this text, the cursor behind its last
/// character, and nothing cut from it.
#[verifier::external_body]
pub(crate) fn new_input(value: String) -> (input: tui_input::Input)
    ensures
        input_text(input) == value@,
        input_cursor(input) == value@.len(),
        input_yank(input) == Seq::<char>::empty(),
        input_last_was_cut(input) == false,
{
    tui_input::Input::new(value)
}

/// Calls `tui_input::Input::value`, which gives the text of the line.
#[verifier::external_body]
pub(crate) fn input_value(input: &tui_input::Input) -> (r: &str)
    ensures
        r@ == input_text(*input),
{
    input.value()
}

/// Calls `handle_event`, which `tui_input` has for the events of `crossterm`. What the line holds
/// afterwards is named `after_key` here. A character that is typed without modifier keys, or with
/// the shift key alone, is put in at the cursor.
#[verifier::external_body]
pub(crate) fn handle_key(input: &mut tui_input::Input, key: KeyEvent)
    ensures
        edit_state(*final(input)) == after_key(edit_state(*old(input)), key),
        forall|c: char| #[trigger]
            types(key, c) && input_cursor(*old(input)) <= input_text(*old(input)).len()
                ==> edit_state(*final(input)) == typed_in(edit_state(*old(input)), c),
{
    let code = match key.code {
        KeyCode::Backspace => C::Backspace, KeyCode::Enter => C::Enter, KeyCode::Left => C::Left,
        KeyCode::Right => C::Right, KeyCode::Up => C::Up, KeyCode::Down => C::Down,
        KeyCode::Home => C::Home, KeyCode::End => C::End, KeyCode::PageUp => C::PageUp,
        KeyCode::PageDown => C::PageDown, KeyCode::Delete => C::Delete, KeyCode::Esc => C::Esc,
        KeyCode::Char(c) => C::Char(c), KeyCode::Other => C::Null,
    };
    let kind = match key.kind {
        KeyEventKind::Press => K::Press, KeyEventKind::Repeat => K::Repeat, KeyEventKind::Release => K::Release,
    };
    let modifiers = M::from_bits_retain(key.modifiers.bits);
    input.handle_event(&Event::Key(KE::new_with_kind(code, modifiers, kind)));
}

/// Calls `tui_input::Input::visual_cursor`, whose result is named `cursor_column` here.
#[verifier::external_body]
pub(crate) fn visual_cursor(input: &tui_input::Input) -> (r: usize)
    ensures
        r == cursor_column(input_text(*input), input_cursor(*input)),
{
    input.visual_cursor()
}

/// Calls `tui_input::Input::visual_scroll`, whose result is named `scrolled_cells` here. Nothing
/// is left out while the cursor is in the first `width` cells or directly behind them.
#[verifier::external_body]
pub(crate) fn visual_scroll(input: &tui_input::Input, width: usize) -> (r: usize)
    ensures
        r == scrolled_cells(input_text(*input), input_cursor(*input), width as nat),
        cursor_column(input_text(*input), input_cursor(*input)) <= width ==> r == 0,
{
    input.visual_scroll(width)
}

/// The time limit that a text asks for: the text without the white space around it, unless
/// nothing is left of it.
pub open spec fn asked_limit(text: Seq<char>) -> Option<Seq<char>> {
    if trim(text).len() == 0 {
        None
    } else {
        Some(trim(text))
    }
}

/// Reads the time limit that a text asks for.
pub fn limit_in_text(text: &str) -> (r: Option<String>)
    ensures
        opt_text(r) == asked_limit(text@),
{
    let time_limit = trim_text(text);
    if time_limit.as_str().is_empty() {
        None
    } else {
        Some(time_limit)
    }
}

/// Reads the time limit that was typed.
pub fn validated_time_limit(input: &tui_input::Input) -> (r: Option<String>)
    ensures
        opt_text(r) == asked_limit(input_text(*input)),
{
    limit_in_text(input_value(input))
}

} // verus!
