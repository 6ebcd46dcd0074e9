//! Which row of a list is selected, and which is the first on the screen.

use vstd::prelude::*;

verus! {

/// The position of a list: its first visible row and its selected row.
#[derive(Clone, Copy, Debug, PartialEq, Eq, Structural)]
pub struct ListState {
    pub offset: usize,
    pub selected: Option<usize>,
}

/// `a + b`, or the largest position there is.
pub open spec fn capped_sum(a: usize, b: u16) -> usize {
    if a + b > usize::MAX {
        usize::MAX
    } else {
        (a + b) as usize
    }
}

/// `a - b`, or zero.
pub open spec fn floored_difference(a: usize, b: u16) -> usize {
    if a < b {
        0
    } else {
        (a - b) as usize
    }
}

impl ListState {
    /// The list with another row selected. Without a selected row it starts at its top.
    pub open spec fn selecting(self, index: Option<usize>) -> ListState {
        ListState {
            offset: if index is None {
                0
            } else {
                self.offset
            },
            selected: index,
        }
    }

    /// The selected row, or the first where none is selected.
    pub open spec fn current(self) -> usize {
        match self.selected {
            Some(i) => i,
            None => 0,
        }
    }

    /// A list at its top with its first row selected.
    pub fn new() -> (r: ListState)
        ensures
            r == (ListState { offset: 0, selected: Some(0usize) }),
    {
        ListState { offset: 0, selected: Some(0) }
    }

    /// Selects a row, or none.
    pub fn select(&mut self, index: Option<usize>)
        ensures
            *final(self) == old(self).selecting(index),
    {
        *self = select_row(*self, index);
    }

    /// Selects the first row.
    pub fn select_first(&mut self)
        ensures
            *final(self) == old(self).selecting(Some(0)),
    {
        *self = select_first_row(*self);
    }

    /// Moves the selection down.
    pub fn scroll_down_by(&mut self, amount: u16)
        ensures
            *final(self) == old(self).selecting(Some(capped_sum(old(self).current(), amount))),
    {
        *self = scroll_rows_down(*self, amount);
    }

    /// Moves the selection up.
    pub fn scroll_up_by(&mut self, amount: u16)
        ensures
            *final(self) == old(self).selecting(
                Some(floored_difference(old(self).current(), amount)),
            ),
    {
        *self = scroll_rows_up(*self, amount);
    }
}

/// Calls `ratatui::widgets::ListState::select`, which sets the selection and, where there is
/// none, sets the offset to zero.
#[verifier::external_body]
fn select_row(state: ListState, index: Option<usize>) -> (r: ListState)
    ensures
        r == state.selecting(index),
{
    let mut state = ratatui::widgets::ListState::default().with_offset(state.offset).with_selected(
        state.selected,
    );
    state.select(index);
    ListState { offset: state.offset(), selected: state.selected() }
}

/// Calls `ratatui::widgets::ListState::select_first`, which selects the first row.
#[verifier::external_body]
fn select_first_row(state: ListState) -> (r: ListState)
    ensures
        r == state.selecting(Some(0)),
{
    let mut state = ratatui::widgets::ListState::default().with_offset(state.offset).with_selected(
        state.selected,
    );
    state.select_first();
    ListState { offset: state.offset(), selected: state.selected() }
}

/// Calls `ratatui::widgets::ListState::scroll_down_by`, which adds to the selected row, counted
/// from the first where none is selected, and stops at the largest number.
#[verifier::external_body]
fn scroll_rows_down(state: ListState, amount: u16) -> (r: ListState)
    ensures
        r == state.selecting(Some(capped_sum(state.current(), amount))),
{
    let mut state = ratatui::widgets::ListState::default().with_offset(state.offset).with_selected(
        state.selected,
    );
    state.scroll_down_by(amount);
    ListState { offset: state.offset(), selected: state.selected() }
}

/// Calls `ratatui::widgets::ListState::scroll_up_by`, which subtracts from the selected row,
/// counted from the first where none is selected, and stops at zero.
#[verifier::external_body]
fn scroll_rows_up(state: ListState, amount: u16) -> (r: ListState)
    ensures
        r == state.selecting(Some(floored_difference(state.current(), amount))),
{
    let mut state = ratatui::widgets::ListState::default().with_offset(state.offset).with_selected(
        state.selected,
    );
    state.scroll_up_by(amount);
    ListState { offset: state.offset(), selected: state.selected() }
}

} // verus!
