//! How the monitor reacts: keys, the mouse, new jobs, and the outcome of what was done outside.

use vstd::prelude::*;

use crate::app::{
    action_view, scancel_signal, signal_index_for_digit, signal_name, Action,
    ActionView, App, AppMessage, AppMessageView, AppView, Dialog, DialogView, Focus, InputMode,
    OutputFileView, ScrollAnchor, SelectedTab, SIGNAL_COUNT,
};
use crate::command::{
    scancel, scancel_command, scontrol_command, scontrol_update_timelimit, CommandFailure,
};
use crate::display::{
    find_job, find_row, group_rows, in_range, law_list_is_exact, list_jobs, listed, place_of_job,
    row_showing, DisplayEntry,
};
use crate::event::{
    mouse_wheel_direction, wheel_direction, Event, KeyCode, KeyEvent, MouseEvent, MouseEventKind,
    MouseScrollTarget, MouseWheelDirection, CONTROL, SHIFT_CONTROL_ALT,
};
use crate::geometry::{capped, floored, rect_contains, Rect, Screen};
use crate::job::{job_views, Job, JobView};
use crate::laws::{law_messages_keep_the_rows_current, law_messages_keep_the_state_valid};
use crate::list_state::{capped_sum, floored_difference, ListState};
use crate::text::opt_text;
use crate::text_input::{
    after_key, asked_limit, fresh_line, handle_key, new_input, typed_in, types,
    validated_time_limit,
};

verus! {

// ---------------------------------------------------------------------------------------------
// Moving about
// ---------------------------------------------------------------------------------------------
impl AppView {
    /// The state on another tab, with the search cleared.
    pub open spec fn on_tab(self, tab: SelectedTab) -> AppView {
        AppView { selected_tab: tab, search_query: Seq::empty(), ..self }.recomputed()
    }

    /// The tab to the right, or the last.
    pub open spec fn tab_to_the_right(self) -> AppView {
        self.on_tab(SelectedTab::Sacct)
    }

    /// The tab to the left, or the first.
    pub open spec fn tab_to_the_left(self) -> AppView {
        self.on_tab(SelectedTab::Jobs)
    }

    /// One row down, as far as there is one.
    pub open spec fn one_down(self) -> AppView {
        let last = self.filtered_indices.len() - 1;
        if last < 0 {
            self
        } else {
            self.selecting(
                Some(
                    match self.active_list().selected {
                        Some(i) => if i >= last {
                            last as usize
                        } else {
                            (i + 1) as usize
                        },
                        None => 0,
                    },
                ),
            )
        }
    }

    /// One row up, as far as there is one.
    pub open spec fn one_up(self) -> AppView {
        if self.filtered_indices.len() == 0 {
            self
        } else {
            self.selecting(
                Some(
                    match self.active_list().selected {
                        Some(i) => if i == 0 {
                            0
                        } else {
                            (i - 1) as usize
                        },
                        None => 0,
                    },
                ),
            )
        }
    }

    /// The last row, where there is one.
    pub open spec fn at_last(self) -> AppView {
        if self.filtered_indices.len() == 0 {
            self
        } else {
            self.selecting(Some((self.filtered_indices.len() - 1) as usize))
        }
    }

    /// So many rows down.
    pub open spec fn rows_down(self, amount: u16) -> AppView {
        self.selecting(Some(capped_sum(self.active_list().current(), amount)))
    }

    /// So many rows up.
    pub open spec fn rows_up(self, amount: u16) -> AppView {
        self.selecting(Some(floored_difference(self.active_list().current(), amount)))
    }

    /// The output so many lines further down.
    pub open spec fn output_down(self, delta: u16) -> AppView {
        AppView {
            job_output_offset: match self.job_output_anchor {
                ScrollAnchor::Top => capped(self.job_output_offset, delta),
                ScrollAnchor::Bottom => floored(self.job_output_offset, delta),
            },
            ..self
        }
    }

    /// The output so many lines further up.
    pub open spec fn output_up(self, delta: u16) -> AppView {
        AppView {
            job_output_offset: match self.job_output_anchor {
                ScrollAnchor::Top => floored(self.job_output_offset, delta),
                ScrollAnchor::Bottom => capped(self.job_output_offset, delta),
            },
            ..self
        }
    }

    /// The output at one of its ends.
    pub open spec fn output_at(self, anchor: ScrollAnchor) -> AppView {
        AppView { job_output_offset: 0, job_output_anchor: anchor, ..self }
    }

    /// The array of the selected job expanded where it was not, and no longer expanded where it
    /// was. A job that is not part of an array changes nothing.
    pub open spec fn array_toggled(self) -> AppView {
        match self.selected_job() {
            Some(job) => if job.array_step is Some {
                let expanded = if self.expanded_arrays.contains(job.array_id) {
                    self.expanded_arrays.remove(job.array_id)
                } else {
                    self.expanded_arrays.insert(job.array_id)
                };
                AppView { expanded_arrays: expanded, ..self }.recomputed()
            } else {
                self
            },
            None => self,
        }
    }

    /// The row of the list of jobs at a cell of the screen, where there are as many jobs. Which job
    /// has that row depends on the order, the search and the groups.
    pub open spec fn job_at(self, column: u16, row: u16) -> Option<usize> {
        let area = self.job_list_area;
        let inner = Rect::at(
            capped(area.x, 1),
            capped(area.y, 1),
            floored(area.width, 2),
            floored(area.height, 2),
        );
        let index = self.job_list_state.offset + (row - inner.y);
        if inner.covers(column, row) && index < self.jobs.len() {
            Some(index as usize)
        } else {
            None
        }
    }

    /// What the wheel scrolls at a cell of the screen.
    pub open spec fn scroll_target(self, column: u16, row: u16) -> Option<MouseScrollTarget> {
        if self.job_list_area.covers(column, row) {
            Some(MouseScrollTarget::Jobs)
        } else if self.job_output_area.covers(column, row) {
            Some(MouseScrollTarget::Output)
        } else {
            None
        }
    }
}

impl App {
    /// Goes to the next panel. There is only one.
    pub fn focus_next_panel(&mut self)
        ensures
            final(self)@ == old(self)@,
    {
        match self.focus {
            Focus::Jobs => {
                self.focus = Focus::Jobs;
            },
        }
    }

    /// Goes to the previous panel. There is only one.
    pub fn focus_previous_panel(&mut self)
        ensures
            final(self)@ == old(self)@,
    {
        match self.focus {
            Focus::Jobs => {
                self.focus = Focus::Jobs;
            },
        }
    }

    /// Goes to the tab on the right.
    pub fn next_tab(&mut self)
        ensures
            final(self)@ == old(self)@.tab_to_the_right(),
    {
        self.selected_tab = self.selected_tab.next();
        self.search_query = String::new();
        self.recompute_filtered_indices();
    }

    /// Goes to the tab on the left.
    pub fn previous_tab(&mut self)
        ensures
            final(self)@ == old(self)@.tab_to_the_left(),
    {
        self.selected_tab = self.selected_tab.previous();
        self.search_query = String::new();
        self.recompute_filtered_indices();
    }

    /// Goes one row down.
    pub fn select_next_job(&mut self)
        ensures
            final(self)@ == old(self)@.one_down(),
    {
        if self.filtered_indices.is_empty() {
            return;
        }
        let last: usize = self.filtered_indices.len() - 1;
        let i: usize = match self.active_list().selected {
            Some(i) => {
                if i >= last {
                    last
                } else {
                    i + 1
                }
            },
            None => 0,
        };
        self.select_row(Some(i));
    }

    /// Goes one row up.
    pub fn select_previous_job(&mut self)
        ensures
            final(self)@ == old(self)@.one_up(),
    {
        if self.filtered_indices.is_empty() {
            return;
        }
        let i: usize = match self.active_list().selected {
            Some(i) => {
                if i == 0 {
                    0
                } else {
                    i - 1
                }
            },
            None => 0,
        };
        self.select_row(Some(i));
    }

    /// Goes to the first row.
    pub fn select_first_job(&mut self)
        ensures
            final(self)@ == old(self)@.selecting(Some(0)),
    {
        let mut list = self.active_list();
        list.select_first();
        self.set_active_list(list);
    }

    /// Goes to the last row.
    pub fn select_last_job(&mut self)
        ensures
            final(self)@ == old(self)@.at_last(),
    {
        if self.filtered_indices.is_empty() {
            return;
        }
        let last: usize = self.filtered_indices.len() - 1;
        self.select_row(Some(last));
    }

    /// Goes half a page down.
    pub fn scroll_jobs_half_page_down(&mut self)
        ensures
            final(self)@ == old(self)@.rows_down((old(self).job_list_height / 2) as u16),
    {
        let amount: u16 = self.job_list_height / 2;
        let mut list = self.active_list();
        list.scroll_down_by(amount);
        self.set_active_list(list);
    }

    /// Goes half a page up.
    pub fn scroll_jobs_half_page_up(&mut self)
        ensures
            final(self)@ == old(self)@.rows_up((old(self).job_list_height / 2) as u16),
    {
        let amount: u16 = self.job_list_height / 2;
        let mut list = self.active_list();
        list.scroll_up_by(amount);
        self.set_active_list(list);
    }

    /// Finds the row of the list of jobs at a cell of the screen.
    pub fn job_index_at(&self, column: u16, row: u16) -> (r: Option<usize>)
        ensures
            r == self@.job_at(column, row),
    {
        if self.jobs.is_empty() {
            return None;
        }
        let inner = Rect::new(
            self.job_list_area.x.saturating_add(1),
            self.job_list_area.y.saturating_add(1),
            self.job_list_area.width.saturating_sub(2),
            self.job_list_area.height.saturating_sub(2),
        );
        if !rect_contains(inner, column, row) {
            return None;
        }
        let row_in_list: usize = (row - inner.y) as usize;
        let index: usize = self.job_list_state.offset.saturating_add(row_in_list);
        if index < self.jobs.len() {
            Some(index)
        } else {
            None
        }
    }

    /// What the wheel scrolls at a cell of the screen.
    pub fn mouse_scroll_target(&self, column: u16, row: u16) -> (r: Option<MouseScrollTarget>)
        ensures
            r == self@.scroll_target(column, row),
    {
        if rect_contains(self.job_list_area, column, row) {
            Some(MouseScrollTarget::Jobs)
        } else if rect_contains(self.job_output_area, column, row) {
            Some(MouseScrollTarget::Output)
        } else {
            None
        }
    }

    /// Goes down in the output.
    pub fn scroll_job_output_down_by(&mut self, delta: u16)
        ensures
            final(self)@ == old(self)@.output_down(delta),
    {
        match self.job_output_anchor {
            ScrollAnchor::Top => {
                self.job_output_offset = self.job_output_offset.saturating_add(delta);
            },
            ScrollAnchor::Bottom => {
                self.job_output_offset = self.job_output_offset.saturating_sub(delta);
            },
        }
    }

    /// Goes up in the output.
    pub fn scroll_job_output_up_by(&mut self, delta: u16)
        ensures
            final(self)@ == old(self)@.output_up(delta),
    {
        match self.job_output_anchor {
            ScrollAnchor::Top => {
                self.job_output_offset = self.job_output_offset.saturating_sub(delta);
            },
            ScrollAnchor::Bottom => {
                self.job_output_offset = self.job_output_offset.saturating_add(delta);
            },
        }
    }

    /// Expands the array of the selected job, or draws it together again.
    pub fn toggle_array_collapse(&mut self)
        ensures
            final(self)@ == old(self)@.array_toggled(),
    {
        let array_id: Option<String> = match self.selected_job() {
            Some(job) => {
                if job.array_step.is_some() {
                    Some(job.array_id.clone())
                } else {
                    None
                }
            },
            None => None,
        };
        if let Some(id) = array_id {
            if self.expanded_arrays.contains(id.as_str()) {
                self.expanded_arrays.remove(id.as_str());
            } else {
                self.expanded_arrays.insert(id);
            }
            self.recompute_filtered_indices();
        }
    }
}

// ---------------------------------------------------------------------------------------------
// Keys
// ---------------------------------------------------------------------------------------------
impl AppView {
    /// The state with a dialog, or without one.
    pub open spec fn with_dialog(self, dialog: Option<DialogView>) -> AppView {
        AppView { dialog, ..self }
    }

    /// The selected row after the search was changed: the first, where there is one.
    pub open spec fn searched(self, query: Seq<char>) -> AppView {
        let s = AppView { search_query: query, ..self }.recomputed();
        s.selecting(
            if s.filtered_indices.len() == 0 {
                None
            } else {
                Some(0)
            },
        )
    }

    /// The state after a letter that is a command.
    pub open spec fn after_letter(self, c: char, control: bool) -> AppView {
        if c == 'k' {
            self.one_up()
        } else if c == 'j' {
            self.one_down()
        } else if c == 'g' {
            self.selecting(Some(0))
        } else if c == 'G' {
            self.at_last()
        } else if c == 'u' && control {
            self.rows_up((self.job_list_height / 2) as u16)
        } else if c == 'd' && control {
            self.rows_down((self.job_list_height / 2) as u16)
        } else if c == 'c' {
            match self.selected_job() {
                Some(job) => self.with_dialog(Some(DialogView::ConfirmCancelJob(job.id()))),
                None => self,
            }
        } else if c == 'C' {
            match self.selected_job() {
                Some(job) => self.with_dialog(
                    Some(DialogView::SelectCancelSignal { id: job.id(), selected_signal: 0 }),
                ),
                None => self,
            }
        } else if c == 't' {
            match self.selected_job() {
                Some(job) => self.with_dialog(
                    Some(
                        DialogView::EditTimeLimit {
                            id: job.id(),
                            input: fresh_line(job.time_limit),
                        },
                    ),
                ),
                None => self,
            }
        } else if c == 'y' {
            match self.selected_job() {
                Some(job) => self.with_dialog(Some(DialogView::YankPopup)),
                None => self,
            }
        } else if c == 'o' {
            AppView {
                output_file_view: match self.output_file_view {
                    OutputFileView::Stdout => OutputFileView::Stderr,
                    OutputFileView::Stderr => OutputFileView::Stdout,
                },
                ..self
            }
        } else if c == 'w' {
            AppView { job_output_wrap: !self.job_output_wrap, ..self }
        } else if c == 'p' {
            AppView { show_qos: !self.show_qos, ..self }
        } else if c == 'a' && self.selected_tab == SelectedTab::Jobs {
            self.array_toggled()
        } else if c == 'r' {
            match self.selected_tab {
                SelectedTab::Jobs => AppView {
                    jobs_reversed: !self.jobs_reversed,
                    ..self
                }.recomputed(),
                SelectedTab::Sacct => AppView {
                    sacct_reversed: !self.sacct_reversed,
                    ..self
                }.recomputed(),
            }
        } else if c == '?' {
            self.with_dialog(Some(DialogView::HelpPopup))
        } else if c == ']' {
            self.tab_to_the_right()
        } else if c == '[' {
            self.tab_to_the_left()
        } else if c == '/' {
            AppView {
                input_mode: InputMode::Search,
                search_query: Seq::empty(),
                ..self
            }.recomputed()
        } else {
            self
        }
    }

    /// How many lines a page key scrolls the output.
    pub open spec fn page_lines(key: KeyEvent) -> u16 {
        if key.modifiers.has_any(SHIFT_CONTROL_ALT) {
            50
        } else {
            1
        }
    }

    /// The state after a key while keys are commands.
    pub open spec fn after_command_key(self, key: KeyEvent) -> AppView {
        match key.code {
            KeyCode::Char(c) => self.after_letter(c, key.modifiers.has_all(CONTROL)),
            KeyCode::Up => self.one_up(),
            KeyCode::Down => self.one_down(),
            KeyCode::PageDown => self.output_down(Self::page_lines(key)),
            KeyCode::PageUp => self.output_up(Self::page_lines(key)),
            KeyCode::Home => self.output_at(ScrollAnchor::Top),
            KeyCode::End => self.output_at(ScrollAnchor::Bottom),
            _ => self,
        }
    }

    /// The state after a key while keys are text of the search.
    pub open spec fn after_search_key(self, key: KeyEvent) -> AppView {
        match key.code {
            KeyCode::Char(c) => self.searched(self.search_query.push(c)),
            KeyCode::Backspace => self.searched(
                if self.search_query.len() == 0 {
                    self.search_query
                } else {
                    self.search_query.drop_last()
                },
            ),
            KeyCode::Esc => AppView {
                input_mode: InputMode::Normal,
                search_query: Seq::empty(),
                ..self
            }.recomputed(),
            KeyCode::Enter => AppView { input_mode: InputMode::Normal, ..self },
            KeyCode::Down => self.one_down(),
            KeyCode::Up => self.one_up(),
            _ => self,
        }
    }

    /// The state, and the text to be copied, where the path of an output file is asked for.
    pub open spec fn path_yanked(self, stderr: bool) -> (AppView, Option<ActionView>) {
        let path = match self.selected_job() {
            Some(job) => if stderr {
                job.stderr
            } else {
                job.stdout
            },
            None => None,
        };
        match path {
            Some(text) => (self, Some(ActionView::Copy(text))),
            None => (
                self.with_dialog(
                    Some(
                        DialogView::YankResult(
                            "No "@ + (if stderr {
                                "stderr"@
                            } else {
                                "stdout"@
                            }) + " path available"@,
                        ),
                    ),
                ),
                None,
            ),
        }
    }

    /// The state, and the text to be copied, where the id of the job is asked for.
    pub open spec fn id_yanked(self) -> (AppView, Option<ActionView>) {
        match self.selected_job() {
            Some(job) => (self, Some(ActionView::Copy(job.job_id))),
            None => (
                self.with_dialog(Some(DialogView::YankResult("No job selected"@))),
                None,
            ),
        }
    }

    /// The signal chosen after a key.
    pub open spec fn signal_after_key(code: KeyCode, selected: usize) -> usize {
        match code {
            KeyCode::Up => floored_difference(selected, 1),
            KeyCode::Down => if selected + 1 < SIGNAL_COUNT {
                (selected + 1) as usize
            } else {
                (SIGNAL_COUNT - 1) as usize
            },
            KeyCode::Char(c) => if c == 'k' {
                floored_difference(selected, 1)
            } else if c == 'j' {
                if selected + 1 < SIGNAL_COUNT {
                    (selected + 1) as usize
                } else {
                    (SIGNAL_COUNT - 1) as usize
                }
            } else if '1' <= c <= '8' {
                (c as u32 - '1' as u32) as usize
            } else {
                selected
            },
            _ => selected,
        }
    }

    /// The state, and what has to be done outside, after a key while a dialog is open. A dialog
    /// from which a command is run stays open until the outcome is known.
    pub open spec fn after_dialog_key(self, key: KeyEvent) -> (AppView, Option<ActionView>) {
        let closed = self.with_dialog(None);
        match self.dialog {
            None => (self, None),
            Some(DialogView::ConfirmCancelJob(id)) => match key.code {
                KeyCode::Enter => (self, Some(ActionView::Run(scancel(id, None)))),
                KeyCode::Char(c) => if c == 'y' {
                    (self, Some(ActionView::Run(scancel(id, None))))
                } else {
                    (self, None)
                },
                KeyCode::Esc => (closed, None),
                _ => (self, None),
            },
            Some(DialogView::SelectCancelSignal { id, selected_signal }) => match key.code {
                KeyCode::Enter => (
                    self,
                    Some(ActionView::Run(scancel(id, Some(signal_name(selected_signal as int))))),
                ),
                KeyCode::Esc => (closed, None),
                _ => (
                    self.with_dialog(
                        Some(
                            DialogView::SelectCancelSignal {
                                id,
                                selected_signal: Self::signal_after_key(key.code, selected_signal),
                            },
                        ),
                    ),
                    None,
                ),
            },
            Some(DialogView::EditTimeLimit { id, input }) => match key.code {
                KeyCode::Enter => (
                    self,
                    match asked_limit(input.text) {
                        Some(limit) => Some(ActionView::Run(scontrol_update_timelimit(id, limit))),
                        None => None,
                    },
                ),
                KeyCode::Esc => (closed, None),
                _ => (
                    self.with_dialog(
                        Some(DialogView::EditTimeLimit { id, input: after_key(input, key) }),
                    ),
                    None,
                ),
            },
            Some(DialogView::CommandError { command, output }) => match key.code {
                KeyCode::Enter => (closed, None),
                KeyCode::Esc => (closed, None),
                _ => (self, None),
            },
            Some(DialogView::HelpPopup) => match key.code {
                KeyCode::Esc => (closed, None),
                KeyCode::Char(c) => if c == '?' {
                    (closed, None)
                } else {
                    (self, None)
                },
                _ => (self, None),
            },
            Some(DialogView::YankPopup) => match key.code {
                KeyCode::Esc => (closed, None),
                KeyCode::Char(c) => if c == 'o' {
                    self.path_yanked(false)
                } else if c == 's' {
                    self.path_yanked(true)
                } else if c == 'i' {
                    self.id_yanked()
                } else if c == 'y' {
                    (closed, None)
                } else {
                    (self, None)
                },
                _ => (self, None),
            },
            Some(DialogView::YankResult(text)) => (closed, None),
        }
    }

    /// A key types a character into the line of a dialog.
    pub open spec fn takes_typing(self, key: KeyEvent, c: char) -> bool {
        &&& types(key, c)
        &&& self.dialog matches Some(DialogView::EditTimeLimit { id, input }) && input.cursor
            <= input.text.len()
    }

    /// The state after a character was typed into the line of a dialog.
    pub open spec fn after_typing(self, c: char) -> AppView {
        match self.dialog {
            Some(DialogView::EditTimeLimit { id, input }) => self.with_dialog(
                Some(DialogView::EditTimeLimit { id, input: typed_in(input, c) }),
            ),
            _ => self,
        }
    }

    /// The state, and what has to be done outside, after a key.
    pub open spec fn after_key_event(self, key: KeyEvent) -> (AppView, Option<ActionView>) {
        if self.dialog is Some {
            self.after_dialog_key(key)
        } else {
            match self.input_mode {
                InputMode::Normal => (self.after_command_key(key), None),
                InputMode::Search => (self.after_search_key(key), None),
            }
        }
    }
}

impl App {
    /// Selects the first row after the search was changed.
    fn select_after_search(&mut self)
        ensures
            final(self)@ == old(self)@.selecting(
                if old(self)@.filtered_indices.len() == 0 {
                    None
                } else {
                    Some(0)
                },
            ),
    {
        let sel: Option<usize> = if self.filtered_indices.is_empty() {
            None
        } else {
            Some(0)
        };
        self.select_row(sel);
    }

    /// Reacts to a letter that is a command.
    fn handle_letter(&mut self, c: char, control: bool)
        ensures
            final(self)@ == old(self)@.after_letter(c, control),
    {
        if c == 'h' {
            self.focus_previous_panel();
        } else if c == 'l' {
            self.focus_next_panel();
        } else if c == 'k' {
            self.select_previous_job();
        } else if c == 'j' {
            self.select_next_job();
        } else if c == 'g' {
            self.select_first_job();
        } else if c == 'G' {
            self.select_last_job();
        } else if c == 'u' {
            if control {
                self.scroll_jobs_half_page_up();
            }
        } else if c == 'd' {
            if control {
                self.scroll_jobs_half_page_down();
            }
        } else if c == 'c' {
            if let Some(id) = self.selected_job_id() {
                self.dialog = Some(Dialog::ConfirmCancelJob(id));
            }
        } else if c == 'C' {
            if let Some(id) = self.selected_job_id() {
                self.dialog = Some(Dialog::SelectCancelSignal { id, selected_signal: 0 });
            }
        } else if c == 't' {
            let asked: Option<(String, String)> = match self.selected_job() {
                Some(job) => Some((job.id(), job.time_limit.clone())),
                None => None,
            };
            if let Some((id, time_limit)) = asked {
                self.dialog = Some(Dialog::EditTimeLimit { id, input: new_input(time_limit) });
            }
        } else if c == 'y' {
            if self.selected_job().is_some() {
                self.dialog = Some(Dialog::YankPopup);
            }
        } else if c == 'o' {
            self.output_file_view = match self.output_file_view {
                OutputFileView::Stdout => OutputFileView::Stderr,
                OutputFileView::Stderr => OutputFileView::Stdout,
            };
        } else if c == 'w' {
            self.job_output_wrap = !self.job_output_wrap;
        } else if c == 'p' {
            self.show_qos = !self.show_qos;
        } else if c == 'a' {
            if self.selected_tab == SelectedTab::Jobs {
                self.toggle_array_collapse();
            }
        } else if c == 'r' {
            match self.selected_tab {
                SelectedTab::Jobs => {
                    self.jobs_reversed = !self.jobs_reversed;
                },
                SelectedTab::Sacct => {
                    self.sacct_reversed = !self.sacct_reversed;
                },
            }
            self.recompute_filtered_indices();
        } else if c == '?' {
            self.dialog = Some(Dialog::HelpPopup);
        } else if c == ']' {
            self.next_tab();
        } else if c == '[' {
            self.previous_tab();
        } else if c == '/' {
            self.input_mode = InputMode::Search;
            self.search_query = String::new();
            self.recompute_filtered_indices();
        }
    }

    /// Reacts to a key while keys are commands.
    fn handle_command_key(&mut self, key: KeyEvent)
        ensures
            final(self)@ == old(self)@.after_command_key(key),
    {
        let page: u16 = if key.modifiers.intersects(SHIFT_CONTROL_ALT) {
            50
        } else {
            1
        };
        match key.code {
            KeyCode::Char(c) => self.handle_letter(c, key.modifiers.contains(CONTROL)),
            KeyCode::Left => self.focus_previous_panel(),
            KeyCode::Right => self.focus_next_panel(),
            KeyCode::Up => self.select_previous_job(),
            KeyCode::Down => self.select_next_job(),
            KeyCode::PageDown => self.scroll_job_output_down_by(page),
            KeyCode::PageUp => self.scroll_job_output_up_by(page),
            KeyCode::Home => {
                self.job_output_offset = 0;
                self.job_output_anchor = ScrollAnchor::Top;
            },
            KeyCode::End => {
                self.job_output_offset = 0;
                self.job_output_anchor = ScrollAnchor::Bottom;
            },
            _ => {},
        }
    }

    /// Reacts to a key while keys are text of the search.
    fn handle_search_key(&mut self, key: KeyEvent)
        ensures
            final(self)@ == old(self)@.after_search_key(key),
    {
        match key.code {
            KeyCode::Char(c) => {
                self.search_query.push(c);
                self.recompute_filtered_indices();
                self.select_after_search();
            },
            KeyCode::Backspace => {
                let _ = self.search_query.pop();
                self.recompute_filtered_indices();
                self.select_after_search();
            },
            KeyCode::Esc => {
                self.input_mode = InputMode::Normal;
                self.search_query = String::new();
                self.recompute_filtered_indices();
            },
            KeyCode::Enter => {
                self.input_mode = InputMode::Normal;
            },
            KeyCode::Down => self.select_next_job(),
            KeyCode::Up => self.select_previous_job(),
            _ => {},
        }
    }

    /// Asks for the path of an output file to be copied, or tells that there is none.
    pub fn yank_path(&mut self, stderr: bool) -> (action: Option<Action>)
        ensures
            (final(self)@, action_view(action)) == old(self)@.path_yanked(stderr),
    {
        let path: Option<String> = match self.selected_job() {
            Some(job) => {
                let path = if stderr {
                    &job.stderr
                } else {
                    &job.stdout
                };
                match path {
                    Some(p) => Some(p.clone()),
                    None => None,
                }
            },
            None => None,
        };
        match path {
            Some(text) => Some(Action::Copy(text)),
            None => {
                let label = if stderr {
                    "stderr"
                } else {
                    "stdout"
                };
                self.dialog = Some(
                    Dialog::YankResult("No ".to_owned().concat(label).concat(" path available")),
                );
                None
            },
        }
    }

    /// Asks for the id of the selected job to be copied, or tells that none is selected.
    pub fn yank_job_id(&mut self) -> (action: Option<Action>)
        ensures
            (final(self)@, action_view(action)) == old(self)@.id_yanked(),
    {
        let id: Option<String> = match self.selected_job() {
            Some(job) => Some(job.job_id.clone()),
            None => None,
        };
        match id {
            Some(id) => Some(Action::Copy(id)),
            None => {
                self.dialog = Some(Dialog::YankResult("No job selected".to_owned()));
                None
            },
        }
    }
}

/// The signal chosen after a key.
fn next_signal(code: KeyCode, selected: usize) -> (r: usize)
    requires
        selected < SIGNAL_COUNT,
    ensures
        r == AppView::signal_after_key(code, selected),
        r < SIGNAL_COUNT,
{
    let up: usize = selected.saturating_sub(1);
    let down: usize = if selected + 1 < SIGNAL_COUNT {
        selected + 1
    } else {
        SIGNAL_COUNT - 1
    };
    match code {
        KeyCode::Up => up,
        KeyCode::Down => down,
        KeyCode::Char(c) => {
            if c == 'k' {
                up
            } else if c == 'j' {
                down
            } else {
                match signal_index_for_digit(c) {
                    Some(index) => {
                        if index < SIGNAL_COUNT {
                            index
                        } else {
                            selected
                        }
                    },
                    None => selected,
                }
            }
        },
        _ => selected,
    }
}

impl App {
    /// Reacts to a key while a dialog is open.
    fn handle_dialog_key(&mut self, key: KeyEvent) -> (action: Option<Action>)
        requires
            old(self)@.is_valid(),
        ensures
            (final(self)@, action_view(action)) == old(self)@.after_dialog_key(key),
            forall|c: char| #[trigger]
                old(self)@.takes_typing(key, c) ==> final(self)@ == old(self)@.after_typing(c),
    {
        match self.dialog.take() {
            None => None,
            Some(Dialog::ConfirmCancelJob(id)) => {
                if key.code == KeyCode::Esc {
                    return None;
                }
                let confirmed = key.code == KeyCode::Enter || key.code == KeyCode::Char('y');
                let action = if confirmed {
                    Some(Action::Run(scancel_command(id.as_str(), None)))
                } else {
                    None
                };
                self.dialog = Some(Dialog::ConfirmCancelJob(id));
                action
            },
            Some(Dialog::SelectCancelSignal { id, selected_signal }) => match key.code {
                KeyCode::Enter => {
                    let signal = scancel_signal(selected_signal);
                    let command = scancel_command(id.as_str(), Some(signal));
                    self.dialog = Some(Dialog::SelectCancelSignal { id, selected_signal });
                    Some(Action::Run(command))
                },
                KeyCode::Esc => None,
                _ => {
                    self.dialog = Some(
                        Dialog::SelectCancelSignal {
                            id,
                            selected_signal: next_signal(key.code, selected_signal),
                        },
                    );
                    None
                },
            },
            Some(Dialog::EditTimeLimit { id, input }) => match key.code {
                KeyCode::Enter => {
                    let action = match validated_time_limit(&input) {
                        Some(time_limit) => Some(
                            Action::Run(scontrol_command(id.as_str(), time_limit.as_str())),
                        ),
                        None => None,
                    };
                    self.dialog = Some(Dialog::EditTimeLimit { id, input });
                    action
                },
                KeyCode::Esc => None,
                _ => {
                    let mut input = input;
                    handle_key(&mut input, key);
                    self.dialog = Some(Dialog::EditTimeLimit { id, input });
                    None
                },
            },
            Some(Dialog::CommandError { command, output }) => {
                if key.code != KeyCode::Enter && key.code != KeyCode::Esc {
                    self.dialog = Some(Dialog::CommandError { command, output });
                }
                None
            },
            Some(Dialog::HelpPopup) => {
                if key.code != KeyCode::Esc && key.code != KeyCode::Char('?') {
                    self.dialog = Some(Dialog::HelpPopup);
                }
                None
            },
            Some(Dialog::YankPopup) => {
                if key.code == KeyCode::Esc || key.code == KeyCode::Char('y') {
                    return None;
                }
                self.dialog = Some(Dialog::YankPopup);
                if key.code == KeyCode::Char('o') {
                    self.yank_path(false)
                } else if key.code == KeyCode::Char('s') {
                    self.yank_path(true)
                } else if key.code == KeyCode::Char('i') {
                    self.yank_job_id()
                } else {
                    None
                }
            },
            Some(Dialog::YankResult(_)) => None,
        }
    }

    /// Reacts to a key.
    fn handle_key_event(&mut self, key: KeyEvent) -> (action: Option<Action>)
        requires
            old(self)@.is_valid(),
        ensures
            (final(self)@, action_view(action)) == old(self)@.after_key_event(key),
            forall|c: char| #[trigger]
                old(self)@.takes_typing(key, c) ==> final(self)@ == old(self)@.after_typing(c),
    {
        if self.dialog.is_some() {
            return self.handle_dialog_key(key);
        }
        match self.input_mode {
            InputMode::Normal => self.handle_command_key(key),
            InputMode::Search => self.handle_search_key(key),
        }
        None
    }
}

// ---------------------------------------------------------------------------------------------
// Messages
// ---------------------------------------------------------------------------------------------
impl AppView {
    /// The state as far as the tab of jobs is concerned: while the other tab is shown, what the
    /// tab of jobs would list, where nothing is searched for.
    pub open spec fn among_jobs(self) -> AppView {
        match self.selected_tab {
            SelectedTab::Jobs => self,
            SelectedTab::Sacct => {
                let s = AppView {
                    selected_tab: SelectedTab::Jobs,
                    search_query: Seq::empty(),
                    ..self
                };
                AppView { filtered_indices: s.rows(), ..s }
            },
        }
    }

    /// The positions of the jobs that match the search, in the order of the tab of jobs.
    pub open spec fn job_list(self) -> Seq<usize> {
        listed(self.jobs, self.search_query, self.jobs_reversed)
    }

    /// The row to be selected among new jobs: the one that shows the job that was selected, if it
    /// is still there, else the same row as far as there is one. A selected number that has no row
    /// but is that of a job follows that job's number. The first row is selected where nothing was,
    /// or a number beyond the jobs.
    pub open spec fn row_after_refresh(self, jobs: Seq<JobView>) -> Option<usize> {
        let after = AppView { jobs, ..self }.among_jobs();
        let k = self.job_list_state.current();
        let same_number = if k < jobs.len() {
            k
        } else {
            (jobs.len() - 1) as usize
        };
        if jobs.len() == 0 {
            None
        } else {
            match self.among_jobs().selected_job() {
                Some(job) => match row_showing(jobs, after.job_list(), after.rows(), job.id()) {
                    Some(r) => Some(r as usize),
                    None => Some(same_number),
                },
                None => if self.job_list_state.selected is Some && k < self.jobs.len() {
                    match place_of_job(jobs, self.jobs[k as int].id(), 0) {
                        Some(p) => Some(p as usize),
                        None => Some(same_number),
                    }
                } else {
                    Some(0)
                },
            }
        }
    }

    /// The state with new jobs.
    pub open spec fn refreshed(self, jobs: Seq<JobView>) -> AppView {
        let s = AppView {
            jobs,
            job_list_state: self.job_list_state.selecting(self.row_after_refresh(jobs)),
            ..self
        };
        if self.selected_tab == SelectedTab::Jobs {
            s.recomputed()
        } else {
            s
        }
    }

    /// The state with new finished jobs.
    pub open spec fn acct_refreshed(self, jobs: Seq<JobView>) -> AppView {
        let s = AppView { sacct_jobs: jobs, ..self };
        if self.selected_tab == SelectedTab::Sacct {
            s.recomputed()
        } else {
            s
        }
    }

    /// The state after the wheel was turned.
    pub open spec fn wheeled(
        self,
        target: MouseScrollTarget,
        direction: MouseWheelDirection,
        amount: u16,
    ) -> AppView {
        match target {
            MouseScrollTarget::Jobs => AppView {
                job_list_state: self.job_list_state.selecting(
                    Some(
                        match direction {
                            MouseWheelDirection::Up => floored_difference(
                                self.job_list_state.current(),
                                amount,
                            ),
                            MouseWheelDirection::Down => capped_sum(
                                self.job_list_state.current(),
                                amount,
                            ),
                        },
                    ),
                ),
                ..self
            },
            MouseScrollTarget::Output => match direction {
                MouseWheelDirection::Up => self.output_up(amount),
                MouseWheelDirection::Down => self.output_down(amount),
            },
        }
    }

    /// The state, and what has to be done outside, after a message. While a dialog is open the
    /// mouse does nothing.
    pub open spec fn handled(self, msg: AppMessageView) -> (AppView, Option<ActionView>) {
        match msg {
            AppMessageView::Jobs(jobs) => (self.refreshed(jobs), None),
            AppMessageView::SacctJobs(jobs) => (self.acct_refreshed(jobs), None),
            AppMessageView::JobOutput(output) => (AppView { job_output: output, ..self }, None),
            AppMessageView::Key(key) => self.after_key_event(key),
            AppMessageView::MouseClick(index) => if self.dialog is None && index
                < self.jobs.len() {
                (
                    AppView {
                        job_list_state: self.job_list_state.selecting(Some(index)),
                        ..self
                    },
                    None,
                )
            } else {
                (self, None)
            },
            AppMessageView::MouseWheel { target, direction, amount } => if self.dialog is None {
                (self.wheeled(target, direction, amount), None)
            } else {
                (self, None)
            },
        }
    }

    /// The state after a command was run.
    pub open spec fn after_command(self, failure: Option<(Seq<char>, Seq<char>)>) -> AppView {
        self.with_dialog(
            match failure {
                Some((command, output)) => Some(DialogView::CommandError { command, output }),
                None => None,
            },
        )
    }

    /// The state after a text was copied, or could not be.
    pub open spec fn after_copy(self, text: Seq<char>, error: Option<Seq<char>>) -> AppView {
        self.with_dialog(
            Some(
                DialogView::YankResult(
                    match error {
                        Some(e) => "Error: "@ + e,
                        None => "Copied: "@ + text,
                    },
                ),
            ),
        )
    }
}

impl App {
    /// Makes the list and the rows of the tab of jobs, as they are or would be shown.
    fn list_and_rows_of_jobs(&self) -> (r: (Vec<usize>, Vec<DisplayEntry>))
        ensures
            r.0@ == self@.among_jobs().job_list(),
            r.1@ == self@.among_jobs().rows(),
            in_range(r.0@, self@.jobs),
    {
        let list = match self.selected_tab {
            SelectedTab::Jobs => list_jobs(
                &self.jobs,
                self.search_query.as_str(),
                self.jobs_reversed,
            ),
            SelectedTab::Sacct => {
                proof {
                    reveal_strlit("");
                    assert(""@ =~= Seq::<char>::empty());
                }
                list_jobs(&self.jobs, "", self.jobs_reversed)
            },
        };
        proof {
            assert(self.jobs.len() == job_views(self.jobs@).len());
            law_list_is_exact(
                self@.jobs,
                self@.among_jobs().search_query,
                self.jobs_reversed,
            );
        }
        let rows = group_rows(&self.jobs, &list, &self.expanded_arrays);
        (list, rows)
    }

    /// The id of the job that is selected, or would be, on the tab of jobs.
    fn id_among_jobs(&self) -> (r: Option<String>)
        ensures
            opt_text(r) == match self@.among_jobs().selected_job() {
                Some(job) => Some(job.id()),
                None => None,
            },
    {
        match self.selected_tab {
            SelectedTab::Jobs => self.selected_job_id(),
            SelectedTab::Sacct => {
                let (_, rows) = self.list_and_rows_of_jobs();
                match self.job_list_state.selected {
                    Some(i) => {
                        if i < rows.len() {
                            let index: usize = rows[i].job_index();
                            if index < self.jobs.len() {
                                return Some(self.jobs[index].id());
                            }
                        }
                        None
                    },
                    None => None,
                }
            },
        }
    }

    /// Takes over new jobs.
    fn refresh_jobs(&mut self, jobs: Vec<Job>)
        ensures
            final(self)@ == old(self)@.refreshed(job_views(jobs@)),
    {
        let shown_id = self.id_among_jobs();
        let selected: Option<usize> = self.job_list_state.selected;
        let numbered_id: Option<String> = match selected {
            Some(k) => {
                if k < self.jobs.len() {
                    Some(self.jobs[k].id())
                } else {
                    None
                }
            },
            None => None,
        };
        self.jobs = jobs;
        let count: usize = self.jobs.len();
        if count == 0 {
            self.job_list_state.select(None);
        } else {
            let k: usize = match selected {
                Some(k) => k,
                None => 0,
            };
            let same_number: usize = if k < count {
                k
            } else {
                count - 1
            };
            if let Some(id) = shown_id {
                let (list, rows) = self.list_and_rows_of_jobs();
                let row: usize = match find_row(&self.jobs, &list, &rows, id.as_str()) {
                    Some(r) => r,
                    None => same_number,
                };
                self.job_list_state.select(Some(row));
            } else if let Some(id) = numbered_id {
                let row: usize = match find_job(&self.jobs, id.as_str()) {
                    Some(p) => p,
                    None => same_number,
                };
                self.job_list_state.select(Some(row));
            } else {
                self.job_list_state.select_first();
            }
        }
        if self.selected_tab == SelectedTab::Jobs {
            self.recompute_filtered_indices();
        }
    }

    /// Takes over new finished jobs.
    fn refresh_sacct_jobs(&mut self, jobs: Vec<Job>)
        ensures
            final(self)@ == old(self)@.acct_refreshed(job_views(jobs@)),
    {
        self.sacct_jobs = jobs;
        if self.selected_tab == SelectedTab::Sacct {
            self.recompute_filtered_indices();
        }
    }

    /// Reacts to a message.
    pub fn handle(&mut self, msg: AppMessage) -> (action: Option<Action>)
        requires
            old(self)@.is_valid(),
        ensures
            (final(self)@, action_view(action)) == old(self)@.handled(msg@),
            msg matches AppMessage::Key(key) ==> forall|c: char| #[trigger]
                old(self)@.takes_typing(key, c) ==> final(self)@ == old(self)@.after_typing(c),
            final(self)@.is_valid(),
            old(self)@.rows_are_current() ==> final(self)@.rows_are_current(),
    {
        let ghost s = self@;
        let ghost m = msg@;
        let action = self.react(msg);
        proof {
            law_messages_keep_the_state_valid(s, m);
            if s.rows_are_current() {
                law_messages_keep_the_rows_current(s, m);
            }
        }
        action
    }

    /// Does what a message asks for.
    fn react(&mut self, msg: AppMessage) -> (action: Option<Action>)
        requires
            old(self)@.is_valid(),
        ensures
            (final(self)@, action_view(action)) == old(self)@.handled(msg@),
            msg matches AppMessage::Key(key) ==> forall|c: char| #[trigger]
                old(self)@.takes_typing(key, c) ==> final(self)@ == old(self)@.after_typing(c),
    {
        match msg {
            AppMessage::Jobs(jobs) => {
                self.refresh_jobs(jobs);
                None
            },
            AppMessage::SacctJobs(jobs) => {
                self.refresh_sacct_jobs(jobs);
                None
            },
            AppMessage::JobOutput(content) => {
                self.job_output = content;
                None
            },
            AppMessage::Key(key) => self.handle_key_event(key),
            AppMessage::MouseClick(index) => {
                if self.dialog.is_none() && index < self.jobs.len() {
                    self.job_list_state.select(Some(index));
                }
                None
            },
            AppMessage::MouseWheel { target, direction, amount } => {
                if self.dialog.is_none() {
                    match target {
                        MouseScrollTarget::Jobs => match direction {
                            MouseWheelDirection::Up => self.job_list_state.scroll_up_by(amount),
                            MouseWheelDirection::Down => self.job_list_state.scroll_down_by(amount),
                        },
                        MouseScrollTarget::Output => match direction {
                            MouseWheelDirection::Up => self.scroll_job_output_up_by(amount),
                            MouseWheelDirection::Down => self.scroll_job_output_down_by(amount),
                        },
                    }
                }
                None
            },
        }
    }

    /// Takes over the outcome of a command: the dialog closes, or tells what went wrong.
    pub fn finish_command(&mut self, result: Result<(), CommandFailure>)
        ensures
            final(self)@ == old(self)@.after_command(
                match result {
                    Ok(_) => None,
                    Err(failure) => Some((failure.command@, failure.output@)),
                },
            ),
            final(self)@.is_valid(),
    {
        self.dialog = match result {
            Ok(_) => None,
            Err(failure) => Some(
                Dialog::CommandError { command: failure.command, output: failure.output },
            ),
        };
    }

    /// Takes over the outcome of copying a text, and tells of it.
    pub fn finish_copy(&mut self, text: String, result: Result<(), String>)
        ensures
            final(self)@ == old(self)@.after_copy(
                text@,
                match result {
                    Ok(_) => None,
                    Err(e) => Some(e@),
                },
            ),
            final(self)@.is_valid(),
    {
        let message = match result {
            Ok(_) => "Copied: ".to_owned().concat(text.as_str()),
            Err(e) => "Error: ".to_owned().concat(e.as_str()),
        };
        self.dialog = Some(Dialog::YankResult(message));
    }

    /// Takes over where things were drawn, and the position that the list was drawn at.
    pub fn finish_draw(&mut self, screen: &Screen, list: ListState)
        ensures
            final(self)@ == (AppView {
                job_list_height: floored(screen.list.height, 2),
                job_list_area: screen.list,
                job_output_area: screen.log,
                ..old(self)@
            }).with_active_list(list),
    {
        self.set_active_list(list);
        self.job_list_height = screen.list.height.saturating_sub(2);
        self.job_list_area = screen.list;
        self.job_output_area = screen.log;
    }
}

// ---------------------------------------------------------------------------------------------
// Events of the terminal
// ---------------------------------------------------------------------------------------------
/// Turns of the wheel that are taken together.
#[derive(Clone, Copy, Debug, PartialEq, Eq, Structural)]
pub struct WheelBurst {
    pub target: MouseScrollTarget,
    pub direction: MouseWheelDirection,
    pub amount: u16,
}

/// What an event comes to.
pub enum InputStep {
    /// The monitor ends.
    Quit,
    /// Nothing happens.
    Ignored,
    /// The screen is drawn anew, and nothing else happens.
    Redraw,
    /// The state has changed, and something may have to be done outside.
    Handled(Option<Action>),
    /// The wheel was turned. Events that have arrived since are offered to `merge_wheel`, and
    /// then the turns are handed to `finish_wheel`.
    Wheel(WheelBurst),
}

/// What an event comes to.
pub ghost enum InputStepView {
    Quit,
    Ignored,
    Redraw,
    Handled(Option<ActionView>),
    Wheel(WheelBurst),
}

impl View for InputStep {
    type V = InputStepView;

    open spec fn view(&self) -> InputStepView {
        match self {
            InputStep::Quit => InputStepView::Quit,
            InputStep::Ignored => InputStepView::Ignored,
            InputStep::Redraw => InputStepView::Redraw,
            InputStep::Handled(action) => InputStepView::Handled(action_view(*action)),
            InputStep::Wheel(burst) => InputStepView::Wheel(*burst),
        }
    }
}

impl AppView {
    /// The state after an event of the mouse, and what the event comes to. While a dialog is
    /// open it comes to nothing.
    pub open spec fn after_mouse(self, mouse: MouseEvent) -> (AppView, InputStepView) {
        let job = self.job_at(mouse.column, mouse.row);
        let target = self.scroll_target(mouse.column, mouse.row);
        let direction = wheel_direction(mouse.kind);
        if self.dialog is Some {
            (self, InputStepView::Ignored)
        } else if mouse.kind == MouseEventKind::LeftDown {
            if job is Some && self.job_list_state.selected != job {
                (
                    self.handled(AppMessageView::MouseClick(job->0)).0,
                    InputStepView::Handled(None),
                )
            } else {
                (self, InputStepView::Ignored)
            }
        } else if direction is Some && target is Some {
            (
                self,
                InputStepView::Wheel(
                    WheelBurst { target: target->0, direction: direction->0, amount: 1 },
                ),
            )
        } else {
            (self, InputStepView::Ignored)
        }
    }

    /// The state after an event of the terminal, and what the event comes to.
    pub open spec fn after_event(self, event: Event) -> (AppView, InputStepView) {
        match event {
            Event::Key(key) => if self.input_mode == InputMode::Normal && key.code
                == KeyCode::Char('q') {
                (self, InputStepView::Quit)
            } else {
                let (s, action) = self.after_key_event(key);
                (s, InputStepView::Handled(action))
            },
            Event::Mouse(mouse) => self.after_mouse(mouse),
            Event::Resize => (self, InputStepView::Redraw),
            Event::Other => (self, InputStepView::Ignored),
        }
    }

    /// An event turns the wheel the same way over the same panel.
    pub open spec fn joins(self, burst: WheelBurst, event: Event) -> bool {
        event matches Event::Mouse(mouse) && wheel_direction(mouse.kind) == Some(burst.direction)
            && self.scroll_target(mouse.column, mouse.row) == Some(burst.target)
    }
}

/// A burst with one more turn.
pub open spec fn one_more(burst: WheelBurst) -> WheelBurst {
    WheelBurst { amount: capped(burst.amount, 1), ..burst }
}

impl App {
    /// Reacts to an event of the mouse.
    fn handle_mouse(&mut self, mouse: MouseEvent) -> (step: InputStep)
        requires
            old(self)@.is_valid(),
        ensures
            (final(self)@, step@) == old(self)@.after_mouse(mouse),
            final(self)@.is_valid(),
            old(self)@.rows_are_current() ==> final(self)@.rows_are_current(),
    {
        if self.dialog.is_some() {
            return InputStep::Ignored;
        }
        if mouse.kind == MouseEventKind::LeftDown {
            if let Some(index) = self.job_index_at(mouse.column, mouse.row) {
                let selected: bool = match self.job_list_state.selected {
                    Some(i) => i == index,
                    None => false,
                };
                if !selected {
                    let action = self.handle(AppMessage::MouseClick(index));
                    return InputStep::Handled(action);
                }
            }
            return InputStep::Ignored;
        }
        match (
            mouse_wheel_direction(mouse.kind),
            self.mouse_scroll_target(mouse.column, mouse.row),
        ) {
            (Some(direction), Some(target)) => InputStep::Wheel(
                WheelBurst { target, direction, amount: 1 },
            ),
            _ => InputStep::Ignored,
        }
    }

    /// Reacts to an event of the terminal.
    pub fn handle_input_event(&mut self, event: Event) -> (step: InputStep)
        requires
            old(self)@.is_valid(),
        ensures
            (final(self)@, step@) == old(self)@.after_event(event),
            final(self)@.is_valid(),
            old(self)@.rows_are_current() ==> final(self)@.rows_are_current(),
    {
        match event {
            Event::Key(key) => {
                if self.input_mode == InputMode::Normal && key.code == KeyCode::Char('q') {
                    return InputStep::Quit;
                }
                let action = self.handle(AppMessage::Key(key));
                InputStep::Handled(action)
            },
            Event::Mouse(mouse) => self.handle_mouse(mouse),
            Event::Resize => InputStep::Redraw,
            Event::Other => InputStep::Ignored,
        }
    }

    /// Offers an event to turns of the wheel. Where it does not join them it is kept, to be
    /// handled after them, and `None` is returned.
    pub fn merge_wheel(&mut self, burst: WheelBurst, event: Event) -> (r: Option<WheelBurst>)
        ensures
            old(self)@.joins(burst, event) ==> r == Some(one_more(burst)) && final(self)@ == old(
                self,
            )@,
            !old(self)@.joins(burst, event) ==> r is None && final(self)@ == (AppView {
                pending_input_event: Some(event),
                ..old(self)@
            }),
    {
        let joins: bool = match event {
            Event::Mouse(mouse) => {
                let same_way: bool = match mouse_wheel_direction(mouse.kind) {
                    Some(direction) => direction == burst.direction,
                    None => false,
                };
                let same_panel: bool = match self.mouse_scroll_target(mouse.column, mouse.row) {
                    Some(target) => target == burst.target,
                    None => false,
                };
                same_way && same_panel
            },
            _ => false,
        };
        if joins {
            Some(WheelBurst { amount: burst.amount.saturating_add(1), ..burst })
        } else {
            self.pending_input_event = Some(event);
            None
        }
    }

    /// Scrolls by the turns of the wheel.
    pub fn finish_wheel(&mut self, burst: WheelBurst)
        requires
            old(self)@.is_valid(),
        ensures
            final(self)@ == old(self)@.handled(
                AppMessageView::MouseWheel {
                    target: burst.target,
                    direction: burst.direction,
                    amount: burst.amount,
                },
            ).0,
            final(self)@.is_valid(),
            old(self)@.rows_are_current() ==> final(self)@.rows_are_current(),
    {
        let _ = self.handle(
            AppMessage::MouseWheel {
                target: burst.target,
                direction: burst.direction,
                amount: burst.amount,
            },
        );
    }

    /// Takes the event that was kept, where there is one.
    pub fn take_pending(&mut self) -> (r: Option<Event>)
        ensures
            r == old(self)@.pending_input_event,
            final(self)@ == (AppView { pending_input_event: None, ..old(self)@ }),
    {
        self.pending_input_event.take()
    }
}

} // verus!
