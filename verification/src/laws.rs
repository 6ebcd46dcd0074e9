//! What holds of the monitor as a whole, whatever happens to it.

use vstd::prelude::*;

use crate::app::{
    fitted, ActionView, AppMessageView, AppView, DialogView, InputMode, ScrollAnchor, SelectedTab,
};
use crate::command::{scancel, scontrol_update_timelimit, CommandLineView};
use crate::display::{
    grouped, law_empty_search_lists_all, law_expanding_keeps_the_place, law_list_is_exact,
    law_listed_job_is_found, law_lone_jobs_have_single_rows, law_missing_job_is_not_found,
    law_other_jobs_have_their_own_rows, law_own_row_is_found,
    law_reversing_keeps_the_number_of_rows, law_rows_account_for_every_job, law_rows_are_true,
    law_rows_stand_for_different_jobs, lemma_all_listed, lemma_place_of_job,
    lemma_plain_rows_weigh_one, lemma_rows_bound, listed, name_matches, place_of_job, row_showing,
    shows, total_weight, DisplayEntry,
};
use crate::event::{
    Event, KeyCode, KeyEvent, MouseEvent, MouseScrollTarget, MouseWheelDirection, CONTROL,
};
use crate::job::JobView;
use crate::text_input::{asked_limit, fresh_line, typed_in, EditState};
use crate::update::{one_more, InputStepView, WheelBurst};

verus! {

// ---------------------------------------------------------------------------------------------
// What is kept
// ---------------------------------------------------------------------------------------------
impl AppView {
    /// The state after messages, one after the other.
    pub open spec fn after_all(self, msgs: Seq<AppMessageView>) -> AppView
        decreases msgs.len(),
    {
        if msgs.len() == 0 {
            self
        } else {
            self.after_all(msgs.drop_last()).handled(msgs.last()).0
        }
    }

    /// No row beyond the last is selected.
    pub open spec fn selection_fits(self) -> bool {
        self.active_list().selected matches Some(i) ==> i < self.filtered_indices.len()
    }
}

proof fn lemma_letter_keeps_rows(s: AppView, c: char, control: bool)
    requires
        s.rows_are_current(),
    ensures
        s.after_letter(c, control).rows_are_current(),
{
}

proof fn lemma_search_key_keeps_rows(s: AppView, key: KeyEvent)
    requires
        s.rows_are_current(),
    ensures
        s.after_search_key(key).rows_are_current(),
{
}

proof fn lemma_letter_keeps_valid(s: AppView, c: char, control: bool)
    requires
        s.is_valid(),
    ensures
        s.after_letter(c, control).is_valid(),
{
}

proof fn lemma_search_key_keeps_valid(s: AppView, key: KeyEvent)
    requires
        s.is_valid(),
    ensures
        s.after_search_key(key).is_valid(),
{
}

proof fn lemma_dialog_key_keeps_valid(s: AppView, key: KeyEvent)
    requires
        s.is_valid(),
    ensures
        s.after_dialog_key(key).0.is_valid(),
{
}

/// Every message leaves the number in a dialog that asks for a signal that of a signal.
pub proof fn law_messages_keep_the_state_valid(s: AppView, msg: AppMessageView)
    requires
        s.is_valid(),
    ensures
        s.handled(msg).0.is_valid(),
{
    if let AppMessageView::Key(key) = msg {
        if s.dialog is Some {
            lemma_dialog_key_keeps_valid(s, key);
        } else if s.input_mode == InputMode::Search {
            lemma_search_key_keeps_valid(s, key);
        } else if let KeyCode::Char(c) = key.code {
            lemma_letter_keeps_valid(s, c, key.modifiers.has_all(CONTROL));
        }
    }
}

/// Every message leaves the rows those that the list has to show.
pub proof fn law_messages_keep_the_rows_current(s: AppView, msg: AppMessageView)
    requires
        s.rows_are_current(),
    ensures
        s.handled(msg).0.rows_are_current(),
{
    if let AppMessageView::Key(key) = msg {
        if s.dialog is None {
            if s.input_mode == InputMode::Search {
                lemma_search_key_keeps_rows(s, key);
            } else if let KeyCode::Char(c) = key.code {
                lemma_letter_keeps_rows(s, c, key.modifiers.has_all(CONTROL));
            }
        }
    }
}

/// Whatever messages come, in whatever order, the state stays valid and the rows are those that
/// the list has to show.
pub proof fn law_every_state_is_sound(s: AppView, msgs: Seq<AppMessageView>)
    requires
        s.is_valid(),
        s.rows_are_current(),
    ensures
        s.after_all(msgs).is_valid(),
        s.after_all(msgs).rows_are_current(),
    decreases msgs.len(),
{
    if msgs.len() > 0 {
        law_every_state_is_sound(s, msgs.drop_last());
        let before = s.after_all(msgs.drop_last());
        law_messages_keep_the_state_valid(before, msgs.last());
        law_messages_keep_the_rows_current(before, msgs.last());
    }
}

/// The outcome of what was done outside changes nothing but the dialog.
pub proof fn law_outcomes_change_the_dialog_only(
    s: AppView,
    failure: Option<(Seq<char>, Seq<char>)>,
    text: Seq<char>,
    error: Option<Seq<char>>,
)
    requires
        s.is_valid(),
        s.rows_are_current(),
    ensures
        s.after_command(failure).with_dialog(s.dialog) == s,
        s.after_copy(text, error).with_dialog(s.dialog) == s,
        s.after_command(failure).is_valid() && s.after_command(failure).rows_are_current(),
        s.after_copy(text, error).is_valid() && s.after_copy(text, error).rows_are_current(),
{
}

/// Making the rows anew leaves no row selected that is not there, and doing it again changes
/// nothing.
pub proof fn law_making_rows_settles(s: AppView)
    requires
        s.rows().len() <= usize::MAX,
    ensures
        s.recomputed().rows_are_current(),
        s.recomputed().selection_fits(),
        s.recomputed().recomputed() == s.recomputed(),
{
}

/// Going down or to the end selects a row that is there, and so does going up where the selected
/// row was there before.
pub proof fn law_moving_stays_on_the_rows(s: AppView)
    requires
        0 < s.filtered_indices.len() <= usize::MAX,
    ensures
        s.one_down().active_list().selected is Some && s.one_down().selection_fits(),
        s.selection_fits() ==> s.one_up().active_list().selected is Some
            && s.one_up().selection_fits(),
        s.at_last().active_list().selected == Some((s.filtered_indices.len() - 1) as usize),
{
}

/// Up undoes down, except at the last row.
pub proof fn law_up_undoes_down(s: AppView, i: usize)
    requires
        s.filtered_indices.len() <= usize::MAX,
        s.active_list().selected == Some(i),
        i + 1 < s.filtered_indices.len(),
    ensures
        s.one_down().one_up() == s,
        s.one_down().active_list().selected == Some((i + 1) as usize),
{
}

// ---------------------------------------------------------------------------------------------
// What undoes itself
// ---------------------------------------------------------------------------------------------
/// The keys that choose between the two output files, wrap long lines, and choose what a column
/// shows, undo themselves.
pub proof fn law_switches_undo_themselves(s: AppView, c: char, control: bool)
    requires
        c == 'o' || c == 'w' || c == 'p',
    ensures
        s.after_letter(c, control) != s,
        s.after_letter(c, control).after_letter(c, control) == s,
{
    assert(s.after_letter(c, control).after_letter(c, control) =~= s);
}

/// Turning the order round twice leaves everything as it was.
pub proof fn law_reversing_is_undone(s: AppView, control: bool)
    requires
        s.rows_are_current(),
        s.selection_fits(),
        s.filtered_indices.len() == 0 ==> s.active_list().offset == 0,
    ensures
        s.after_letter('r', control).filtered_indices.len() == s.filtered_indices.len(),
        s.after_letter('r', control).after_letter('r', control) == s,
{
    law_reversing_keeps_the_number_of_rows(s.jobs, s.search_query, s.expanded_arrays);
    law_reversing_keeps_the_number_of_rows(s.sacct_jobs, s.search_query, s.expanded_arrays);
    assert(s.after_letter('r', control).after_letter('r', control) =~= s);
}

/// Asking for the help and then for it again leaves everything as it was.
pub proof fn law_help_closes_itself(s: AppView, key: KeyEvent)
    requires
        s.dialog is None,
        s.input_mode == InputMode::Normal,
        key.code == KeyCode::Char('?'),
    ensures
        s.after_key_event(key).0.dialog == Some(DialogView::HelpPopup),
        s.after_key_event(key).0.after_key_event(key).0 == s,
{
    assert(s.after_key_event(key).0.after_key_event(key).0 =~= s);
}

/// Every dialog closes on the escape key, with nothing done and nothing else changed. The result
/// of copying closes on every key.
pub proof fn law_escape_closes_dialogs(s: AppView, key: KeyEvent)
    requires
        s.dialog is Some,
        key.code == KeyCode::Esc || s.dialog->0 is YankResult,
    ensures
        s.after_key_event(key) == (s.with_dialog(None), None::<ActionView>),
{
}

/// Expanding the array of a group gives each of its tasks a row, and drawing it together again
/// leaves everything as it was.
pub proof fn law_expanding_is_undone(s: AppView, i: usize)
    requires
        s.selected_tab == SelectedTab::Jobs,
        s.jobs.len() <= usize::MAX,
        s.rows_are_current(),
        s.active_list().selected == Some(i),
        i < s.filtered_indices.len(),
        s.filtered_indices[i as int] is CollapsedGroup,
    ensures
        s.array_toggled().filtered_indices[i as int] == DisplayEntry::Job(
            s.filtered_indices[i as int].position(),
        ),
        s.array_toggled().filtered_indices.len() == s.filtered_indices.len()
            + s.filtered_indices[i as int].weight() - 1,
        s.array_toggled().selected_job() == s.selected_job(),
        s.array_toggled().array_toggled() == s,
{
    let list = listed(s.jobs, s.search_query, s.jobs_reversed);
    law_list_is_exact(s.jobs, s.search_query, s.jobs_reversed);
    law_rows_are_true(s.jobs, list, s.expanded_arrays, i as int);
    law_expanding_keeps_the_place(s.jobs, list, s.expanded_arrays, i as int);
    let index = s.filtered_indices[i as int].position();
    assert(list.contains(index));
    let job = s.jobs[index as int];
    let t = s.array_toggled();
    assert(s.selected_job() == Some(job));
    assert(t.expanded_arrays == s.expanded_arrays.insert(job.array_id));
    assert(t.expanded_arrays.remove(job.array_id) =~= s.expanded_arrays);
    assert(t.array_toggled() =~= s);
}

/// Scrolling the output up undoes scrolling it down, and the other way round, as long as neither
/// end of the numbers is reached.
pub proof fn law_output_scrolling_is_undone(s: AppView, delta: u16)
    ensures
        s.job_output_anchor == ScrollAnchor::Top && s.job_output_offset + delta <= u16::MAX
            ==> s.output_down(delta).output_up(delta) == s,
        s.job_output_anchor == ScrollAnchor::Bottom && s.job_output_offset + delta <= u16::MAX
            ==> s.output_up(delta).output_down(delta) == s,
        s.job_output_anchor == ScrollAnchor::Top && delta <= s.job_output_offset
            ==> s.output_up(delta).output_down(delta) == s,
        s.job_output_anchor == ScrollAnchor::Bottom && delta <= s.job_output_offset
            ==> s.output_down(delta).output_up(delta) == s,
{
}

// ---------------------------------------------------------------------------------------------
// The mouse
// ---------------------------------------------------------------------------------------------
/// While a dialog is open the mouse does nothing.
pub proof fn law_dialogs_block_the_mouse(
    s: AppView,
    mouse: MouseEvent,
    index: usize,
    target: MouseScrollTarget,
    direction: MouseWheelDirection,
    amount: u16,
)
    requires
        s.dialog is Some,
    ensures
        s.after_event(Event::Mouse(mouse)) == (s, InputStepView::Ignored),
        s.handled(AppMessageView::MouseClick(index)) == (s, None::<ActionView>),
        s.handled(AppMessageView::MouseWheel { target, direction, amount }) == (
            s,
            None::<ActionView>,
        ),
{
}

/// The burst with so many turns more.
pub open spec fn more(burst: WheelBurst, n: nat) -> WheelBurst
    decreases n,
{
    if n == 0 {
        burst
    } else {
        one_more(more(burst, (n - 1) as nat))
    }
}

/// A burst counts its turns, up to the largest number there is.
pub proof fn law_bursts_count_turns(burst: WheelBurst, n: nat)
    ensures
        more(burst, n) == (WheelBurst {
            amount: if burst.amount + n > u16::MAX {
                u16::MAX
            } else {
                (burst.amount + n) as u16
            },
            ..burst
        }),
    decreases n,
{
    if n > 0 {
        law_bursts_count_turns(burst, (n - 1) as nat);
    }
}

/// Turns of the wheel that are taken together scroll as far as the same turns one by one.
pub proof fn law_turns_add_up(
    s: AppView,
    target: MouseScrollTarget,
    direction: MouseWheelDirection,
    a: u16,
    b: u16,
)
    requires
        a + b <= u16::MAX,
    ensures
        s.wheeled(target, direction, a).wheeled(target, direction, b) == s.wheeled(
            target,
            direction,
            (a + b) as u16,
        ),
{
}

// ---------------------------------------------------------------------------------------------
// Commands
// ---------------------------------------------------------------------------------------------
/// The monitor ends on the key `q` while keys are commands, and on nothing else.
pub proof fn law_only_q_quits(s: AppView, event: Event)
    ensures
        s.after_event(event).1 == InputStepView::Quit <==> s.input_mode == InputMode::Normal && (
        event matches Event::Key(key) && key.code == KeyCode::Char('q')),
        s.after_event(event).1 == InputStepView::Quit ==> s.after_event(event).0 == s,
{
}

/// A command is run only out of a dialog that asks for it, on the key that confirms it, and for
/// the job that the dialog names.
pub proof fn law_commands_are_asked_for(s: AppView, msg: AppMessageView, command: CommandLineView)
    requires
        s.handled(msg).1 == Some(ActionView::Run(command)),
    ensures
        msg matches AppMessageView::Key(key) && (key.code == KeyCode::Enter || key.code
            == KeyCode::Char('y')),
        match s.dialog {
            Some(DialogView::ConfirmCancelJob(id)) => command == scancel(id, None),
            Some(DialogView::SelectCancelSignal { id, selected_signal }) => command == scancel(
                id,
                Some(crate::app::signal_name(selected_signal as int)),
            ),
            Some(DialogView::EditTimeLimit { id, input }) => asked_limit(input.text) is Some
                && command == scontrol_update_timelimit(id, asked_limit(input.text)->0),
            _ => false,
        },
        s.handled(msg).0 == s,
{
}

/// Asking to cancel and confirming cancels the selected job; where the command succeeds,
/// everything is then as it was.
pub proof fn law_cancel_is_for_the_selected_job(s: AppView, ask: KeyEvent, confirm: KeyEvent)
    requires
        s.dialog is None,
        s.input_mode == InputMode::Normal,
        s.selected_job() is Some,
        ask.code == KeyCode::Char('c'),
        confirm.code == KeyCode::Enter || confirm.code == KeyCode::Char('y'),
    ensures
        ({
            let asked = s.after_key_event(ask).0;
            let (waiting, action) = asked.after_key_event(confirm);
            &&& action == Some(ActionView::Run(scancel(s.selected_job()->0.id(), None)))
            &&& waiting.after_command(None) == s
        }),
{
    let asked = s.after_key_event(ask).0;
    assert(asked.after_key_event(confirm).0.after_command(None) =~= s);
}

/// The line after characters were typed, one after the other.
pub open spec fn typed_all(line: EditState, cs: Seq<char>) -> EditState
    decreases cs.len(),
{
    if cs.len() == 0 {
        line
    } else {
        typed_in(typed_all(line, cs.drop_last()), cs.last())
    }
}

/// Characters typed into a fresh line stand behind what it held.
pub proof fn law_typing_appends(text: Seq<char>, cs: Seq<char>)
    ensures
        typed_all(fresh_line(text), cs) == fresh_line(text + cs),
    decreases cs.len(),
{
    if cs.len() > 0 {
        law_typing_appends(text, cs.drop_last());
        assert((text + cs.drop_last()).insert(
            (text + cs.drop_last()).len() as int,
            cs.last(),
        ) =~= text + cs);
    } else {
        assert(text + cs =~= text);
    }
}

/// The time limit that is asked for is the one the job had with what was typed behind it, without
/// the white space around it; where that is nothing, nothing happens.
pub proof fn law_typed_limit_is_asked_for(
    s: AppView,
    ask: KeyEvent,
    cs: Seq<char>,
    enter: KeyEvent,
)
    requires
        s.dialog is None,
        s.input_mode == InputMode::Normal,
        s.selected_job() is Some,
        ask.code == KeyCode::Char('t'),
        enter.code == KeyCode::Enter,
    ensures
        ({
            let job = s.selected_job()->0;
            let opened = s.after_key_event(ask).0;
            let typed = opened.after_typing_all(cs);
            let (done, action) = typed.after_key_event(enter);
            &&& done == typed
            &&& action == match asked_limit(job.time_limit + cs) {
                Some(limit) => Some(ActionView::Run(scontrol_update_timelimit(job.id(), limit))),
                None => None,
            }
        }),
{
    let job = s.selected_job()->0;
    let opened = s.after_key_event(ask).0;
    lemma_typing_all(opened, job.id(), fresh_line(job.time_limit), cs);
    law_typing_appends(job.time_limit, cs);
}

impl AppView {
    /// The state after characters were typed into the line of a dialog.
    pub open spec fn after_typing_all(self, cs: Seq<char>) -> AppView
        decreases cs.len(),
    {
        if cs.len() == 0 {
            self
        } else {
            self.after_typing_all(cs.drop_last()).after_typing(cs.last())
        }
    }
}

proof fn lemma_typing_all(s: AppView, id: Seq<char>, input: EditState, cs: Seq<char>)
    requires
        s.dialog == Some(DialogView::EditTimeLimit { id, input }),
    ensures
        s.after_typing_all(cs) == s.with_dialog(
            Some(DialogView::EditTimeLimit { id, input: typed_all(input, cs) }),
        ),
    decreases cs.len(),
{
    if cs.len() > 0 {
        lemma_typing_all(s, id, input, cs.drop_last());
    }
}

// ---------------------------------------------------------------------------------------------
// The search and the tabs
// ---------------------------------------------------------------------------------------------
/// Leaving the search by the escape key lists every job again: each has a row of its own, or is
/// counted by the row of its array.
pub proof fn law_leaving_the_search_lists_all(s: AppView, key: KeyEvent)
    requires
        s.dialog is None,
        s.input_mode == InputMode::Search,
        key.code == KeyCode::Esc,
        s.active_jobs().len() <= usize::MAX,
    ensures
        ({
            let t = s.after_key_event(key).0;
            &&& t.input_mode == InputMode::Normal
            &&& t.search_query.len() == 0
            &&& total_weight(t.filtered_indices) == s.active_jobs().len()
        }),
{
    match s.selected_tab {
        SelectedTab::Jobs => {
            lemma_all_listed(s.jobs, s.jobs_reversed);
            law_rows_account_for_every_job(
                s.jobs,
                listed(s.jobs, Seq::empty(), s.jobs_reversed),
                s.expanded_arrays,
            );
        },
        SelectedTab::Sacct => {
            lemma_all_listed(s.sacct_jobs, s.sacct_reversed);
            lemma_plain_rows_weigh_one(listed(s.sacct_jobs, Seq::empty(), s.sacct_reversed));
        },
    }
}

/// Taking back the last character of the search brings back what was listed before it, with the
/// first row selected where there is one.
pub proof fn law_backspace_undoes_a_letter(s: AppView, c: char, typed: KeyEvent, back: KeyEvent)
    requires
        s.dialog is None,
        s.input_mode == InputMode::Search,
        s.rows_are_current(),
        typed.code == KeyCode::Char(c),
        back.code == KeyCode::Backspace,
    ensures
        ({
            let t = s.after_key_event(typed).0.after_key_event(back).0;
            &&& t.search_query == s.search_query
            &&& t.filtered_indices == s.filtered_indices
            &&& t.active_list().selected == if s.filtered_indices.len() == 0 {
                None
            } else {
                Some(0usize)
            }
        }),
{
    assert(s.search_query.push(c).drop_last() =~= s.search_query);
}

/// There is no tab beyond the last on either side: going on in the same direction changes nothing.
pub proof fn law_tabs_end_at_both_sides(s: AppView)
    requires
        s.tab_to_the_right().filtered_indices.len() <= usize::MAX,
        s.tab_to_the_left().filtered_indices.len() <= usize::MAX,
    ensures
        s.tab_to_the_right().selected_tab == SelectedTab::Sacct,
        s.tab_to_the_left().selected_tab == SelectedTab::Jobs,
        s.tab_to_the_right().tab_to_the_right() == s.tab_to_the_right(),
        s.tab_to_the_left().tab_to_the_left() == s.tab_to_the_left(),
{
    assert(s.tab_to_the_right().tab_to_the_right() =~= s.tab_to_the_right());
    assert(s.tab_to_the_left().tab_to_the_left() =~= s.tab_to_the_left());
}

// ---------------------------------------------------------------------------------------------
// New jobs
// ---------------------------------------------------------------------------------------------
/// Each row stands for the job at its own position, and every job has a row.
pub open spec fn in_job_order(rows: Seq<DisplayEntry>, jobs: Seq<JobView>) -> bool {
    &&& rows.len() == jobs.len()
    &&& forall|k: int| 0 <= k < rows.len() ==> (#[trigger] rows[k]).position() == k
}

/// With nothing searched for, the order not reversed and no jobs drawn together, the
/// rows are in the order of the jobs.
pub proof fn law_plain_lists_are_in_job_order(s: AppView)
    requires
        s.jobs.len() <= usize::MAX,
        s.selected_tab == SelectedTab::Jobs,
        s.search_query.len() == 0,
        !s.jobs_reversed,
        forall|k: int|
            0 <= k < s.jobs.len() ==> !#[trigger] grouped(
                s.jobs,
                listed(s.jobs, s.search_query, false),
                s.expanded_arrays,
                k,
            ),
    ensures
        in_job_order(s.rows(), s.jobs),
{
    assert(s.search_query =~= Seq::empty());
    law_empty_search_lists_all(s.jobs);
    law_lone_jobs_have_single_rows(
        s.jobs,
        listed(s.jobs, s.search_query, false),
        s.expanded_arrays,
    );
}

/// When new jobs come, the same job stays selected while a row stands for it, whatever the order,
/// the search and the groups are.
pub proof fn law_refreshing_keeps_the_job(s: AppView, jobs: Seq<JobView>, r: int)
    requires
        s.selected_tab == SelectedTab::Jobs,
        s.selected_job() is Some,
        jobs.len() <= usize::MAX,
        ({
            let rows = s.refreshed(jobs).filtered_indices;
            &&& 0 <= r < rows.len()
            &&& rows[r].position() < jobs.len()
            &&& jobs[rows[r].position() as int].id() == s.selected_job()->0.id()
        }),
    ensures
        s.refreshed(jobs).selected_job() is Some,
        s.refreshed(jobs).selected_job()->0.id() == s.selected_job()->0.id(),
{
    let after = AppView { jobs, ..s };
    let list = after.job_list();
    law_list_is_exact(jobs, s.search_query, s.jobs_reversed);
    lemma_rows_bound(jobs, list, s.expanded_arrays, list.len());
    law_own_row_is_found(jobs, list, after.rows(), s.selected_job()->0.id(), r);
}

/// When new jobs come, and the selected job is among them, matches the search and is not drawn
/// together with others, it stays selected, whatever the order is.
pub proof fn law_refreshing_keeps_a_job_on_its_own(s: AppView, jobs: Seq<JobView>, p: int)
    requires
        s.selected_tab == SelectedTab::Jobs,
        s.selected_job() is Some,
        0 <= p < jobs.len() <= usize::MAX,
        jobs[p].id() == s.selected_job()->0.id(),
        name_matches(jobs[p].name, s.search_query),
        ({
            let list = listed(jobs, s.search_query, s.jobs_reversed);
            forall|k: int|
                0 <= k < list.len() && list[k] == p ==> !#[trigger] grouped(
                    jobs,
                    list,
                    s.expanded_arrays,
                    k,
                )
        }),
    ensures
        s.refreshed(jobs).selected_job() is Some,
        s.refreshed(jobs).selected_job()->0.id() == s.selected_job()->0.id(),
{
    let list = listed(jobs, s.search_query, s.jobs_reversed);
    law_list_is_exact(jobs, s.search_query, s.jobs_reversed);
    assert(list.contains(p as usize));
    let k = choose|k: int| 0 <= k < list.len() && list[k] == p as usize;
    law_other_jobs_have_their_own_rows(jobs, list, s.expanded_arrays, k);
    let rows = s.refreshed(jobs).filtered_indices;
    let r = choose|r: int| 0 <= r < rows.len() && rows[r] == DisplayEntry::Job(list[k]);
    law_refreshing_keeps_the_job(s, jobs, r);
}

/// When new jobs come, and the selected job is among them and matches the search, a row that
/// shows it is selected: its own, or that of the group that it is drawn into.
pub proof fn law_refreshing_keeps_the_job_in_view(s: AppView, jobs: Seq<JobView>, p: int)
    requires
        s.selected_tab == SelectedTab::Jobs,
        s.selected_job() is Some,
        0 <= p < jobs.len() <= usize::MAX,
        jobs[p].id() == s.selected_job()->0.id(),
        name_matches(jobs[p].name, s.search_query),
    ensures
        ({
            let t = s.refreshed(jobs);
            let list = t.job_list();
            t.job_list_state.selected matches Some(i) && i < t.filtered_indices.len() && exists|
                k: int,
            |
                0 <= k < list.len() && jobs[(#[trigger] list[k]) as int].id()
                    == s.selected_job()->0.id() && shows(
                    t.filtered_indices[i as int],
                    jobs,
                    list,
                    k,
                )
        }),
{
    let list = AppView { jobs, ..s }.job_list();
    law_list_is_exact(jobs, s.search_query, s.jobs_reversed);
    assert(list.contains(p as usize));
    let k = choose|k: int| 0 <= k < list.len() && list[k] == p as usize;
    lemma_rows_bound(jobs, list, s.expanded_arrays, list.len());
    let id = s.selected_job()->0.id();
    law_listed_job_is_found(jobs, list, s.expanded_arrays, id, k);
    let t = s.refreshed(jobs);
    let found = row_showing(jobs, list, t.filtered_indices, id)->0;
    let j = choose|j: int|
        0 <= j < list.len() && jobs[(#[trigger] list[j]) as int].id() == id && shows(
            t.filtered_indices[found],
            jobs,
            list,
            j,
        );
    assert(t.job_list() == list);
    assert(t.job_list_state.selected == Some(found as usize));
    assert(jobs[t.job_list()[j] as int].id() == id);
}

/// While the other tab is shown, new jobs keep the job selected that will be selected on the tab
/// of jobs, while a row stands for it there.
pub proof fn law_refreshing_keeps_the_job_of_the_other_tab(
    s: AppView,
    jobs: Seq<JobView>,
    r: int,
)
    requires
        s.selected_tab == SelectedTab::Sacct,
        s.among_jobs().selected_job() is Some,
        jobs.len() <= usize::MAX,
        ({
            let rows = s.refreshed(jobs).tab_to_the_left().filtered_indices;
            &&& 0 <= r < rows.len()
            &&& rows[r].position() < jobs.len()
            &&& jobs[rows[r].position() as int].id() == s.among_jobs().selected_job()->0.id()
        }),
    ensures
        s.tab_to_the_left().selected_job() == s.among_jobs().selected_job(),
        s.refreshed(jobs).tab_to_the_left().selected_job() is Some,
        s.refreshed(jobs).tab_to_the_left().selected_job()->0.id()
            == s.tab_to_the_left().selected_job()->0.id(),
{
    let after = AppView { jobs, ..s }.among_jobs();
    let list = after.job_list();
    law_list_is_exact(jobs, Seq::empty(), s.jobs_reversed);
    lemma_rows_bound(jobs, list, s.expanded_arrays, list.len());
    law_own_row_is_found(jobs, list, after.rows(), s.among_jobs().selected_job()->0.id(), r);
}

/// Where the selected job is gone, the same row stays selected as far as there is one.
pub proof fn law_refreshing_keeps_the_row(s: AppView, jobs: Seq<JobView>, i: usize)
    requires
        s.selected_tab == SelectedTab::Jobs,
        s.selected_job() is Some,
        s.job_list_state.selected == Some(i),
        jobs.len() <= usize::MAX,
        forall|p: int|
            0 <= p < jobs.len() ==> (#[trigger] jobs[p]).id() != s.selected_job()->0.id(),
    ensures
        ({
            let t = s.refreshed(jobs);
            t.job_list_state.selected == if t.filtered_indices.len() == 0 {
                None
            } else if i < t.filtered_indices.len() {
                Some(i)
            } else {
                Some((t.filtered_indices.len() - 1) as usize)
            }
        }),
{
    let after = AppView { jobs, ..s };
    let list = after.job_list();
    law_list_is_exact(jobs, s.search_query, s.jobs_reversed);
    lemma_rows_bound(jobs, list, s.expanded_arrays, list.len());
    law_missing_job_is_not_found(jobs, list, after.rows(), s.selected_job()->0.id());
}

/// Where the selected number has no row, but is that of a job, that number stays selected as far as
/// there is one where the job is gone, and else that job's new number is selected. On the tab of
/// jobs it is then brought back to the rows.
pub proof fn law_refreshing_keeps_the_number(s: AppView, jobs: Seq<JobView>, k: usize)
    requires
        s.job_list_state.selected == Some(k),
        k < s.jobs.len(),
        s.among_jobs().selected_job() is None,
        0 < jobs.len() <= usize::MAX,
    ensures
        (forall|p: int| 0 <= p < jobs.len() ==> (#[trigger] jobs[p]).id() != s.jobs[k as int].id())
            ==> s.row_after_refresh(jobs) == Some(
            if k < jobs.len() {
                k
            } else {
                (jobs.len() - 1) as usize
            },
        ),
        forall|p: int|
            0 <= p < jobs.len() && (#[trigger] jobs[p]).id() == s.jobs[k as int].id() && (forall|
                q: int,
            |
                0 <= q < p ==> (#[trigger] jobs[q]).id() != s.jobs[k as int].id())
                ==> s.row_after_refresh(jobs) == Some(p as usize),
        s.selected_tab == SelectedTab::Sacct ==> s.refreshed(jobs).job_list_state.selected
            == s.row_after_refresh(jobs),
        s.selected_tab == SelectedTab::Jobs ==> s.refreshed(jobs).job_list_state == fitted(
            s.job_list_state.selecting(s.row_after_refresh(jobs)),
            s.refreshed(jobs).filtered_indices.len(),
        ),
{
    lemma_place_of_job(jobs, s.jobs[k as int].id(), 0);
}

/// New jobs that are the old ones change nothing, where no two of them go by the same id.
pub proof fn law_refreshing_with_the_same_jobs_changes_nothing(s: AppView, k: usize)
    requires
        s.rows_are_current(),
        s.job_list_state.selected == Some(k),
        k < s.jobs.len() <= usize::MAX,
        forall|i: int, j: int|
            0 <= i < j < s.jobs.len() ==> (#[trigger] s.jobs[i]).id() != (
            #[trigger] s.jobs[j]).id(),
    ensures
        s.row_after_refresh(s.jobs) == Some(k),
        s.selected_tab == SelectedTab::Sacct || s.selection_fits() ==> s.refreshed(s.jobs) == s,
{
    let t = s.among_jobs();
    let list = t.job_list();
    let rows = t.rows();
    law_list_is_exact(s.jobs, t.search_query, s.jobs_reversed);
    lemma_rows_bound(s.jobs, list, s.expanded_arrays, list.len());
    match t.selected_job() {
        Some(job) => {
            law_own_row_is_found(s.jobs, list, rows, job.id(), k as int);
            let found = row_showing(s.jobs, list, rows, job.id())->0;
            let p = rows[found].position() as int;
            let q = rows[k as int].position() as int;
            assert(s.jobs[p].id() == s.jobs[q].id());
            assert(p == q);
            if found < k {
                law_rows_stand_for_different_jobs(s.jobs, list, s.expanded_arrays, found, k as int);
            } else if k < found {
                law_rows_stand_for_different_jobs(s.jobs, list, s.expanded_arrays, k as int, found);
            }
        },
        None => {
            lemma_place_of_job(s.jobs, s.jobs[k as int].id(), 0);
            let p = place_of_job(s.jobs, s.jobs[k as int].id(), 0)->0;
            assert(s.jobs[p].id() == s.jobs[k as int].id());
        },
    }
    assert(s.selected_tab == SelectedTab::Sacct || s.selection_fits() ==> s.refreshed(s.jobs)
        =~= s);
}

/// New jobs of one tab leave the rows and the selection of the other as they are.
pub proof fn law_tabs_do_not_disturb_each_other(s: AppView, jobs: Seq<JobView>)
    ensures
        s.selected_tab == SelectedTab::Sacct ==> s.refreshed(jobs).filtered_indices
            == s.filtered_indices && s.refreshed(jobs).selected_job() == s.selected_job(),
        s.selected_tab == SelectedTab::Jobs ==> s.acct_refreshed(jobs).filtered_indices
            == s.filtered_indices && s.acct_refreshed(jobs).selected_job() == s.selected_job(),
        s.acct_refreshed(jobs).jobs == s.jobs && s.acct_refreshed(jobs).job_list_state
            == s.job_list_state,
{
}

} // verus!
