//! What each key, message and event does, told on the fields of the state.

use vstd::prelude::*;

use crate::app::{
    ActionView, App, AppMessageView, AppView, DialogView, InputMode, OutputFileView, ScrollAnchor,
    SelectedTab,
};
use crate::command::{scancel, scontrol_update_timelimit};
use crate::display::{
    law_list_is_exact, law_missing_job_is_not_found, law_own_row_is_found,
    law_unlisted_job_is_not_found, lemma_rows_bound, row_showing,
};
use crate::event::{
    Event, KeyCode, KeyEvent, MouseEvent, MouseScrollTarget, MouseWheelDirection,
};
use crate::geometry::Rect;
use crate::job::JobView;
use crate::list_laws::{brought_to, found_in, lemma_found};
use crate::list_state::ListState;
use crate::text::trim;
use crate::text_input::{after_key, EditState};
use crate::update::{one_more, InputStepView, WheelBurst};

verus! {

// ---------------------------------------------------------------------------------------------
// Keys as commands
// ---------------------------------------------------------------------------------------------
/// Keys are commands: no dialog is open, and nothing is being typed.
pub open spec fn commanding(s: AppView) -> bool {
    s.dialog is None && s.input_mode is Normal
}

/// The place in the list of the tab that is shown.
pub open spec fn place(s: AppView) -> ListState {
    if s.selected_tab is Jobs {
        s.job_list_state
    } else {
        s.sacct_job_list_state
    }
}

/// The state with the row `i` selected in the list of the tab that is shown, and nothing else
/// changed.
pub open spec fn at_row(s: AppView, i: int) -> AppView {
    let list = ListState { offset: place(s).offset, selected: Some(i as usize) };
    if s.selected_tab is Jobs {
        AppView { job_list_state: list, ..s }
    } else {
        AppView { sacct_job_list_state: list, ..s }
    }
}

/// Going down and up moves by one row and stops at the last and the first; where no row is selected
/// it goes to the first. `g` goes to the first row and `G` to the last.
pub proof fn law_keys_that_walk(s: AppView, key: KeyEvent)
    requires
        commanding(s),
        s.filtered_indices.len() <= usize::MAX,
    ensures
        ({
            let count = s.filtered_indices.len() as int;
            let after = s.after_key_event(key).0;
            let down = key.code == KeyCode::Down || key.code == KeyCode::Char('j');
            let up = key.code == KeyCode::Up || key.code == KeyCode::Char('k');
            &&& (down || up || key.code == KeyCode::Char('G')) && count == 0 ==> after == s
            &&& (down || up) && count > 0 && place(s).selected is None ==> after == at_row(s, 0)
            &&& place(s).selected matches Some(i) ==> {
                &&& down && i + 1 < count ==> after == at_row(s, i + 1)
                &&& down && i + 1 >= count && count > 0 ==> after == at_row(s, count - 1)
                &&& up && count > 0 && i > 0 ==> after == at_row(s, i - 1)
                &&& up && count > 0 && i == 0 ==> after == at_row(s, 0)
            }
            &&& key.code == KeyCode::Char('g') ==> after == at_row(s, 0)
            &&& key.code == KeyCode::Char('G') && count > 0 ==> after == at_row(s, count - 1)
            &&& down || up || key.code == KeyCode::Char('g') || key.code == KeyCode::Char('G')
                ==> s.after_key_event(key).1 is None
        }),
{
}

/// With the control key, `d` goes half of the height of the list down and `u` as much up, from the
/// first row where none is selected; without it they do nothing. They stop at zero and at the
/// largest number.
pub proof fn law_keys_that_turn_half_a_page(s: AppView, key: KeyEvent)
    requires
        commanding(s),
        key.code == KeyCode::Char('d') || key.code == KeyCode::Char('u'),
    ensures
        ({
            let i: int = match place(s).selected {
                Some(i) => i as int,
                None => 0,
            };
            let half = s.job_list_height as int / 2;
            let after = s.after_key_event(key).0;
            &&& key.modifiers.bits & 2 != 2 ==> after == s
            &&& key.modifiers.bits & 2 == 2 && key.code == KeyCode::Char('d') ==> after == at_row(
                s,
                if i + half > usize::MAX {
                    usize::MAX as int
                } else {
                    i + half
                },
            )
            &&& key.modifiers.bits & 2 == 2 && key.code == KeyCode::Char('u') ==> after == at_row(
                s,
                if i >= half {
                    i - half
                } else {
                    0
                },
            )
            &&& s.after_key_event(key).1 is None
        }),
{
}

/// The page keys scroll the output by a line, or by fifty with the shift, control or alt key. The
/// number counts from the end that is held on to, and stops at zero and at the largest number. The
/// keys for the beginning and the end go there and hold on to it.
pub proof fn law_keys_that_scroll_the_output(s: AppView, key: KeyEvent)
    requires
        commanding(s),
        key.code == KeyCode::PageUp || key.code == KeyCode::PageDown || key.code == KeyCode::Home
            || key.code == KeyCode::End,
    ensures
        ({
            let n: int = if key.modifiers.bits & 7 != 0 {
                50
            } else {
                1
            };
            let old = s.job_output_offset as int;
            let farther = if old + n > 65535 {
                65535
            } else {
                old + n
            };
            let nearer = if old < n {
                0
            } else {
                old - n
            };
            let after = s.after_key_event(key).0;
            let away = (key.code == KeyCode::PageDown) == (s.job_output_anchor is Top);
            &&& key.code == KeyCode::PageUp || key.code == KeyCode::PageDown ==> after == (AppView {
                job_output_offset: (if away {
                    farther
                } else {
                    nearer
                }) as u16,
                ..s
            })
            &&& key.code == KeyCode::Home ==> after == (AppView {
                job_output_offset: 0,
                job_output_anchor: ScrollAnchor::Top,
                ..s
            })
            &&& key.code == KeyCode::End ==> after == (AppView {
                job_output_offset: 0,
                job_output_anchor: ScrollAnchor::Bottom,
                ..s
            })
            &&& s.after_key_event(key).1 is None
        }),
{
}

/// The keys that open a dialog open it for the selected job, under the id that it goes by, and do
/// nothing where no job is selected. The help needs none.
pub proof fn law_keys_that_ask(s: AppView, key: KeyEvent)
    requires
        commanding(s),
    ensures
        ({
            let after = s.after_key_event(key).0;
            let asks = key.code == KeyCode::Char('c') || key.code == KeyCode::Char('C')
                || key.code == KeyCode::Char('t') || key.code == KeyCode::Char('y');
            &&& asks && s.selected_job() is None ==> after == s
            &&& s.selected_job() matches Some(job) ==> {
                &&& key.code == KeyCode::Char('c') ==> after == (AppView {
                    dialog: Some(DialogView::ConfirmCancelJob(job.id())),
                    ..s
                })
                &&& key.code == KeyCode::Char('C') ==> after == (AppView {
                    dialog: Some(
                        DialogView::SelectCancelSignal { id: job.id(), selected_signal: 0 },
                    ),
                    ..s
                })
                &&& key.code == KeyCode::Char('t') ==> after == (AppView {
                    dialog: Some(
                        DialogView::EditTimeLimit {
                            id: job.id(),
                            input: EditState {
                                text: job.time_limit,
                                cursor: job.time_limit.len(),
                                yank: Seq::empty(),
                                last_was_cut: false,
                            },
                        },
                    ),
                    ..s
                })
                &&& key.code == KeyCode::Char('y') ==> after == (AppView {
                    dialog: Some(DialogView::YankPopup),
                    ..s
                })
            }
            &&& key.code == KeyCode::Char('?') ==> after == (AppView {
                dialog: Some(DialogView::HelpPopup),
                ..s
            })
            &&& asks || key.code == KeyCode::Char('?') ==> s.after_key_event(key).1 is None
        }),
{
}

/// The keys that switch something over, and what they switch.
pub proof fn law_keys_that_switch(s: AppView, key: KeyEvent)
    requires
        commanding(s),
    ensures
        ({
            let after = s.after_key_event(key).0;
            &&& key.code == KeyCode::Char('o') ==> after == (AppView {
                output_file_view: if s.output_file_view is Stdout {
                    OutputFileView::Stderr
                } else {
                    OutputFileView::Stdout
                },
                ..s
            })
            &&& key.code == KeyCode::Char('w') ==> after == (AppView {
                job_output_wrap: !s.job_output_wrap,
                ..s
            })
            &&& key.code == KeyCode::Char('p') ==> after == (AppView {
                show_qos: !s.show_qos,
                ..s
            })
            &&& key.code == KeyCode::Char('r') && s.selected_tab is Jobs ==> after == (AppView {
                jobs_reversed: !s.jobs_reversed,
                ..s
            }).recomputed()
            &&& key.code == KeyCode::Char('r') && s.selected_tab is Sacct ==> after == (AppView {
                sacct_reversed: !s.sacct_reversed,
                ..s
            }).recomputed()
            &&& key.code == KeyCode::Char('/') ==> after == (AppView {
                input_mode: InputMode::Search,
                search_query: Seq::empty(),
                ..s
            }).recomputed()
            &&& key.code == KeyCode::Char(']') ==> after == (AppView {
                selected_tab: SelectedTab::Sacct,
                search_query: Seq::empty(),
                ..s
            }).recomputed()
            &&& key.code == KeyCode::Char('[') ==> after == (AppView {
                selected_tab: SelectedTab::Jobs,
                search_query: Seq::empty(),
                ..s
            }).recomputed()
            &&& s.after_key_event(key).1 is None
        }),
{
}

/// On the tab of jobs, `a` expands the array of the selected task where it was not expanded, and
/// takes it back where it was. It does nothing to a job outside an array, or on the other tab.
pub proof fn law_key_that_expands(s: AppView, key: KeyEvent, other: Seq<char>)
    requires
        commanding(s),
        key.code == KeyCode::Char('a'),
    ensures
        ({
            let after = s.after_key_event(key).0;
            let task = s.selected_job() is Some && s.selected_job()->0.array_step is Some;
            let array = s.selected_job()->0.array_id;
            &&& s.selected_tab is Sacct || !task ==> after == s
            &&& s.selected_tab is Jobs && task ==> {
                &&& after == (AppView { expanded_arrays: after.expanded_arrays, ..s }).recomputed()
                &&& after.expanded_arrays.contains(array) == !s.expanded_arrays.contains(array)
                &&& other != array ==> after.expanded_arrays.contains(other)
                    == s.expanded_arrays.contains(other)
            }
            &&& s.after_key_event(key).1 is None
        }),
{
}

/// Every other key does nothing.
pub proof fn law_other_keys_do_nothing(s: AppView, key: KeyEvent)
    requires
        commanding(s),
        key.code == KeyCode::Left || key.code == KeyCode::Right || key.code == KeyCode::Enter
            || key.code == KeyCode::Esc || key.code == KeyCode::Backspace || key.code
            == KeyCode::Delete || key.code == KeyCode::Other || (key.code matches KeyCode::Char(c)
            && c != 'j' && c != 'k' && c != 'g' && c != 'G' && c != 'u' && c != 'd' && c != 'c' && c
            != 'C' && c != 't' && c != 'y' && c != 'o' && c != 'w' && c != 'p' && c != 'a' && c
            != 'r' && c != '?' && c != ']' && c != '[' && c != '/'),
    ensures
        s.after_key_event(key) == (s, None::<ActionView>),
{
}

// ---------------------------------------------------------------------------------------------
// Keys of the search
// ---------------------------------------------------------------------------------------------
/// While the search is typed: a character is put behind it, the backspace key takes the last one
/// off, and after either the first row is selected, where there is one.
pub proof fn law_keys_that_change_the_search(s: AppView, key: KeyEvent)
    requires
        s.dialog is None,
        s.input_mode is Search,
    ensures
        ({
            let after = s.after_key_event(key).0;
            let query = match key.code {
                KeyCode::Char(c) => s.search_query + seq![c],
                _ => s.search_query.take(
                    if s.search_query.len() > 0 {
                        s.search_query.len() - 1
                    } else {
                        0
                    },
                ),
            };
            let listed = (AppView { search_query: query, ..s }).recomputed();
            &&& key.code is Char || key.code == KeyCode::Backspace ==> {
                &&& after.search_query == query
                &&& after.filtered_indices == listed.filtered_indices
                &&& listed.filtered_indices.len() > 0 ==> after == at_row(listed, 0)
                &&& listed.filtered_indices.len() == 0 ==> after == listed
            }
            &&& s.after_key_event(key).1 is None
        }),
{
    let q = s.search_query;
    match key.code {
        KeyCode::Char(c) => {
            assert(q + seq![c] =~= q.push(c));
        },
        KeyCode::Backspace => {
            if q.len() > 0 {
                assert(q.take(q.len() - 1) =~= q.drop_last());
            } else {
                assert(q.take(0) =~= q);
            }
        },
        _ => {},
    }
}

/// The enter key keeps the search and ends the typing; the escape key ends both. The keys for up
/// and down walk the rows, and every other key does nothing.
pub proof fn law_keys_that_leave_the_search(s: AppView, key: KeyEvent)
    requires
        s.dialog is None,
        s.input_mode is Search,
        s.filtered_indices.len() <= usize::MAX,
    ensures
        ({
            let after = s.after_key_event(key).0;
            let count = s.filtered_indices.len() as int;
            &&& key.code == KeyCode::Enter ==> after == (AppView {
                input_mode: InputMode::Normal,
                ..s
            })
            &&& key.code == KeyCode::Esc ==> after == (AppView {
                input_mode: InputMode::Normal,
                search_query: Seq::empty(),
                ..s
            }).recomputed()
            &&& key.code == KeyCode::Down || key.code == KeyCode::Up ==> {
                &&& count == 0 ==> after == s
                &&& count > 0 && place(s).selected is None ==> after == at_row(s, 0)
            }
            &&& place(s).selected matches Some(i) ==> count > 0 ==> {
                &&& key.code == KeyCode::Down && i + 1 < count ==> after == at_row(s, i + 1)
                &&& key.code == KeyCode::Down && i + 1 >= count ==> after == at_row(s, count - 1)
                &&& key.code == KeyCode::Up && i > 0 ==> after == at_row(s, i - 1)
                &&& key.code == KeyCode::Up && i == 0 ==> after == at_row(s, 0)
            }
            &&& key.code == KeyCode::Left || key.code == KeyCode::Right || key.code == KeyCode::Home
                || key.code == KeyCode::End || key.code == KeyCode::PageUp || key.code
                == KeyCode::PageDown || key.code == KeyCode::Delete || key.code == KeyCode::Other
                ==> after == s
        }),
{
}

// ---------------------------------------------------------------------------------------------
// Keys of the dialogs
// ---------------------------------------------------------------------------------------------
/// The question whether to cancel a job is answered by the enter key or `y`, and taken back by the
/// escape key; other keys do nothing.
pub proof fn law_keys_of_the_question(s: AppView, id: Seq<char>, key: KeyEvent)
    requires
        s.dialog == Some(DialogView::ConfirmCancelJob(id)),
    ensures
        ({
            let yes = key.code == KeyCode::Enter || key.code == KeyCode::Char('y');
            &&& yes ==> s.after_key_event(key) == (s, Some(ActionView::Run(scancel(id, None))))
            &&& key.code == KeyCode::Esc ==> s.after_key_event(key) == (
                AppView { dialog: None, ..s },
                None::<ActionView>,
            )
            &&& !yes && key.code != KeyCode::Esc ==> s.after_key_event(key) == (
                s,
                None::<ActionView>,
            )
        }),
{
}

/// The signals, in the order in which they are offered.
pub open spec fn offered() -> Seq<Seq<char>> {
    seq!["TERM"@, "INT"@, "HUP"@, "USR1"@, "USR2"@, "STOP"@, "CONT"@, "KILL"@]
}

/// In the choice of a signal, up and down go through the signals and stop at both ends, a digit
/// goes to the signal with that number, the enter key sends the chosen one to the job, and the
/// escape key sends none.
pub proof fn law_keys_of_the_choice(s: AppView, id: Seq<char>, i: usize, key: KeyEvent)
    requires
        s.dialog == Some(DialogView::SelectCancelSignal { id, selected_signal: i }),
        i < 8,
    ensures
        ({
            let (after, action) = s.after_key_event(key);
            let down = key.code == KeyCode::Down || key.code == KeyCode::Char('j');
            let up = key.code == KeyCode::Up || key.code == KeyCode::Char('k');
            &&& key.code == KeyCode::Enter ==> after == s && action == Some(
                ActionView::Run(scancel(id, Some(offered()[i as int]))),
            )
            &&& key.code == KeyCode::Esc ==> after == (AppView { dialog: None, ..s })
            &&& key.code != KeyCode::Enter ==> action is None
            &&& key.code != KeyCode::Enter && key.code != KeyCode::Esc ==> {
                let chosen = after.dialog->0->selected_signal as int;
                &&& after == (AppView {
                    dialog: Some(
                        DialogView::SelectCancelSignal { id, selected_signal: chosen as usize },
                    ),
                    ..s
                })
                &&& chosen == if down {
                    if i < 7 {
                        i + 1
                    } else {
                        7
                    }
                } else if up {
                    if i > 0 {
                        i - 1
                    } else {
                        0
                    }
                } else if key.code == KeyCode::Char('1') {
                    0
                } else if key.code == KeyCode::Char('2') {
                    1
                } else if key.code == KeyCode::Char('3') {
                    2
                } else if key.code == KeyCode::Char('4') {
                    3
                } else if key.code == KeyCode::Char('5') {
                    4
                } else if key.code == KeyCode::Char('6') {
                    5
                } else if key.code == KeyCode::Char('7') {
                    6
                } else if key.code == KeyCode::Char('8') {
                    7
                } else {
                    i as int
                }
            }
        }),
{
}

/// In the line for a time limit the enter key asks for what stands there, without the white space
/// around it, and does nothing where nothing is left. The escape key closes the dialog, and every
/// other key goes to the line.
pub proof fn law_keys_of_the_line(s: AppView, id: Seq<char>, input: EditState, key: KeyEvent)
    requires
        s.dialog == Some(DialogView::EditTimeLimit { id, input }),
    ensures
        ({
            let (after, action) = s.after_key_event(key);
            &&& key.code == KeyCode::Enter ==> after == s
            &&& key.code == KeyCode::Enter && trim(input.text).len() > 0 ==> action == Some(
                ActionView::Run(scontrol_update_timelimit(id, trim(input.text))),
            )
            &&& key.code == KeyCode::Enter && trim(input.text).len() == 0 ==> action is None
            &&& key.code == KeyCode::Esc ==> after == (AppView { dialog: None, ..s })
            &&& key.code != KeyCode::Enter ==> action is None
            &&& key.code != KeyCode::Enter && key.code != KeyCode::Esc ==> after == (AppView {
                dialog: Some(DialogView::EditTimeLimit { id, input: after_key(input, key) }),
                ..s
            })
        }),
{
}

/// A character that is typed into the line is put in at the cursor, which goes behind it.
pub proof fn law_typing_into_the_line(
    s: AppView,
    id: Seq<char>,
    before: Seq<char>,
    behind: Seq<char>,
    input: EditState,
    key: KeyEvent,
    c: char,
)
    requires
        s.dialog == Some(DialogView::EditTimeLimit { id, input }),
        input.text == before + behind,
        input.cursor == before.len(),
    ensures
        s.after_typing(c) == (AppView {
            dialog: Some(
                DialogView::EditTimeLimit {
                    id,
                    input: EditState {
                        text: before.push(c) + behind,
                        cursor: before.len() + 1,
                        yank: input.yank,
                        last_was_cut: false,
                    },
                },
            ),
            ..s
        }),
        key.code == KeyCode::Char(c) && (key.modifiers.bits == 0 || key.modifiers.bits == 1)
            && !(key.kind is Release) ==> s.takes_typing(key, c),
{
    assert(input.text.insert(input.cursor as int, c) =~= before.push(c) + behind);
}

/// What went wrong is read and closed by the enter or the escape key, the help by the escape key or
/// its own; other keys leave them open.
pub proof fn law_keys_of_what_is_read(s: AppView, key: KeyEvent)
    requires
        s.dialog is Some,
        s.dialog->0 is CommandError || s.dialog->0 is HelpPopup,
    ensures
        ({
            let closes = key.code == KeyCode::Esc || (s.dialog->0 is CommandError && key.code
                == KeyCode::Enter) || (s.dialog->0 is HelpPopup && key.code == KeyCode::Char(
                '?',
            ));
            &&& closes ==> s.after_key_event(key) == (
                AppView { dialog: None, ..s },
                None::<ActionView>,
            )
            &&& !closes ==> s.after_key_event(key) == (s, None::<ActionView>)
        }),
{
}

/// What was copied is told until the next key, whichever it is.
pub proof fn law_any_key_closes_what_was_copied(s: AppView, text: Seq<char>, key: KeyEvent)
    requires
        s.dialog == Some(DialogView::YankResult(text)),
    ensures
        s.after_key_event(key) == (AppView { dialog: None, ..s }, None::<ActionView>),
{
}

/// Where it is asked what to copy, `o` is for the path of the output, `s` for that of the errors
/// and `i` for the id of the selected job; a path that is missing is told of.
pub proof fn law_keys_that_copy(s: AppView, key: KeyEvent)
    requires
        s.dialog == Some(DialogView::YankPopup),
    ensures
        ({
            let (after, action) = s.after_key_event(key);
            let told = |text: Seq<char>|
                after == (AppView { dialog: Some(DialogView::YankResult(text)), ..s })
                    && action is None;
            &&& s.selected_job() matches Some(job) ==> {
                &&& key.code == KeyCode::Char('o') && job.stdout is Some ==> after == s && action
                    == Some(ActionView::Copy(job.stdout->0))
                &&& key.code == KeyCode::Char('s') && job.stderr is Some ==> after == s && action
                    == Some(ActionView::Copy(job.stderr->0))
                &&& key.code == KeyCode::Char('i') ==> after == s && action == Some(
                    ActionView::Copy(job.job_id),
                )
            }
            &&& key.code == KeyCode::Char('o') && (s.selected_job() is None
                || s.selected_job()->0.stdout is None) ==> told("No stdout path available"@)
            &&& key.code == KeyCode::Char('s') && (s.selected_job() is None
                || s.selected_job()->0.stderr is None) ==> told("No stderr path available"@)
            &&& key.code == KeyCode::Char('i') && s.selected_job() is None ==> told(
                "No job selected"@,
            )
            &&& key.code == KeyCode::Esc || key.code == KeyCode::Char('y') ==> after == (AppView {
                dialog: None,
                ..s
            }) && action is None
            &&& key.code != KeyCode::Char('o') && key.code != KeyCode::Char('s') && key.code
                != KeyCode::Char('i') && key.code != KeyCode::Char('y') && key.code != KeyCode::Esc
                ==> after == s && action is None
        }),
{
    reveal_strlit("No ");
    reveal_strlit("stdout");
    reveal_strlit("stderr");
    reveal_strlit(" path available");
    reveal_strlit("No stdout path available");
    reveal_strlit("No stderr path available");
    assert("No "@ + "stdout"@ + " path available"@ =~= "No stdout path available"@);
    assert("No "@ + "stderr"@ + " path available"@ =~= "No stderr path available"@);
}

/// The dialog after a command was run, and after a text was copied.
pub proof fn law_dialogs_after_an_outcome(
    s: AppView,
    command: Seq<char>,
    output: Seq<char>,
    text: Seq<char>,
    error: Seq<char>,
)
    ensures
        s.after_command(None) == (AppView { dialog: None, ..s }),
        s.after_command(Some((command, output))) == (AppView {
            dialog: Some(DialogView::CommandError { command, output }),
            ..s
        }),
        s.after_copy(text, None) == (AppView {
            dialog: Some(DialogView::YankResult("Copied: "@ + text)),
            ..s
        }),
        s.after_copy(text, Some(error)) == (AppView {
            dialog: Some(DialogView::YankResult("Error: "@ + error)),
            ..s
        }),
{
}

// ---------------------------------------------------------------------------------------------
// Messages
// ---------------------------------------------------------------------------------------------
/// New finished jobs take the place of the old ones. On their own tab the rows are made anew, and
/// the selected row stays as far as there is one; on the other tab nothing else changes.
pub proof fn law_new_finished_jobs(s: AppView, jobs: Seq<JobView>)
    ensures
        ({
            let (after, action) = s.handled(AppMessageView::SacctJobs(jobs));
            &&& action is None
            &&& s.selected_tab is Jobs ==> after == (AppView { sacct_jobs: jobs, ..s })
            &&& s.selected_tab is Sacct ==> {
                &&& after == (AppView {
                    sacct_jobs: jobs,
                    filtered_indices: after.filtered_indices,
                    sacct_job_list_state: after.sacct_job_list_state,
                    ..s
                })
                &&& after.filtered_indices == (AppView {
                    sacct_jobs: jobs,
                    ..s
                }).recomputed().filtered_indices
                &&& brought_to(
                    s.sacct_job_list_state,
                    after.filtered_indices.len(),
                    after.sacct_job_list_state,
                )
            }
        }),
{
}

/// New finished jobs that are the old ones change nothing, where the rows are current and the
/// selected row is one of them.
pub proof fn law_the_same_finished_jobs_again(s: AppView)
    requires
        s.selected_tab is Sacct ==> s.filtered_indices == s.recomputed().filtered_indices,
        s.selected_tab is Sacct ==> (s.sacct_job_list_state.selected matches Some(i) ==> i
            < s.filtered_indices.len()),
        s.filtered_indices.len() == 0 ==> s.sacct_job_list_state.offset == 0,
    ensures
        s.handled(AppMessageView::SacctJobs(s.sacct_jobs)) == (s, None::<ActionView>),
{
    assert(s.acct_refreshed(s.sacct_jobs) =~= s);
}

/// New jobs take the place of the old ones. Besides them only the place in their list changes and,
/// where their tab is shown, the rows.
pub proof fn law_new_jobs(s: AppView, jobs: Seq<JobView>)
    ensures
        ({
            let (after, action) = s.handled(AppMessageView::Jobs(jobs));
            &&& action is None
            &&& after == (AppView {
                jobs,
                job_list_state: after.job_list_state,
                filtered_indices: after.filtered_indices,
                ..s
            })
            &&& s.selected_tab is Sacct ==> after.filtered_indices == s.filtered_indices
            &&& s.selected_tab is Jobs ==> after.filtered_indices == (AppView {
                jobs,
                ..s
            }).recomputed().filtered_indices
            &&& jobs.len() == 0 ==> after.job_list_state.selected is None
            &&& jobs.len() > 0 && s.job_list_state.selected is None && (s.selected_tab is Sacct
                || after.filtered_indices.len() > 0) ==> after.job_list_state.selected == Some(
                0usize,
            )
            &&& (jobs.len() > 0 && s.job_list_state.selected is Some
                && s.job_list_state.selected->0 >= s.jobs.len()
                && s.among_jobs().selected_job() is None && (s.selected_tab is Sacct
                || after.filtered_indices.len() > 0)) ==> after.job_list_state.selected == Some(
                0usize,
            )
            &&& after.job_list_state.selected is Some ==> after.job_list_state.offset
                == s.job_list_state.offset
            &&& after.job_list_state.selected is None ==> after.job_list_state.offset == 0
        }),
{
}

/// Where several rows stand for jobs that go by the id of the selected one, the first is selected.
pub proof fn law_refreshing_selects_the_first_such_row(s: AppView, jobs: Seq<JobView>, r: int)
    requires
        s.selected_tab is Jobs,
        s.selected_job() is Some,
        jobs.len() <= usize::MAX,
        ({
            let rows = s.handled(AppMessageView::Jobs(jobs)).0.filtered_indices;
            let id = s.selected_job()->0.id();
            &&& 0 <= r < rows.len()
            &&& rows[r].position() < jobs.len()
            &&& jobs[rows[r].position() as int].id() == id
            &&& forall|k: int|
                0 <= k < r && (#[trigger] rows[k]).position() < jobs.len()
                    ==> jobs[rows[k].position() as int].id() != id
        }),
    ensures
        s.handled(AppMessageView::Jobs(jobs)).0.job_list_state == (ListState {
            offset: s.job_list_state.offset,
            selected: Some(r as usize),
        }),
{
    let after = AppView { jobs, ..s };
    let list = after.job_list();
    law_list_is_exact(jobs, s.search_query, s.jobs_reversed);
    lemma_rows_bound(jobs, list, s.expanded_arrays, list.len());
    law_own_row_is_found(jobs, list, after.rows(), s.selected_job()->0.id(), r);
    let found = row_showing(jobs, list, after.rows(), s.selected_job()->0.id())->0;
    assert(found == r) by {
        if found < r {
            assert(after.rows()[found].position() < jobs.len());
        }
    }
}

/// Where the search finds no job that goes by the id of the selected one any more, the same row
/// stays selected as far as there is one.
pub proof fn law_refreshing_keeps_the_row_of_a_hidden_job(
    s: AppView,
    jobs: Seq<JobView>,
    i: usize,
)
    requires
        s.selected_tab is Jobs,
        s.selected_job() is Some,
        s.job_list_state.selected == Some(i),
        jobs.len() <= usize::MAX,
        forall|p: int|
            0 <= p < jobs.len() && found_in((#[trigger] jobs[p]).name, s.search_query)
                ==> jobs[p].id() != s.selected_job()->0.id(),
    ensures
        ({
            let after = s.handled(AppMessageView::Jobs(jobs)).0;
            brought_to(s.job_list_state, after.filtered_indices.len(), after.job_list_state)
        }),
{
    let after = AppView { jobs, ..s };
    let list = after.job_list();
    law_list_is_exact(jobs, s.search_query, s.jobs_reversed);
    lemma_rows_bound(jobs, list, s.expanded_arrays, list.len());
    assert forall|k: int| 0 <= k < list.len() implies jobs[(#[trigger] list[k]) as int].id()
        != s.selected_job()->0.id() by {
        lemma_found(jobs[list[k] as int].name, s.search_query);
        assert(list.contains(list[k]));
    }
    law_unlisted_job_is_not_found(jobs, list, s.expanded_arrays, s.selected_job()->0.id());
}

/// While the other tab is shown and the job that would be selected is gone, the same number stays
/// selected as far as there are as many jobs.
pub proof fn law_refreshing_keeps_the_number_of_the_other_tab(
    s: AppView,
    jobs: Seq<JobView>,
    i: usize,
)
    requires
        s.selected_tab is Sacct,
        s.job_list_state.selected == Some(i),
        0 < jobs.len() <= usize::MAX,
        s.among_jobs().selected_job() is Some,
        forall|p: int|
            0 <= p < jobs.len() ==> (#[trigger] jobs[p]).id()
                != s.among_jobs().selected_job()->0.id(),
    ensures
        s.handled(AppMessageView::Jobs(jobs)).0.job_list_state == (ListState {
            offset: s.job_list_state.offset,
            selected: Some(
                if i < jobs.len() {
                    i
                } else {
                    (jobs.len() - 1) as usize
                },
            ),
        }),
{
    let after = AppView { jobs, ..s }.among_jobs();
    let list = after.job_list();
    law_list_is_exact(jobs, Seq::empty(), s.jobs_reversed);
    lemma_rows_bound(jobs, list, s.expanded_arrays, list.len());
    law_missing_job_is_not_found(jobs, list, after.rows(), s.among_jobs().selected_job()->0.id());
}

/// The output of a file, or why it cannot be had, takes the place of what was shown.
pub proof fn law_new_output(s: AppView, output: Result<Seq<char>, Seq<char>>)
    ensures
        s.handled(AppMessageView::JobOutput(output)) == (
            AppView { job_output: output, ..s },
            None::<ActionView>,
        ),
{
}

/// A click selects the row in the list of jobs, as far as there are as many jobs.
pub proof fn law_clicks(s: AppView, index: usize)
    requires
        s.dialog is None,
    ensures
        index < s.jobs.len() ==> s.handled(AppMessageView::MouseClick(index)) == (
            AppView {
                job_list_state: ListState {
                    offset: s.job_list_state.offset,
                    selected: Some(index),
                },
                ..s
            },
            None::<ActionView>,
        ),
        index >= s.jobs.len() ==> s.handled(AppMessageView::MouseClick(index)) == (
            s,
            None::<ActionView>,
        ),
{
}

/// The wheel moves the selection in the list of jobs, or scrolls the output, by as many rows or
/// lines as it was turned, down or up as it was turned, from the first row where none is selected.
/// It stops at zero and at the largest number.
pub proof fn law_turns_of_the_wheel(s: AppView, direction: MouseWheelDirection, amount: u16)
    requires
        s.dialog is None,
    ensures
        ({
            let i: int = match s.job_list_state.selected {
                Some(i) => i as int,
                None => 0,
            };
            let list = s.handled(
                AppMessageView::MouseWheel { target: MouseScrollTarget::Jobs, direction, amount },
            ).0;
            let output = s.handled(
                AppMessageView::MouseWheel { target: MouseScrollTarget::Output, direction, amount },
            ).0;
            let row = if direction is Down {
                if i + amount > usize::MAX {
                    usize::MAX as int
                } else {
                    i + amount
                }
            } else if i >= amount {
                i - amount
            } else {
                0
            };
            let old = s.job_output_offset as int;
            let line = if (direction is Down) == (s.job_output_anchor is Top) {
                if old + amount > 65535 {
                    65535
                } else {
                    old + amount
                }
            } else if old >= amount {
                old - amount
            } else {
                0
            };
            &&& list == (AppView {
                job_list_state: ListState {
                    offset: s.job_list_state.offset,
                    selected: Some(row as usize),
                },
                ..s
            })
            &&& output == (AppView { job_output_offset: line as u16, ..s })
        }),
{
}

// ---------------------------------------------------------------------------------------------
// Events
// ---------------------------------------------------------------------------------------------
/// A cell lies in an area: not before it and not behind it, in both directions.
pub open spec fn inside(area: Rect, column: u16, row: u16) -> bool {
    area.x <= column < area.x + area.width && area.y <= row < area.y + area.height
}

/// The wheel is for the list over the list, for the output over the output, and for nothing
/// elsewhere. The last coordinate there is belongs to no area.
pub proof fn law_what_the_wheel_is_for(s: AppView, column: u16, row: u16)
    ensures
        ({
            let there = column < 65535 && row < 65535;
            let list = there && inside(s.job_list_area, column, row);
            let output = there && inside(s.job_output_area, column, row);
            &&& list ==> s.scroll_target(column, row) == Some(MouseScrollTarget::Jobs)
            &&& !list && output ==> s.scroll_target(column, row) == Some(MouseScrollTarget::Output)
            &&& !list && !output ==> s.scroll_target(column, row) is None
        }),
{
}

/// A click inside the border of the list is for the row there: the first visible row in the first
/// line, and one more for each line below. Beyond the jobs, and elsewhere, it is for none.
pub proof fn law_what_a_click_is_for(s: AppView, column: u16, row: u16)
    requires
        s.job_list_area.x + s.job_list_area.width < 65535,
        s.job_list_area.y + s.job_list_area.height < 65535,
        s.jobs.len() <= usize::MAX,
    ensures
        ({
            let a = s.job_list_area;
            let within = a.x < column < a.x + a.width - 1 && a.y < row < a.y + a.height - 1;
            let index = s.job_list_state.offset + (row - a.y - 1);
            &&& within && index < s.jobs.len() ==> s.job_at(column, row) == Some(index as usize)
            &&& !within || index >= s.jobs.len() ==> s.job_at(column, row) is None
        }),
{
}

/// What an event comes to: keys are handled but for the one that ends the monitor, a change of the
/// size is drawn, and other events come to nothing.
pub proof fn law_what_events_come_to(s: AppView, key: KeyEvent)
    ensures
        s.input_mode is Normal && key.code == KeyCode::Char('q') ==> s.after_event(Event::Key(key))
            == (s, InputStepView::Quit),
        !(s.input_mode is Normal && key.code == KeyCode::Char('q')) ==> s.after_event(
            Event::Key(key),
        ) == (
            s.handled(AppMessageView::Key(key)).0,
            InputStepView::Handled(s.handled(AppMessageView::Key(key)).1),
        ),
        s.after_event(Event::Resize) == (s, InputStepView::Redraw),
        s.after_event(Event::Other) == (s, InputStepView::Ignored),
{
}

/// What the mouse comes to while no dialog is open: a click on another row than the selected one
/// selects it, a turn of the wheel over a panel begins a burst there, and nothing else happens.
pub proof fn law_what_the_mouse_comes_to(s: AppView, mouse: MouseEvent)
    requires
        s.dialog is None,
    ensures
        ({
            let (after, step) = s.after_event(Event::Mouse(mouse));
            let row = s.job_at(mouse.column, mouse.row);
            let target = s.scroll_target(mouse.column, mouse.row);
            let wheel = mouse.kind is ScrollUp || mouse.kind is ScrollDown;
            &&& mouse.kind is LeftDown && row is Some && s.job_list_state.selected != row ==> {
                &&& after == (AppView {
                    job_list_state: ListState {
                        offset: s.job_list_state.offset,
                        selected: row,
                    },
                    ..s
                })
                &&& step == InputStepView::Handled(None)
            }
            &&& mouse.kind is LeftDown && (row is None || s.job_list_state.selected == row) ==> (
            after,
            step,
            ) == (s, InputStepView::Ignored)
            &&& wheel && target is Some ==> (after, step) == (
                s,
                InputStepView::Wheel(
                    WheelBurst {
                        target: target->0,
                        direction: if mouse.kind is ScrollUp {
                            MouseWheelDirection::Up
                        } else {
                            MouseWheelDirection::Down
                        },
                        amount: 1,
                    },
                ),
            )
            &&& wheel && target is None || mouse.kind is Other ==> (after, step) == (
                s,
                InputStepView::Ignored,
            )
        }),
{
}

/// A burst that an event joins counts one turn more, up to the largest number, and is otherwise the
/// same.
pub proof fn law_one_turn_more(burst: WheelBurst)
    ensures
        one_more(burst).target == burst.target,
        one_more(burst).direction == burst.direction,
        burst.amount < 65535 ==> one_more(burst).amount == burst.amount + 1,
        burst.amount == 65535 ==> one_more(burst).amount == 65535,
{
}

/// An event joins a burst where it turns the wheel in the same direction over the same panel, and
/// nothing else does.
pub proof fn law_what_joins_a_burst(s: AppView, burst: WheelBurst, event: Event)
    ensures
        s.joins(burst, event) <==> event is Mouse && {
            let mouse = event->Mouse_0;
            let same_way = if burst.direction is Up {
                mouse.kind is ScrollUp
            } else {
                mouse.kind is ScrollDown
            };
            same_way && s.scroll_target(mouse.column, mouse.row) == Some(burst.target)
        },
{
}

// ---------------------------------------------------------------------------------------------
// Values and what they hold
// ---------------------------------------------------------------------------------------------
/// What is said of the state is said of its own fields.
pub proof fn law_the_state_is_its_fields(app: App, i: int)
    ensures
        app@.jobs.len() == app.jobs@.len() && app@.sacct_jobs.len() == app.sacct_jobs@.len(),
        0 <= i < app.jobs@.len() ==> app@.jobs[i] == app.jobs@[i]@,
        0 <= i < app.sacct_jobs@.len() ==> app@.sacct_jobs[i] == app.sacct_jobs@[i]@,
        app@.selected_tab == app.selected_tab && app@.input_mode == app.input_mode,
        app@.job_list_state == app.job_list_state,
        app@.sacct_job_list_state == app.sacct_job_list_state,
        app@.jobs_reversed == app.jobs_reversed && app@.sacct_reversed == app.sacct_reversed,
        app@.job_output_anchor == app.job_output_anchor,
        app@.job_output_offset == app.job_output_offset,
        app@.job_output_wrap == app.job_output_wrap,
        app@.output_file_view == app.output_file_view,
        app@.job_list_height == app.job_list_height,
        app@.job_list_area == app.job_list_area && app@.job_output_area == app.job_output_area,
        app@.pending_input_event == app.pending_input_event,
        app@.search_query == app.search_query@,
        app@.filtered_indices == app.filtered_indices@,
        app@.expanded_arrays == app.expanded_arrays@,
        app@.show_qos == app.show_qos,
        app.dialog is None <==> app@.dialog is None,
        app.dialog matches Some(dialog) ==> app@.dialog == Some(dialog@),
        app.job_output matches Ok(text) ==> app@.job_output == Ok::<Seq<char>, Seq<char>>(text@),
        app.job_output matches Err(error) ==> app@.job_output == Err::<Seq<char>, Seq<char>>(
            error.message@,
        ),
{
}

} // verus!
