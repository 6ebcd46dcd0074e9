//! What stands on the screen, told on the fields of the jobs and of the state.

use vstd::prelude::*;
use vstd::utf8::encode_utf8;

use crate::app::{AppView, DialogView, SelectedTab};
use crate::dialog::{
    drawn, help_line, law_help_columns_are_as_wide_as_needed, limit_drawn, shortcut, BodyView,
};
use crate::display::DisplayEntry;
use crate::geometry::{fits, Rect, Screen};
use crate::job::JobView;
use crate::key_laws::offered;
use crate::list_laws::law_id_of_a_job;
use crate::text::{decimal, line_count};
use crate::text_input::{cursor_column, scrolled_cells, EditState};
use crate::view::{
    cell, column_width, hints, lemma_chars_take_bytes, lemma_rows_in_range, lemma_shown_upto,
    lemma_width_upto, tab_name, width_upto, Column, SpanView, Tone,
};

verus! {

// ---------------------------------------------------------------------------------------------
// The rows
// ---------------------------------------------------------------------------------------------
/// A text stands at the left of a column, and only blanks are behind it.
pub open spec fn stands_left(text: Seq<char>, column: Seq<char>) -> bool {
    &&& text.len() <= column.len()
    &&& column.take(text.len() as int) == text
    &&& forall|i: int| text.len() <= i < column.len() ==> #[trigger] column[i] == ' '
}

/// A text stands at the right of a column, and only blanks are before it.
pub open spec fn stands_right(text: Seq<char>, column: Seq<char>) -> bool {
    &&& text.len() <= column.len()
    &&& column.skip(column.len() - text.len()) == text
    &&& forall|i: int| 0 <= i < column.len() - text.len() ==> #[trigger] column[i] == ' '
}

/// The id of the array and the number of the task with an underscore between them, or the id of a
/// job that is no task.
pub open spec fn shown_id(job: JobView) -> Seq<char> {
    match job.array_step {
        Some(step) => job.array_id.push('_') + step,
        None => job.job_id,
    }
}

/// The texts of the columns of a job are texts that a machine can hold.
pub open spec fn can_be_held(job: JobView) -> bool {
    &&& encode_utf8(job.state_compact).len() <= usize::MAX
    &&& encode_utf8(shown_id(job)).len() <= usize::MAX
    &&& encode_utf8(job.partition).len() <= usize::MAX
    &&& encode_utf8(job.qos).len() <= usize::MAX
    &&& encode_utf8(job.user).len() <= usize::MAX
    &&& encode_utf8(job.time).len() <= usize::MAX
}

/// The jobs of the tab that is shown.
pub open spec fn jobs_shown(s: AppView) -> Seq<JobView> {
    if s.selected_tab is Jobs {
        s.jobs
    } else {
        s.sacct_jobs
    }
}

proof fn lemma_wide_enough(jobs: Seq<JobView>, column: Column, show_qos: bool, i: int)
    requires
        0 <= i < jobs.len(),
        encode_utf8(cell(jobs[i], column, show_qos)).len() <= usize::MAX,
    ensures
        cell(jobs[i], column, show_qos).len() <= column_width(jobs, column, show_qos),
{
    lemma_chars_take_bytes(cell(jobs[i], column, show_qos));
    lemma_width_upto(jobs, column, show_qos, jobs.len(), i);
}

/// What the row of a job shows, from the left: its compact state, its id, its partition or its
/// quality of service, its user, the time it ran at the right of its column, and its name.
pub proof fn law_what_the_row_of_a_job_shows(s: AppView, k: int, p: usize)
    requires
        jobs_shown(s).len() <= usize::MAX,
        s.filtered_indices == s.recomputed().filtered_indices,
        0 <= k < s.filtered_indices.len(),
        s.filtered_indices[k] == DisplayEntry::Job(p),
        can_be_held(jobs_shown(s)[p as int]),
    ensures
        s.shown_rows().len() == s.filtered_indices.len(),
        p < jobs_shown(s).len(),
        ({
            let job = jobs_shown(s)[p as int];
            let line = s.shown_rows()[k].line;
            &&& s.shown_rows()[k].state_compact == job.state_compact
            &&& line.len() == 11
            &&& stands_left(job.state_compact, line[0].text)
            &&& stands_left(shown_id(job), line[2].text)
            &&& stands_left(
                if s.show_qos {
                    job.qos
                } else {
                    job.partition
                },
                line[4].text,
            )
            &&& stands_left(job.user, line[6].text)
            &&& stands_right(job.time, line[8].text)
            &&& line[10].text == job.name
        }),
{
    reveal_strlit("_");
    lemma_rows_in_range(s);
    lemma_shown_upto(s, s.filtered_indices.len());
    assert(s.filtered_indices[k].position() < s.active_jobs().len());
    let jobs = s.active_jobs();
    let job = jobs[p as int];
    law_id_of_a_job(job);
    lemma_wide_enough(jobs, Column::State, s.show_qos, p as int);
    lemma_wide_enough(jobs, Column::Id, s.show_qos, p as int);
    lemma_wide_enough(jobs, Column::Partition, s.show_qos, p as int);
    lemma_wide_enough(jobs, Column::User, s.show_qos, p as int);
    lemma_wide_enough(jobs, Column::Time, s.show_qos, p as int);
    let line = s.shown_rows()[k].line;
    assert(line[0].text.take(job.state_compact.len() as int) =~= job.state_compact);
    assert(line[2].text.take(shown_id(job).len() as int) =~= shown_id(job));
    let third = if s.show_qos {
        job.qos
    } else {
        job.partition
    };
    assert(line[4].text.take(third.len() as int) =~= third);
    assert(line[6].text.take(job.user.len() as int) =~= job.user);
    assert(line[8].text.skip(line[8].text.len() - job.time.len()) =~= job.time);
}

/// The row of a group shows the id of the array, and behind a mark the name and how many tasks it
/// stands for; its other columns are those of its first task.
pub proof fn law_what_the_row_of_a_group_shows(s: AppView, k: int, p: usize, total: usize)
    requires
        s.selected_tab is Jobs,
        s.jobs.len() <= usize::MAX,
        s.filtered_indices == s.recomputed().filtered_indices,
        0 <= k < s.filtered_indices.len(),
        s.filtered_indices[k] == (DisplayEntry::CollapsedGroup { index: p, total }),
        s.jobs[p as int].array_step is Some,
        can_be_held(s.jobs[p as int]),
    ensures
        s.shown_rows().len() == s.filtered_indices.len(),
        p < s.jobs.len(),
        ({
            let job = s.jobs[p as int];
            let line = s.shown_rows()[k].line;
            &&& s.shown_rows()[k].state_compact == job.state_compact
            &&& line.len() == 11
            &&& stands_left(job.state_compact, line[0].text)
            &&& stands_left(job.array_id, line[2].text)
            &&& stands_left(
                if s.show_qos {
                    job.qos
                } else {
                    job.partition
                },
                line[4].text,
            )
            &&& stands_left(job.user, line[6].text)
            &&& stands_right(job.time, line[8].text)
            &&& line[10].text == "▶ "@ + job.name + " ["@ + decimal(total as nat) + "]"@
        }),
{
    reveal_strlit("_");
    lemma_rows_in_range(s);
    lemma_shown_upto(s, s.filtered_indices.len());
    assert(s.filtered_indices[k].position() < s.active_jobs().len());
    let job = s.jobs[p as int];
    law_id_of_a_job(job);
    lemma_wide_enough(s.jobs, Column::State, s.show_qos, p as int);
    lemma_wide_enough(s.jobs, Column::Id, s.show_qos, p as int);
    lemma_wide_enough(s.jobs, Column::Partition, s.show_qos, p as int);
    lemma_wide_enough(s.jobs, Column::User, s.show_qos, p as int);
    lemma_wide_enough(s.jobs, Column::Time, s.show_qos, p as int);
    let line = s.shown_rows()[k].line;
    assert(line[0].text.take(job.state_compact.len() as int) =~= job.state_compact);
    assert(line[2].text.take(job.array_id.len() as int) =~= job.array_id);
    let third = if s.show_qos {
        job.qos
    } else {
        job.partition
    };
    assert(line[4].text.take(third.len() as int) =~= third);
    assert(line[6].text.take(job.user.len() as int) =~= job.user);
    assert(line[8].text.skip(line[8].text.len() - job.time.len()) =~= job.time);
}

/// The columns are as wide in every row, a blank stands between two of them, and each is set off
/// in its own way; the name of a job is not set off, and that of a group is dim.
pub proof fn law_columns_are_alike_in_every_row(s: AppView, k: int, n: int)
    requires
        jobs_shown(s).len() <= usize::MAX,
        s.filtered_indices == s.recomputed().filtered_indices,
        0 <= k < s.filtered_indices.len(),
        0 <= n < s.filtered_indices.len(),
    ensures
        ({
            let a = s.shown_rows()[k].line;
            let b = s.shown_rows()[n].line;
            &&& a[0].text.len() == b[0].text.len() && a[2].text.len() == b[2].text.len()
            &&& a[4].text.len() == b[4].text.len() && a[6].text.len() == b[6].text.len()
            &&& a[8].text.len() == b[8].text.len()
            &&& a[1].text == " "@ && a[3].text == " "@ && a[5].text == " "@ && a[7].text == " "@
            &&& a[9].text == " "@
            &&& a[0].tone is State && a[2].tone is Yellow && a[4].tone is Blue
            &&& a[6].tone is Green && a[8].tone is Red
            &&& a[1].tone is Plain && a[3].tone is Plain && a[5].tone is Plain
            &&& a[7].tone is Plain && a[9].tone is Plain
            &&& s.filtered_indices[k] is Job ==> a[10].tone is Plain
            &&& s.filtered_indices[k] is CollapsedGroup && s.selected_tab is Jobs
                ==> a[10].tone is Dim
        }),
{
    lemma_rows_in_range(s);
    lemma_shown_upto(s, s.filtered_indices.len());
}

proof fn lemma_width_is_met(jobs: Seq<JobView>, column: Column, show_qos: bool, n: nat) -> (p: int)
    requires
        0 < n <= jobs.len(),
        forall|q: int| 0 <= q < jobs.len() ==> can_be_held(#[trigger] jobs[q]),
    ensures
        0 <= p < n,
        encode_utf8(cell(jobs[p], column, show_qos)).len() == width_upto(
            jobs,
            column,
            show_qos,
            n,
        ),
    decreases n,
{
    let m = (n - 1) as nat;
    assert(can_be_held(jobs[n - 1]));
    law_id_of_a_job(jobs[n - 1]);
    if m == 0 {
        assert(width_upto(jobs, column, show_qos, 0) == 0);
        m as int
    } else {
        let before = lemma_width_is_met(jobs, column, show_qos, m);
        if encode_utf8(cell(jobs[n - 1], column, show_qos)).len() > width_upto(
            jobs,
            column,
            show_qos,
            m,
        ) {
            m as int
        } else {
            before
        }
    }
}

/// No column is wider than the longest of its texts: among all jobs of the tab one is found whose
/// text has as many bytes as the column has cells.
pub proof fn law_columns_are_as_wide_as_needed(s: AppView, k: int) -> (r: (
    int,
    int,
    int,
    int,
    int,
))
    requires
        jobs_shown(s).len() <= usize::MAX,
        s.filtered_indices == s.recomputed().filtered_indices,
        0 <= k < s.filtered_indices.len(),
        forall|q: int| 0 <= q < jobs_shown(s).len() ==> can_be_held(#[trigger] jobs_shown(s)[q]),
    ensures
        ({
            let jobs = jobs_shown(s);
            let line = s.shown_rows()[k].line;
            let third = jobs[r.2];
            &&& 0 <= r.0 < jobs.len() && 0 <= r.1 < jobs.len() && 0 <= r.2 < jobs.len()
            &&& 0 <= r.3 < jobs.len() && 0 <= r.4 < jobs.len()
            &&& line[0].text.len() == encode_utf8(jobs[r.0].state_compact).len()
            &&& line[2].text.len() == encode_utf8(shown_id(jobs[r.1])).len()
            &&& line[4].text.len() == encode_utf8(
                if s.show_qos {
                    third.qos
                } else {
                    third.partition
                },
            ).len()
            &&& line[6].text.len() == encode_utf8(jobs[r.3].user).len()
            &&& line[8].text.len() == encode_utf8(jobs[r.4].time).len()
        }),
{
    lemma_rows_in_range(s);
    lemma_shown_upto(s, s.filtered_indices.len());
    assert(s.filtered_indices[k].position() < s.active_jobs().len());
    let jobs = s.active_jobs();
    let id = lemma_width_is_met(jobs, Column::Id, s.show_qos, jobs.len());
    law_id_of_a_job(jobs[id]);
    (
        lemma_width_is_met(jobs, Column::State, s.show_qos, jobs.len()),
        id,
        lemma_width_is_met(jobs, Column::Partition, s.show_qos, jobs.len()),
        lemma_width_is_met(jobs, Column::User, s.show_qos, jobs.len()),
        lemma_width_is_met(jobs, Column::Time, s.show_qos, jobs.len()),
    )
}

// ---------------------------------------------------------------------------------------------
// Around the list
// ---------------------------------------------------------------------------------------------
/// Above the list stands which list it is, and how many jobs it has; while something is searched
/// for, the number of rows stands before that.
pub proof fn law_what_stands_above_the_list(s: AppView)
    ensures
        ({
            let jobs = decimal(jobs_shown(s).len());
            let rows = decimal(s.filtered_indices.len());
            let searching = s.search_query.len() > 0;
            &&& s.selected_tab is Jobs && !searching ==> s.title() == "─Jobs ("@ + jobs + ")"@
            &&& s.selected_tab is Jobs && searching ==> s.title() == "─Jobs ("@ + rows + "/"@
                + jobs + ")"@
            &&& s.selected_tab is Sacct && !searching ==> s.title() == "Sacct ("@ + jobs + ")"@
            &&& s.selected_tab is Sacct && searching ==> s.title() == "Sacct ("@ + rows + "/"@
                + jobs + ")"@
            &&& tab_name(SelectedTab::Jobs) == "Jobs"@ && SelectedTab::Jobs.position() == 0
            &&& tab_name(SelectedTab::Sacct) == "Sacct"@ && SelectedTab::Sacct.position() == 1
            &&& s.list_tone() is Green <==> s.dialog is None
            &&& s.list_tone() is Plain <==> s.dialog is Some
        }),
{
    let jobs = decimal(s.active_jobs().len());
    let rows = decimal(s.filtered_indices.len());
    assert("─Jobs ("@ + (rows + "/"@ + jobs) + ")"@ =~= "─Jobs ("@ + rows + "/"@ + jobs + ")"@);
    assert("Sacct ("@ + (rows + "/"@ + jobs) + ")"@ =~= "Sacct ("@ + rows + "/"@ + jobs + ")"@);
}

/// A line of the details: a label, a blank and a text.
pub open spec fn tells(line: Seq<SpanView>, label: Seq<char>, text: Seq<char>) -> bool {
    &&& line.len() >= 3
    &&& line[0].text == label && line[0].tone is Yellow
    &&& line[1].text == " "@ && line[1].tone is Plain
    &&& line[2].text == text && line[2].tone is Plain
}

/// The details tell of the selected job: its state, name, command, nodes, resources and the file
/// that is followed. Without a selected job there are none.
pub proof fn law_what_the_details_tell(s: AppView)
    ensures
        s.selected_job() is None ==> s.details().len() == 0,
        s.selected_job() matches Some(job) ==> {
            let lines = s.details();
            let path = if s.output_file_view is Stdout {
                job.stdout
            } else {
                job.stderr
            };
            &&& lines.len() == 6
            &&& tells(lines[0], "State  "@, job.state)
            &&& tells(lines[1], "Name   "@, job.name) && lines[1].len() == 3
            &&& tells(lines[2], "Command"@, job.command) && lines[2].len() == 3
            &&& tells(lines[3], "Nodes  "@, job.nodelist) && lines[3].len() == 3
            &&& tells(lines[4], "TRES   "@, job.tres) && lines[4].len() == 3
            &&& lines[5].len() == 3
            &&& tells(
                lines[5],
                if s.output_file_view is Stdout {
                    "stdout "@
                } else {
                    "stderr "@
                },
                if path is Some {
                    path->0
                } else {
                    Seq::empty()
                },
            )
        },
{
}

/// Behind the state stands when a pending job is to start, and behind that the reason of the state
/// where one is known; nothing else.
pub proof fn law_what_stands_behind_the_state(s: AppView, job: JobView)
    requires
        s.selected_job() == Some(job),
    ensures
        ({
            let line = s.details()[0];
            let pending = job.state == "PENDING"@;
            let at: int = if pending {
                5
            } else {
                3
            };
            &&& line.len() == at + if job.reason is Some {
                2int
            } else {
                0
            }
            &&& pending ==> line[3].text == " Start "@ && line[3].tone is Yellow && line[4].text
                == job.start_time && line[4].tone is Plain
            &&& job.reason matches Some(reason) ==> line[at].text == " Reason "@
                && line[at].tone is Yellow && line[at + 1].text == reason
                && line[at + 1].tone is Plain
        }),
{
}

/// Above the log stands which file it is and, in brackets, how far it is scrolled from the end that
/// is held on to; at the bottom itself there are no brackets.
pub proof fn law_what_stands_above_the_log(s: AppView)
    ensures
        ({
            let line = s.log_heading();
            let far = decimal(s.job_output_offset as nat);
            let top = s.job_output_anchor is Top;
            &&& line.len() == 3
            &&& line[0].text == "─"@ && line[0].tone is Plain
            &&& line[1].tone is Plain && line[2].tone is Dim
            &&& s.output_file_view is Stdout ==> line[1].text == "stdout"@
            &&& s.output_file_view is Stderr ==> line[1].text == "stderr"@
            &&& top && s.job_output_offset == 0 ==> line[2].text == "[T]"@
            &&& top && s.job_output_offset > 0 ==> line[2].text == "[T+"@ + far + "]"@
            &&& !top && s.job_output_offset == 0 ==> line[2].text.len() == 0
            &&& !top && s.job_output_offset > 0 ==> line[2].text == "[B-"@ + far + "]"@
        }),
{
}

/// The texts of a line.
pub open spec fn texts_of(line: Seq<SpanView>) -> Seq<Seq<char>> {
    Seq::new(line.len(), |i: int| line[i].text)
}

/// At the bottom stands the search while it is typed, with a mark for the cursor, and else the keys
/// with what they do.
pub proof fn law_what_stands_at_the_bottom(s: AppView)
    ensures
        s.input_mode is Search ==> texts_of(s.bottom_line()) == seq![
            "/"@,
            s.search_query,
            "█"@,
        ],
        s.input_mode is Search ==> s.bottom_line()[0].tone is Blue
            && s.bottom_line()[1].tone is Plain && s.bottom_line()[2].tone is Gray,
        s.input_mode is Normal ==> texts_of(s.bottom_line()) == seq![
            "q"@,
            ": "@,
            "quit"@,
            " | "@,
            "⏶/⏷"@,
            ": "@,
            "navigate"@,
            " | "@,
            "esc"@,
            ": "@,
            "cancel"@,
            " | "@,
            "enter"@,
            ": "@,
            "confirm"@,
            " | "@,
            "/"@,
            ": "@,
            "search"@,
            " | "@,
            "?"@,
            ": "@,
            "help"@,
        ],
        s.input_mode is Normal ==> forall|i: int|
            0 <= i < 23 ==> (#[trigger] s.bottom_line()[i]).tone == if i % 4 == 0 {
                Tone::Blue
            } else if i % 4 == 2 {
                Tone::LightBlue
            } else {
                Tone::Plain
            },
{
    assert(hints().len() == 23);
}

// ---------------------------------------------------------------------------------------------
// The dialogs
// ---------------------------------------------------------------------------------------------
/// The lines of a dialog.
pub open spec fn lines_in(dialog: DialogView, viewport: Rect) -> Seq<Seq<SpanView>> {
    drawn(dialog, viewport).body->Lines_0
}

/// A dialog lies in the middle of the screen, and is as large as it should be or as the screen.
pub open spec fn lies_in_the_middle(area: Rect, width: int, height: int, viewport: Rect) -> bool {
    &&& area.width == if width < viewport.width {
        width
    } else {
        viewport.width as int
    }
    &&& area.height == if height < viewport.height {
        height
    } else {
        viewport.height as int
    }
    &&& area.x == viewport.x + (viewport.width - area.width) / 2
    &&& area.y == viewport.y + (viewport.height - area.height) / 2
}

/// Where each dialog lies, and how large it is. What a command told is given as many lines as it
/// has, and two for the border.
pub proof fn law_where_dialogs_lie(dialog: DialogView, viewport: Rect)
    requires
        fits(viewport),
    ensures
        ({
            let area = drawn(dialog, viewport).area;
            match dialog {
                DialogView::ConfirmCancelJob(_) => lies_in_the_middle(area, 80, 3, viewport),
                DialogView::SelectCancelSignal { .. } => lies_in_the_middle(
                    area,
                    80,
                    12,
                    viewport,
                ),
                DialogView::EditTimeLimit { .. } => lies_in_the_middle(area, 80, 3, viewport),
                DialogView::CommandError { command, output } => lies_in_the_middle(
                    area,
                    80,
                    line_count("Command: "@ + command + "\n\n"@ + output) as int + 2,
                    viewport,
                ),
                DialogView::HelpPopup => lies_in_the_middle(area, 54, 10, viewport),
                DialogView::YankPopup => lies_in_the_middle(area, 20, 5, viewport),
                DialogView::YankResult(_) => lies_in_the_middle(area, 80, 3, viewport),
            }
        }),
{
}

/// What stands on the border of each dialog, how it is set off, and what becomes of long lines.
pub proof fn law_frames_of_dialogs(dialog: DialogView, viewport: Rect)
    ensures
        ({
            let d = drawn(dialog, viewport);
            &&& dialog is ConfirmCancelJob ==> d.title == "─Cancel"@ && d.tone is Green
                && d.rounded && d.wrapping is Trimmed
            &&& dialog is SelectCancelSignal ==> d.title == "─Signal"@ && d.tone is Green
                && d.rounded && d.wrapping is Trimmed
            &&& dialog is EditTimeLimit ==> d.title == "─Time Limit"@ && d.tone is Green
                && d.rounded && d.wrapping is Cut
            &&& dialog is CommandError ==> d.title == "─Command Error"@ && d.tone is Red
                && d.rounded && d.wrapping is Kept
            &&& dialog is HelpPopup ==> d.title == "Keybindings"@ && d.tone is Blue && !d.rounded
                && d.wrapping is Cut
            &&& dialog is YankPopup ==> d.title == "Yank"@ && d.tone is Blue && !d.rounded
                && d.wrapping is Cut
            &&& dialog is YankResult ==> d.title == ""@ && d.tone is Green && !d.rounded
                && d.wrapping is Cut
            &&& dialog is EditTimeLimit <==> d.cursor is Some
            &&& dialog is CommandError <==> d.body is Text
        }),
{
}

/// What stands in the dialogs that ask, tell and offer: the id of the job, the command with what it
/// told, what can be copied, and what was copied.
pub proof fn law_what_dialogs_say(
    id: Seq<char>,
    command: Seq<char>,
    output: Seq<char>,
    text: Seq<char>,
    viewport: Rect,
)
    ensures
        ({
            let lines = lines_in(DialogView::ConfirmCancelJob(id), viewport);
            &&& lines.len() == 1
            &&& texts_of(lines[0]) == seq!["Cancel job "@, id, "?"@]
            &&& lines[0][0].tone is Plain && lines[0][1].tone is Bold && lines[0][2].tone is Plain
        }),
        drawn(DialogView::CommandError { command, output }, viewport).body == BodyView::Text(
            "Command: "@ + command + "\n\n"@ + output,
        ),
        ({
            let lines = lines_in(DialogView::YankPopup, viewport);
            &&& lines.len() == 3
            &&& texts_of(lines[0]) == seq!["o"@, "  stdout path"@]
            &&& texts_of(lines[1]) == seq!["s"@, "  stderr path"@]
            &&& texts_of(lines[2]) == seq!["i"@, "  job id"@]
            &&& forall|i: int|
                0 <= i < 3 ==> (#[trigger] lines[i])[0].tone is Blue
                    && lines[i][1].tone is LightBlue
        }),
        ({
            let lines = lines_in(DialogView::YankResult(text), viewport);
            &&& lines.len() == 1
            &&& texts_of(lines[0]) == seq![text]
            &&& lines[0][0].tone is Plain
        }),
{
}

/// The choice of a signal names the job, and below an empty line each signal with its number; the
/// chosen one alone is set off.
pub proof fn law_what_the_choice_says(id: Seq<char>, chosen: usize, viewport: Rect, i: int)
    requires
        0 <= i < 8,
    ensures
        ({
            let lines = lines_in(
                DialogView::SelectCancelSignal { id, selected_signal: chosen },
                viewport,
            );
            &&& lines.len() == 10
            &&& texts_of(lines[0]) == seq!["Send signal to job "@, id, ":"@]
            &&& lines[0][0].tone is Plain && lines[0][1].tone is Bold && lines[0][2].tone is Plain
            &&& lines[1].len() == 0
            &&& texts_of(lines[i + 2]) == seq![decimal((i + 1) as nat) + ". "@, offered()[i]]
            &&& i == chosen ==> lines[i + 2][0].tone is ChosenDim && lines[i + 2][1].tone is Chosen
            &&& i != chosen ==> lines[i + 2][0].tone is Dim && lines[i + 2][1].tone is Plain
        }),
{
    let lines = lines_in(DialogView::SelectCancelSignal { id, selected_signal: chosen }, viewport);
    assert(texts_of(lines[i + 2]) =~= seq![decimal((i + 1) as nat) + ". "@, offered()[i]]);
}

/// A line of the help: a key, what it does, another key, and what that does.
pub open spec fn explains(
    line: Seq<SpanView>,
    k1: Seq<char>,
    d1: Seq<char>,
    k2: Seq<char>,
    d2: Seq<char>,
) -> bool {
    &&& line.len() == 4
    &&& stands_left(k1, line[0].text) && line[0].text.len() == 11 && line[0].tone is Blue
    &&& stands_left(d1, line[1].text) && line[1].text.len() == 16 && line[1].tone is LightBlue
    &&& stands_left(k2, line[2].text) && line[2].text.len() == 5 && line[2].tone is Blue
    &&& line[3].text == d2 && line[3].tone is LightBlue
}

proof fn lemma_help_line(i: int)
    requires
        0 <= i < 8,
    ensures
        ({
            let (k1, d1, k2, d2) = shortcut(i);
            explains(help_line(i), k1, d1, k2, d2)
        }),
{
    law_help_columns_are_as_wide_as_needed(i);
    let (k1, d1, k2, d2) = shortcut(i);
    let line = help_line(i);
    assert(line[0].text.take(k1.len() as int) =~= k1);
    assert(line[1].text.take(d1.len() as int) =~= d1);
    assert(line[2].text.take(k2.len() as int) =~= k2);
}

/// What the help explains.
pub proof fn law_what_the_help_says(viewport: Rect)
    ensures
        ({
            let lines = lines_in(DialogView::HelpPopup, viewport);
            &&& lines.len() == 8
            &&& explains(lines[0], "q"@, "quit"@, "[/]"@, "prev/next tab"@)
            &&& explains(lines[1], "j/k ⏶/⏷"@, "navigate"@, "/"@, "search"@)
            &&& explains(lines[2], "pgup/down"@, "scroll"@, "c/C"@, "cancel/signal"@)
            &&& explains(lines[3], "home/end"@, "top/bottom"@, "t"@, "set time limit"@)
            &&& explains(lines[4], "w"@, "toggle wrap"@, "o"@, "toggle stdout/stderr"@)
            &&& explains(lines[5], "p"@, "partition/qos"@, "a"@, "expand/collapse"@)
            &&& explains(lines[6], "r"@, "reverse order"@, "y"@, "yank path"@)
            &&& explains(lines[7], "?"@, "show/hide help"@, ""@, ""@)
        }),
{
    lemma_help_line(0);
    lemma_help_line(1);
    lemma_help_line(2);
    lemma_help_line(3);
    lemma_help_line(4);
    lemma_help_line(5);
    lemma_help_line(6);
    lemma_help_line(7);
}

/// The dialog for a time limit names the job, and shows of the line what has room behind that, from
/// the character on that is the first to be shown.
pub proof fn law_what_the_line_shows(
    id: Seq<char>,
    text: Seq<char>,
    scroll: usize,
    column: usize,
    viewport: Rect,
    i: int,
)
    requires
        fits(viewport),
        id.len() + 25 <= 65535,
    ensures
        ({
            let lines = limit_drawn(id, text, scroll, column, viewport).body->Lines_0;
            let inner = if viewport.width < 80 {
                viewport.width - 2
            } else {
                78
            };
            let left = inner - (id.len() + 25);
            let room = if left < 1 {
                1
            } else {
                left
            };
            let rest = text.len() - scroll;
            let shown = lines[0][3].text;
            &&& lines.len() == 1 && lines[0].len() == 4
            &&& lines[0][0].text == "Set time limit for job "@ && lines[0][0].tone is Plain
            &&& lines[0][1].text == id && lines[0][1].tone is Bold
            &&& lines[0][2].text == ": "@ && lines[0][2].tone is Plain
            &&& lines[0][3].tone is Blue
            &&& shown.len() == if rest < 0 {
                0
            } else if rest < room {
                rest
            } else {
                room
            }
            &&& 0 <= i < shown.len() ==> shown[i] == text[scroll + i]
        }),
{
    reveal_strlit("Set time limit for job ");
    reveal_strlit(": ");
}

/// The cursor stands behind what is shown before it, in the one line of the dialog, and does not
/// leave it on the right.
pub proof fn law_where_the_cursor_stands(
    id: Seq<char>,
    text: Seq<char>,
    scroll: usize,
    column: usize,
    viewport: Rect,
)
    requires
        fits(viewport),
        viewport.width >= 3,
        viewport.height >= 3,
        id.len() + 25 <= 65535,
        column <= scroll + 65535,
    ensures
        ({
            let d = limit_drawn(id, text, scroll, column, viewport);
            let behind = if column < scroll {
                0
            } else {
                column - scroll
            };
            let wanted = d.area.x + 1 + id.len() + 25 + behind;
            let last = d.area.x + d.area.width - 2;
            &&& d.cursor is Some
            &&& (d.cursor->0).0 == if wanted < last {
                wanted
            } else {
                last
            }
            &&& (d.cursor->0).1 == d.area.y + 1
        }),
{
    reveal_strlit("Set time limit for job ");
    reveal_strlit(": ");
}

/// What is drawn for a time limit is the text of the line, scrolled as far as it has to be for the
/// cells behind the words, with the cursor in its own column.
pub proof fn law_the_line_is_what_is_drawn(id: Seq<char>, input: EditState, viewport: Rect)
    requires
        fits(viewport),
        id.len() + 25 <= 65535,
    ensures
        ({
            let inner = if viewport.width < 80 {
                viewport.width - 2
            } else {
                78
            };
            let left = inner - (id.len() + 25);
            let room = if left < 1 {
                1
            } else {
                left
            };
            drawn(DialogView::EditTimeLimit { id, input }, viewport) == limit_drawn(
                id,
                input.text,
                scrolled_cells(input.text, input.cursor, room as nat) as usize,
                cursor_column(input.text, input.cursor) as usize,
                viewport,
            )
        }),
{
    reveal_strlit("Set time limit for job ");
    reveal_strlit(": ");
}

// ---------------------------------------------------------------------------------------------
// Areas
// ---------------------------------------------------------------------------------------------
/// A rectangle that does not run over is the one asked for, covers the cells in it and no others,
/// and has one cell less on each side inside its border.
pub proof fn law_what_a_rectangle_covers(
    x: u16,
    y: u16,
    width: u16,
    height: u16,
    column: u16,
    row: u16,
)
    requires
        x + width <= 65535,
        y + height <= 65535,
    ensures
        ({
            let r = Rect::at(x, y, width, height);
            &&& r == (Rect { x, y, width, height })
            &&& r.covers(column, row) <==> x <= column < x + width && y <= row < y + height
            &&& width >= 2 && height >= 2 ==> r.inside() == (Rect {
                x: (x + 1) as u16,
                y: (y + 1) as u16,
                width: (width - 2) as u16,
                height: (height - 2) as u16,
            })
        }),
{
}

/// A rectangle that runs over ends where the coordinates end.
pub proof fn law_rectangles_are_cut_off(x: u16, y: u16, width: u16, height: u16)
    ensures
        ({
            let r = Rect::at(x, y, width, height);
            &&& r.x == x && r.y == y
            &&& x + width > 65535 ==> r.x + r.width == 65535
            &&& y + height > 65535 ==> r.y + r.height == 65535
        }),
{
}

/// On a screen that is large enough the help is the last line; on the left the three lines of the
/// tabs stand over the list, on the right the eight lines of the details over the log, and the
/// right has seven tenths of the width, up to half a cell, where the left keeps fifty cells.
pub proof fn law_how_a_large_screen_is_laid_out(s: Screen, area: Rect)
    requires
        fits(area),
        area.width >= 50,
        area.height >= 12,
        s.lies_in(area) && s.fills(area) && s.has_usual_sizes(area),
    ensures
        s.help == (Rect {
            x: area.x,
            y: (area.y + area.height - 1) as u16,
            width: area.width,
            height: 1,
        }),
        s.tabs == (Rect { x: area.x, y: area.y, width: s.tabs.width, height: 3 }),
        s.list == (Rect {
            x: area.x,
            y: (area.y + 3) as u16,
            width: s.tabs.width,
            height: (area.height - 4) as u16,
        }),
        s.details == (Rect {
            x: (area.x + s.tabs.width) as u16,
            y: area.y,
            width: (area.width - s.tabs.width) as u16,
            height: 8,
        }),
        s.log == (Rect {
            x: (area.x + s.tabs.width) as u16,
            y: (area.y + 8) as u16,
            width: (area.width - s.tabs.width) as u16,
            height: (area.height - 9) as u16,
        }),
        s.tabs.width >= 50,
        area.width <= 166 ==> s.tabs.width == 50,
        area.width >= 167 ==> -5 <= 10 * s.log.width - 7 * area.width <= 5,
{
}

} // verus!
