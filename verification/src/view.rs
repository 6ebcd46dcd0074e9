//! What the monitor shows: the texts of the screen and how they are set off.

use vstd::prelude::*;

use crate::app::{App, AppView, InputMode, OutputFileView, ScrollAnchor, SelectedTab};
use crate::display::{law_list_is_exact, law_rows_are_true, listed, DisplayEntry};
use crate::geometry::{inner_area, Rect};
use crate::job::{job_views, Job, JobView};
use crate::text::{
    align_left, align_right, byte_len, decimal, decimal_text, left_aligned, right_aligned, same,
};

verus! {

/// How a piece of text is set off.
#[derive(Clone, Copy, Debug, PartialEq, Eq, Structural)]
pub enum Tone {
    Plain,
    Blue,
    LightBlue,
    Gray,
    Yellow,
    Green,
    Red,
    Bold,
    Dim,
    /// Black on green.
    Chosen,
    /// Black on green, and dim.
    ChosenDim,
    /// The colour that the state of the job has.
    State,
}

/// A piece of text.
pub struct Span {
    pub text: String,
    pub tone: Tone,
}

/// What a piece of text holds.
#[verifier::ext_equal]
pub ghost struct SpanView {
    pub text: Seq<char>,
    pub tone: Tone,
}

/// The pieces of text of a line.
pub struct Line {
    pub spans: Vec<Span>,
}

/// A piece of text.
pub open spec fn piece(text: Seq<char>, tone: Tone) -> SpanView {
    SpanView { text, tone }
}

impl View for Span {
    type V = SpanView;

    open spec fn view(&self) -> SpanView {
        piece(self.text@, self.tone)
    }
}

impl View for Line {
    type V = Seq<SpanView>;

    open spec fn view(&self) -> Seq<SpanView> {
        Seq::new(self.spans@.len(), |i: int| self.spans@[i]@)
    }
}

/// What lines hold.
pub open spec fn line_views(lines: Seq<Line>) -> Seq<Seq<SpanView>> {
    Seq::new(lines.len(), |i: int| lines[i]@)
}

impl Line {
    /// A line without text.
    pub fn new() -> (r: Line)
        ensures
            r@ == Seq::<SpanView>::empty(),
    {
        let r = Line { spans: Vec::new() };
        assert(r@ =~= Seq::<SpanView>::empty());
        r
    }

    /// Puts a piece of text at the end of the line.
    pub fn add(&mut self, text: &str, tone: Tone)
        ensures
            final(self)@ == old(self)@.push(piece(text@, tone)),
    {
        self.spans.push(Span { text: text.to_owned(), tone });
        assert(self@ =~= old(self)@.push(piece(text@, tone)));
    }
}

// ---------------------------------------------------------------------------------------------
// The line at the bottom
// ---------------------------------------------------------------------------------------------
/// A key and what it does, behind what is already on the line.
pub open spec fn with_hint(
    line: Seq<SpanView>,
    key: Seq<char>,
    meaning: Seq<char>,
) -> Seq<SpanView> {
    (if line.len() == 0 {
        line
    } else {
        line.push(piece(" | "@, Tone::Plain))
    }).push(piece(key, Tone::Blue)).push(piece(": "@, Tone::Plain)).push(
        piece(meaning, Tone::LightBlue),
    )
}

/// The keys that are always explained.
pub open spec fn hints() -> Seq<SpanView> {
    let line = with_hint(Seq::empty(), "q"@, "quit"@);
    let line = with_hint(line, "⏶/⏷"@, "navigate"@);
    let line = with_hint(line, "esc"@, "cancel"@);
    let line = with_hint(line, "enter"@, "confirm"@);
    let line = with_hint(line, "/"@, "search"@);
    with_hint(line, "?"@, "help"@)
}

fn add_hint(line: &mut Line, key: &str, meaning: &str)
    ensures
        final(line)@ == with_hint(old(line)@, key@, meaning@),
{
    assert(line.spans.len() == line@.len());
    if !line.spans.is_empty() {
        line.add(" | ", Tone::Plain);
    }
    line.add(key, Tone::Blue);
    line.add(": ", Tone::Plain);
    line.add(meaning, Tone::LightBlue);
}

impl AppView {
    /// The line at the bottom: the search while it is being typed, else the keys that are always
    /// explained.
    pub open spec fn bottom_line(self) -> Seq<SpanView> {
        match self.input_mode {
            InputMode::Search => seq![
                piece("/"@, Tone::Blue),
                piece(self.search_query, Tone::Plain),
                piece("█"@, Tone::Gray),
            ],
            InputMode::Normal => hints(),
        }
    }
}

impl App {
    /// Makes the line at the bottom.
    pub fn help_line(&self) -> (r: Line)
        ensures
            r@ == self@.bottom_line(),
    {
        let mut line = Line::new();
        match self.input_mode {
            InputMode::Search => {
                line.add("/", Tone::Blue);
                line.add(self.search_query.as_str(), Tone::Plain);
                line.add("█", Tone::Gray);
                assert(line@ =~= self@.bottom_line());
            },
            InputMode::Normal => {
                add_hint(&mut line, "q", "quit");
                add_hint(&mut line, "⏶/⏷", "navigate");
                add_hint(&mut line, "esc", "cancel");
                add_hint(&mut line, "enter", "confirm");
                add_hint(&mut line, "/", "search");
                add_hint(&mut line, "?", "help");
            },
        }
        line
    }
}

// ---------------------------------------------------------------------------------------------
// The list
// ---------------------------------------------------------------------------------------------
/// A column of a list whose width depends on what stands in it.
#[derive(Clone, Copy, Debug, PartialEq, Eq, Structural)]
pub enum Column {
    State,
    Id,
    /// The partition of the job, or its quality of service.
    Partition,
    User,
    Time,
}

/// What stands in a column for a job.
pub open spec fn cell(job: JobView, column: Column, show_qos: bool) -> Seq<char> {
    match column {
        Column::State => job.state_compact,
        Column::Id => job.id(),
        Column::Partition => if show_qos {
            job.qos
        } else {
            job.partition
        },
        Column::User => job.user,
        Column::Time => job.time,
    }
}

/// The width of a column for the first `n` jobs: as many characters as the longest of its texts
/// has bytes.
pub open spec fn width_upto(
    jobs: Seq<JobView>,
    column: Column,
    show_qos: bool,
    n: nat,
) -> usize
    decreases n,
{
    if n == 0 {
        0
    } else {
        let before = width_upto(jobs, column, show_qos, (n - 1) as nat);
        let here = byte_len(cell(jobs[n - 1], column, show_qos));
        if here > before {
            here
        } else {
            before
        }
    }
}

/// The width of a column.
pub open spec fn column_width(jobs: Seq<JobView>, column: Column, show_qos: bool) -> usize {
    width_upto(jobs, column, show_qos, jobs.len())
}

/// The widths of the columns of a list.
#[derive(Clone, Copy, Debug, PartialEq, Eq, Structural)]
pub struct Widths {
    pub state: usize,
    pub id: usize,
    pub partition: usize,
    pub user: usize,
    pub time: usize,
}

/// The widths of the columns of a list.
pub open spec fn column_widths(jobs: Seq<JobView>, show_qos: bool) -> Widths {
    Widths {
        state: column_width(jobs, Column::State, show_qos),
        id: column_width(jobs, Column::Id, show_qos),
        partition: column_width(jobs, Column::Partition, show_qos),
        user: column_width(jobs, Column::User, show_qos),
        time: column_width(jobs, Column::Time, show_qos),
    }
}

/// The line of a row: its columns, and the name of the job at the end. The row of a group has the
/// id of the array, and tells how many tasks it stands for.
pub open spec fn row_line(
    job: JobView,
    total: Option<usize>,
    widths: Widths,
    show_qos: bool,
) -> Seq<SpanView> {
    let id = if total is Some {
        job.array_id
    } else {
        job.id()
    };
    seq![
        piece(left_aligned(job.state_compact, widths.state as nat), Tone::State),
        piece(" "@, Tone::Plain),
        piece(left_aligned(id, widths.id as nat), Tone::Yellow),
        piece(" "@, Tone::Plain),
        piece(
            left_aligned(cell(job, Column::Partition, show_qos), widths.partition as nat),
            Tone::Blue,
        ),
        piece(" "@, Tone::Plain),
        piece(left_aligned(job.user, widths.user as nat), Tone::Green),
        piece(" "@, Tone::Plain),
        piece(right_aligned(job.time, widths.time as nat), Tone::Red),
        piece(" "@, Tone::Plain),
        match total {
            Some(n) => piece(
                "▶ "@ + job.name + " ["@ + decimal(n as nat) + "]"@,
                Tone::Dim,
            ),
            None => piece(job.name, Tone::Plain),
        },
    ]
}

/// A row of a list: its line, and the state that decides the colour of the first column.
pub struct JobRow {
    pub state_compact: String,
    pub line: Line,
}

/// What a row of a list holds.
#[verifier::ext_equal]
pub ghost struct JobRowView {
    pub state_compact: Seq<char>,
    pub line: Seq<SpanView>,
}

impl View for JobRow {
    type V = JobRowView;

    open spec fn view(&self) -> JobRowView {
        JobRowView { state_compact: self.state_compact@, line: self.line@ }
    }
}

/// What rows of a list hold.
pub open spec fn row_views(rows: Seq<JobRow>) -> Seq<JobRowView> {
    Seq::new(rows.len(), |i: int| rows[i]@)
}

/// What is told of the job that a row stands for: how many tasks, where the row is that of a
/// group and the list draws groups.
pub open spec fn group_total(row: DisplayEntry, tab: SelectedTab) -> Option<usize> {
    match (row, tab) {
        (DisplayEntry::CollapsedGroup { index, total }, SelectedTab::Jobs) => Some(total),
        _ => None,
    }
}

/// What the first `n` rows show. A row whose job is not there shows nothing.
pub open spec fn shown_upto(s: AppView, n: nat) -> Seq<JobRowView>
    decreases n,
{
    if n == 0 {
        Seq::empty()
    } else {
        let before = shown_upto(s, (n - 1) as nat);
        let row = s.filtered_indices[n - 1];
        if row.position() < s.active_jobs().len() {
            let job = s.active_jobs()[row.position() as int];
            before.push(
                JobRowView {
                    state_compact: job.state_compact,
                    line: row_line(
                        job,
                        group_total(row, s.selected_tab),
                        column_widths(s.active_jobs(), s.show_qos),
                        s.show_qos,
                    ),
                },
            )
        } else {
            before
        }
    }
}

impl AppView {
    /// What the list shows.
    pub open spec fn shown_rows(self) -> Seq<JobRowView> {
        shown_upto(self, self.filtered_indices.len())
    }

    /// What stands above the list: how many jobs there are and, where something is searched for,
    /// how many rows.
    pub open spec fn title(self) -> Seq<char> {
        let count = if self.search_query.len() == 0 {
            decimal(self.active_jobs().len())
        } else {
            decimal(self.filtered_indices.len()) + "/"@ + decimal(self.active_jobs().len())
        };
        match self.selected_tab {
            SelectedTab::Jobs => "─Jobs ("@ + count + ")"@,
            SelectedTab::Sacct => "Sacct ("@ + count + ")"@,
        }
    }
}

/// Gives what stands in a column for a job.
pub fn cell_text(job: &Job, column: Column, show_qos: bool) -> (r: String)
    ensures
        r@ == cell(job@, column, show_qos),
{
    match column {
        Column::State => job.state_compact.clone(),
        Column::Id => job.id(),
        Column::Partition => {
            if show_qos {
                job.qos.clone()
            } else {
                job.partition.clone()
            }
        },
        Column::User => job.user.clone(),
        Column::Time => job.time.clone(),
    }
}

/// Finds the width of a column.
pub fn measure_column(jobs: &Vec<Job>, column: Column, show_qos: bool) -> (r: usize)
    ensures
        r == column_width(job_views(jobs@), column, show_qos),
{
    let ghost views = job_views(jobs@);
    let mut width: usize = 0;
    let mut i: usize = 0;
    while i < jobs.len()
        invariant
            i <= jobs@.len(),
            views == job_views(jobs@),
            width == width_upto(views, column, show_qos, i as nat),
        decreases jobs@.len() - i,
    {
        assert(views[i as int] == jobs@[i as int]@);
        let text = cell_text(&jobs[i], column, show_qos);
        let here: usize = text.as_str().len();
        if here > width {
            width = here;
        }
        i += 1;
    }
    width
}

/// Finds the widths of the columns of a list.
pub fn measure_columns(jobs: &Vec<Job>, show_qos: bool) -> (r: Widths)
    ensures
        r == column_widths(job_views(jobs@), show_qos),
{
    Widths {
        state: measure_column(jobs, Column::State, show_qos),
        id: measure_column(jobs, Column::Id, show_qos),
        partition: measure_column(jobs, Column::Partition, show_qos),
        user: measure_column(jobs, Column::User, show_qos),
        time: measure_column(jobs, Column::Time, show_qos),
    }
}

/// Makes the line of a row.
pub fn make_row_line(job: &Job, total: Option<usize>, widths: Widths, show_qos: bool) -> (r: Line)
    ensures
        r@ == row_line(job@, total, widths, show_qos),
{
    let id = match total {
        Some(_) => job.array_id.clone(),
        None => job.id(),
    };
    let partition = cell_text(job, Column::Partition, show_qos);
    let mut line = Line::new();
    line.add(align_left(job.state_compact.as_str(), widths.state).as_str(), Tone::State);
    line.add(" ", Tone::Plain);
    line.add(align_left(id.as_str(), widths.id).as_str(), Tone::Yellow);
    line.add(" ", Tone::Plain);
    line.add(align_left(partition.as_str(), widths.partition).as_str(), Tone::Blue);
    line.add(" ", Tone::Plain);
    line.add(align_left(job.user.as_str(), widths.user).as_str(), Tone::Green);
    line.add(" ", Tone::Plain);
    line.add(align_right(job.time.as_str(), widths.time).as_str(), Tone::Red);
    line.add(" ", Tone::Plain);
    match total {
        Some(n) => {
            let name = "▶ ".to_owned().concat(job.name.as_str()).concat(" [").concat(
                decimal_text(n as u64).as_str(),
            ).concat("]");
            line.add(name.as_str(), Tone::Dim);
        },
        None => {
            line.add(job.name.as_str(), Tone::Plain);
        },
    }
    assert(line@ =~= row_line(job@, total, widths, show_qos));
    line
}

impl App {
    /// Makes the rows of the list that is shown.
    pub fn list_rows(&self) -> (r: Vec<JobRow>)
        ensures
            row_views(r@) == self@.shown_rows(),
    {
        let jobs = match self.selected_tab {
            SelectedTab::Jobs => &self.jobs,
            SelectedTab::Sacct => &self.sacct_jobs,
        };
        let widths = measure_columns(jobs, self.show_qos);
        let mut rows: Vec<JobRow> = Vec::new();
        let mut i: usize = 0;
        assert(row_views(rows@) =~= shown_upto(self@, 0));
        while i < self.filtered_indices.len()
            invariant
                i <= self.filtered_indices@.len(),
                job_views(jobs@) == self@.active_jobs(),
                widths == column_widths(self@.active_jobs(), self.show_qos),
                row_views(rows@) == shown_upto(self@, i as nat),
            decreases self.filtered_indices@.len() - i,
        {
            let entry = &self.filtered_indices[i];
            let index: usize = entry.job_index();
            if index < jobs.len() {
                let job = &jobs[index];
                assert(job_views(jobs@)[index as int] == job@);
                let total: Option<usize> = match entry {
                    DisplayEntry::CollapsedGroup { total, .. } => match self.selected_tab {
                        SelectedTab::Jobs => Some(*total),
                        SelectedTab::Sacct => None,
                    },
                    DisplayEntry::Job(_) => None,
                };
                let line = make_row_line(job, total, widths, self.show_qos);
                let ghost before = rows@;
                rows.push(JobRow { state_compact: job.state_compact.clone(), line });
                assert(row_views(rows@) =~= row_views(before).push(rows@.last()@));
            }
            i += 1;
        }
        rows
    }

    /// Makes what stands above the list that is shown.
    pub fn list_title(&self) -> (r: String)
        ensures
            r@ == self@.title(),
    {
        let jobs = match self.selected_tab {
            SelectedTab::Jobs => &self.jobs,
            SelectedTab::Sacct => &self.sacct_jobs,
        };
        let mut title = match self.selected_tab {
            SelectedTab::Jobs => "─Jobs (".to_owned(),
            SelectedTab::Sacct => "Sacct (".to_owned(),
        };
        if !self.search_query.as_str().is_empty() {
            title.append(decimal_text(self.filtered_indices.len() as u64).as_str());
            title.append("/");
        }
        title.append(decimal_text(jobs.len() as u64).as_str());
        title.append(")");
        assert(title@ =~= self@.title());
        title
    }
}

// ---------------------------------------------------------------------------------------------
// The tabs, the details and the log
// ---------------------------------------------------------------------------------------------
/// The name of a tab.
pub open spec fn tab_name(tab: SelectedTab) -> Seq<char> {
    match tab {
        SelectedTab::Jobs => "Jobs"@,
        SelectedTab::Sacct => "Sacct"@,
    }
}

impl SelectedTab {
    /// The name of the tab.
    pub fn title(self) -> (r: &'static str)
        ensures
            r@ == tab_name(self),
    {
        match self {
            SelectedTab::Jobs => "Jobs",
            SelectedTab::Sacct => "Sacct",
        }
    }
}

/// The names of the tabs, from the left.
pub fn tab_titles() -> (r: [&'static str; 2])
    ensures
        forall|tab: SelectedTab| r@[#[trigger] tab.position()]@ == tab_name(tab),
{
    [SelectedTab::Jobs.title(), SelectedTab::Sacct.title()]
}

/// A line of the details: what it is about, and the text.
pub open spec fn detail(label: Seq<char>, text: Seq<char>) -> Seq<SpanView> {
    seq![piece(label, Tone::Yellow), piece(" "@, Tone::Plain), piece(text, Tone::Plain)]
}

/// The line of the details that tells the state of a job: when it is to start, while it waits,
/// and the reason of the state, where one is known.
pub open spec fn state_line(job: JobView) -> Seq<SpanView> {
    let line = detail("State  "@, job.state);
    let line = if job.state == "PENDING"@ {
        line.push(piece(" Start "@, Tone::Yellow)).push(piece(job.start_time, Tone::Plain))
    } else {
        line
    };
    match job.reason {
        Some(reason) => line.push(piece(" Reason "@, Tone::Yellow)).push(
            piece(reason, Tone::Plain),
        ),
        None => line,
    }
}

impl AppView {
    /// The details of the selected job; without one there are none.
    pub open spec fn details(self) -> Seq<Seq<SpanView>> {
        match self.selected_job() {
            Some(job) => seq![
                state_line(job),
                detail("Name   "@, job.name),
                detail("Command"@, job.command),
                detail("Nodes  "@, job.nodelist),
                detail("TRES   "@, job.tres),
                detail(
                    match self.output_file_view {
                        OutputFileView::Stdout => "stdout "@,
                        OutputFileView::Stderr => "stderr "@,
                    },
                    match self.output_path() {
                        Some(path) => path,
                        None => Seq::empty(),
                    },
                ),
            ],
            None => Seq::empty(),
        }
    }

    /// What stands above the log: which file it is, and how far it is scrolled from which end.
    pub open spec fn log_heading(self) -> Seq<SpanView> {
        seq![
            piece("─"@, Tone::Plain),
            piece(
                match self.output_file_view {
                    OutputFileView::Stdout => "stdout"@,
                    OutputFileView::Stderr => "stderr"@,
                },
                Tone::Plain,
            ),
            piece(
                match self.job_output_anchor {
                    ScrollAnchor::Top => if self.job_output_offset == 0 {
                        "[T]"@
                    } else {
                        "[T+"@ + decimal(self.job_output_offset as nat) + "]"@
                    },
                    ScrollAnchor::Bottom => if self.job_output_offset == 0 {
                        Seq::empty()
                    } else {
                        "[B-"@ + decimal(self.job_output_offset as nat) + "]"@
                    },
                },
                Tone::Dim,
            ),
        ]
    }

    /// The frame of the list is green while no dialog lies over it.
    pub open spec fn list_tone(self) -> Tone {
        if self.dialog is Some {
            Tone::Plain
        } else {
            Tone::Green
        }
    }
}

fn detail_line(label: &str, text: &str) -> (r: Line)
    ensures
        r@ == detail(label@, text@),
{
    let mut line = Line::new();
    line.add(label, Tone::Yellow);
    line.add(" ", Tone::Plain);
    line.add(text, Tone::Plain);
    assert(line@ =~= detail(label@, text@));
    line
}

/// Makes the line that tells the state of a job.
pub fn make_state_line(job: &Job) -> (r: Line)
    ensures
        r@ == state_line(job@),
{
    let mut line = detail_line("State  ", job.state.as_str());
    if same(job.state.as_str(), "PENDING") {
        line.add(" Start ", Tone::Yellow);
        line.add(job.start_time.as_str(), Tone::Plain);
    }
    if let Some(reason) = &job.reason {
        line.add(" Reason ", Tone::Yellow);
        line.add(reason.as_str(), Tone::Plain);
    }
    line
}

/// What decides which part of the output is shown: the room for it, and how far it is scrolled.
#[derive(Clone, Copy, Debug, PartialEq, Eq, Structural)]
pub struct LogFrame {
    pub lines: usize,
    pub columns: usize,
    pub anchor: ScrollAnchor,
    pub offset: usize,
    pub wrap: bool,
}

impl App {
    /// Makes the details of the selected job.
    pub fn detail_lines(&self) -> (r: Vec<Line>)
        ensures
            line_views(r@) == self@.details(),
    {
        let mut lines: Vec<Line> = Vec::new();
        if let Some(job) = self.selected_job() {
            lines.push(make_state_line(job));
            lines.push(detail_line("Name   ", job.name.as_str()));
            lines.push(detail_line("Command", job.command.as_str()));
            lines.push(detail_line("Nodes  ", job.nodelist.as_str()));
            lines.push(detail_line("TRES   ", job.tres.as_str()));
            let label = match self.output_file_view {
                OutputFileView::Stdout => "stdout ",
                OutputFileView::Stderr => "stderr ",
            };
            let path = match self.output_path() {
                Some(path) => path,
                None => String::new(),
            };
            lines.push(detail_line(label, path.as_str()));
        }
        assert(line_views(lines@) =~= self@.details());
        lines
    }

    /// Makes what stands above the log.
    pub fn log_title(&self) -> (r: Line)
        ensures
            r@ == self@.log_heading(),
    {
        let name = match self.output_file_view {
            OutputFileView::Stdout => "stdout",
            OutputFileView::Stderr => "stderr",
        };
        let offset = decimal_text(self.job_output_offset as u64);
        let position = match self.job_output_anchor {
            ScrollAnchor::Top => {
                if self.job_output_offset == 0 {
                    "[T]".to_owned()
                } else {
                    "[T+".to_owned().concat(offset.as_str()).concat("]")
                }
            },
            ScrollAnchor::Bottom => {
                if self.job_output_offset == 0 {
                    String::new()
                } else {
                    "[B-".to_owned().concat(offset.as_str()).concat("]")
                }
            },
        };
        let mut line = Line::new();
        line.add("─", Tone::Plain);
        line.add(name, Tone::Plain);
        line.add(position.as_str(), Tone::Dim);
        assert(line@ =~= self@.log_heading());
        line
    }

    /// Finds what decides which part of the output is shown in an area with a border.
    pub fn log_frame(&self, area: Rect) -> (r: LogFrame)
        ensures
            r == (LogFrame {
                lines: area.inside().height as usize,
                columns: area.inside().width as usize,
                anchor: self@.job_output_anchor,
                offset: self@.job_output_offset as usize,
                wrap: self@.job_output_wrap,
            }),
    {
        let inner = inner_area(area);
        LogFrame {
            lines: inner.height as usize,
            columns: inner.width as usize,
            anchor: self.job_output_anchor,
            offset: self.job_output_offset as usize,
            wrap: self.job_output_wrap,
        }
    }

    /// Finds how the frame of the list is set off.
    pub fn list_border(&self) -> (r: Tone)
        ensures
            r == self@.list_tone(),
    {
        if self.dialog.is_some() {
            Tone::Plain
        } else {
            Tone::Green
        }
    }
}

// ---------------------------------------------------------------------------------------------
// What holds of the list
// ---------------------------------------------------------------------------------------------
/// Every character takes a byte or more.
pub proof fn lemma_chars_take_bytes(s: Seq<char>)
    ensures
        s.len() <= vstd::utf8::encode_utf8(s).len(),
    decreases s.len(),
{
    reveal_with_fuel(vstd::utf8::encode_utf8, 2);
    if s.len() > 0 {
        lemma_chars_take_bytes(s.drop_first());
    }
}

/// A column is as wide as each of its texts.
pub proof fn lemma_width_upto(jobs: Seq<JobView>, column: Column, show_qos: bool, n: nat, i: int)
    requires
        0 <= i < n,
    ensures
        byte_len(cell(jobs[i], column, show_qos)) <= width_upto(jobs, column, show_qos, n),
    decreases n,
{
    if i < n - 1 {
        lemma_width_upto(jobs, column, show_qos, (n - 1) as nat, i);
    }
}

/// No text is cut off in its column, whether it is set flush left or flush right.
pub proof fn law_cells_are_not_cut(jobs: Seq<JobView>, column: Column, show_qos: bool, i: int)
    requires
        0 <= i < jobs.len(),
        vstd::utf8::encode_utf8(cell(jobs[i], column, show_qos)).len() <= usize::MAX,
    ensures
        ({
            let text = cell(jobs[i], column, show_qos);
            let width = column_width(jobs, column, show_qos) as nat;
            &&& text.len() <= width
            &&& left_aligned(text, width).take(text.len() as int) == text
            &&& right_aligned(text, width).skip(width - text.len()) == text
        }),
{
    let text = cell(jobs[i], column, show_qos);
    let width = column_width(jobs, column, show_qos) as nat;
    lemma_chars_take_bytes(text);
    lemma_width_upto(jobs, column, show_qos, jobs.len(), i);
    assert(left_aligned(text, width).take(text.len() as int) =~= text);
    assert(right_aligned(text, width).skip(width - text.len()) =~= text);
}

/// What each row shows, where its job is there.
pub proof fn lemma_shown_upto(s: AppView, n: nat)
    requires
        n <= s.filtered_indices.len(),
        forall|k: int|
            0 <= k < s.filtered_indices.len() ==> (#[trigger] s.filtered_indices[k]).position()
                < s.active_jobs().len(),
    ensures
        shown_upto(s, n).len() == n,
        forall|k: int|
            0 <= k < n ==> (#[trigger] shown_upto(s, n)[k]).line == row_line(
                s.active_jobs()[s.filtered_indices[k].position() as int],
                group_total(s.filtered_indices[k], s.selected_tab),
                column_widths(s.active_jobs(), s.show_qos),
                s.show_qos,
            ) && shown_upto(s, n)[k].state_compact
                == s.active_jobs()[s.filtered_indices[k].position() as int].state_compact,
    decreases n,
{
    if n > 0 {
        lemma_shown_upto(s, (n - 1) as nat);
        assert(s.filtered_indices[n - 1].position() < s.active_jobs().len());
    }
}

/// Every row of the list is drawn, and the row at the selected place is that of the selected job.
pub proof fn law_selected_job_is_drawn_at_its_row(s: AppView)
    requires
        s.active_jobs().len() <= usize::MAX,
        s.rows_are_current(),
    ensures
        s.shown_rows().len() == s.filtered_indices.len(),
        s.active_list().selected matches Some(i) ==> i < s.filtered_indices.len() ==> {
            &&& s.selected_job() is Some
            &&& s.shown_rows()[i as int].line == row_line(
                s.selected_job()->0,
                group_total(s.filtered_indices[i as int], s.selected_tab),
                column_widths(s.active_jobs(), s.show_qos),
                s.show_qos,
            )
        },
{
    lemma_rows_in_range(s);
    lemma_shown_upto(s, s.filtered_indices.len());
}

/// Every row is of a job that is there.
pub proof fn lemma_rows_in_range(s: AppView)
    requires
        s.active_jobs().len() <= usize::MAX,
        s.rows_are_current(),
    ensures
        forall|k: int|
            0 <= k < s.filtered_indices.len() ==> (#[trigger] s.filtered_indices[k]).position()
                < s.active_jobs().len(),
{
    let reversed = match s.selected_tab {
        SelectedTab::Jobs => s.jobs_reversed,
        SelectedTab::Sacct => s.sacct_reversed,
    };
    let list = listed(s.active_jobs(), s.search_query, reversed);
    law_list_is_exact(s.active_jobs(), s.search_query, reversed);
    assert forall|k: int| 0 <= k < s.filtered_indices.len() implies (
    #[trigger] s.filtered_indices[k]).position() < s.active_jobs().len() by {
        match s.selected_tab {
            SelectedTab::Jobs => {
                law_rows_are_true(s.jobs, list, s.expanded_arrays, k);
                assert(list.contains(s.filtered_indices[k].position()));
            },
            SelectedTab::Sacct => {
                assert(list[k] < s.sacct_jobs.len());
            },
        }
    }
}

} // verus!
