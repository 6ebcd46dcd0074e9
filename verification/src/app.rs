//! The state of the monitor.

use vstd::hash_set::StringHashSet;
use vstd::prelude::*;

use crate::command::{CommandLine, CommandLineView};
use crate::display::{
    group_rows, grouped_rows, law_list_is_exact, list_jobs, listed, plain_rows, single_rows,
    DisplayEntry,
};
use crate::event::{Event, KeyEvent, MouseScrollTarget, MouseWheelDirection};
use crate::geometry::Rect;
use crate::job::{job_views, Job, JobView};
use crate::list_state::ListState;
use crate::text::opt_text;
use crate::text_input::{edit_state, EditState};

verus! {

/// The panel that the keys act on.
#[derive(Clone, Copy, Debug, PartialEq, Eq, Structural)]
pub enum Focus {
    Jobs,
}

/// The end of the output that the scroll offset is counted from.
#[derive(Clone, Copy, Debug, PartialEq, Eq, Structural)]
pub enum ScrollAnchor {
    Top,
    Bottom,
}

/// Which of a job's two output files is shown.
#[derive(Clone, Copy, Debug, PartialEq, Eq, Structural)]
pub enum OutputFileView {
    Stdout,
    Stderr,
}

/// Whether keys are commands or text of the search.
#[derive(Clone, Copy, Debug, PartialEq, Eq, Structural)]
pub enum InputMode {
    Normal,
    Search,
}

/// The lists of jobs, one on each tab.
#[derive(Clone, Copy, Debug, PartialEq, Eq, Structural)]
pub enum SelectedTab {
    Jobs,
    Sacct,
}

impl Default for OutputFileView {
    fn default() -> (r: OutputFileView)
        ensures
            r == OutputFileView::Stdout,
    {
        OutputFileView::Stdout
    }
}

impl Default for InputMode {
    fn default() -> (r: InputMode)
        ensures
            r == InputMode::Normal,
    {
        InputMode::Normal
    }
}

impl Default for SelectedTab {
    fn default() -> (r: SelectedTab)
        ensures
            r == SelectedTab::Jobs,
    {
        SelectedTab::Jobs
    }
}

impl SelectedTab {
    /// The place of the tab, from the left.
    pub open spec fn position(self) -> int {
        match self {
            SelectedTab::Jobs => 0,
            SelectedTab::Sacct => 1,
        }
    }

    /// The place of the tab, from the left.
    pub fn index(self) -> (r: usize)
        ensures
            r == self.position(),
    {
        match self {
            SelectedTab::Jobs => 0,
            SelectedTab::Sacct => 1,
        }
    }

    /// The tab at a place, where there is one.
    pub fn from_repr(index: usize) -> (r: Option<SelectedTab>)
        ensures
            match r {
                Some(tab) => tab.position() == index,
                None => forall|tab: SelectedTab| #[trigger] tab.position() != index,
            },
    {
        if index == 0 {
            Some(SelectedTab::Jobs)
        } else if index == 1 {
            Some(SelectedTab::Sacct)
        } else {
            None
        }
    }

    /// The tab to the left; the first tab has none and is its own.
    pub fn previous(self) -> (r: SelectedTab)
        ensures
            r.position() == if self.position() > 0 {
                self.position() - 1
            } else {
                0
            },
    {
        let current_index: usize = self.index();
        let previous_index: usize = current_index.saturating_sub(1);
        proof {
            assert(SelectedTab::Jobs.position() == 0);
        }
        match Self::from_repr(previous_index) {
            Some(tab) => tab,
            None => self,
        }
    }

    /// The tab to the right; the last tab has none and is its own.
    pub fn next(self) -> (r: SelectedTab)
        ensures
            r.position() == if self.position() < 1 {
                self.position() + 1
            } else {
                1
            },
    {
        let current_index: usize = self.index();
        let next_index: usize = current_index.saturating_add(1);
        proof {
            assert(SelectedTab::Sacct.position() == 1);
        }
        match Self::from_repr(next_index) {
            Some(tab) => tab,
            None => self,
        }
    }
}

/// The position in the list of signals that a digit names.
pub fn signal_index_for_digit(digit: char) -> (r: Option<usize>)
    ensures
        match r {
            Some(i) => '1' <= digit <= '9' && i == digit as u32 - '1' as u32,
            None => !('1' <= digit <= '9'),
        },
{
    if '1' <= digit && digit <= '9' {
        Some((digit as u32 - '1' as u32) as usize)
    } else {
        None
    }
}

/// How many signals there are to choose from.
pub const SIGNAL_COUNT: usize = 8;

/// The name of a signal.
pub open spec fn signal_name(i: int) -> Seq<char> {
    if i == 0 {
        "TERM"@
    } else if i == 1 {
        "INT"@
    } else if i == 2 {
        "HUP"@
    } else if i == 3 {
        "USR1"@
    } else if i == 4 {
        "USR2"@
    } else if i == 5 {
        "STOP"@
    } else if i == 6 {
        "CONT"@
    } else {
        "KILL"@
    }
}

/// The name of a signal.
pub fn scancel_signal(i: usize) -> (r: &'static str)
    requires
        i < SIGNAL_COUNT,
    ensures
        r@ == signal_name(i as int),
{
    if i == 0 {
        "TERM"
    } else if i == 1 {
        "INT"
    } else if i == 2 {
        "HUP"
    } else if i == 3 {
        "USR1"
    } else if i == 4 {
        "USR2"
    } else if i == 5 {
        "STOP"
    } else if i == 6 {
        "CONT"
    } else {
        "KILL"
    }
}

// ---------------------------------------------------------------------------------------------
// Data
// ---------------------------------------------------------------------------------------------
/// A question or a message that lies over the screen.
pub enum Dialog {
    ConfirmCancelJob(String),
    SelectCancelSignal { id: String, selected_signal: usize },
    EditTimeLimit { id: String, input: tui_input::Input },
    CommandError { command: String, output: String },
    HelpPopup,
    YankPopup,
    YankResult(String),
}

/// What a dialog holds.
#[verifier::ext_equal]
pub ghost enum DialogView {
    ConfirmCancelJob(Seq<char>),
    SelectCancelSignal { id: Seq<char>, selected_signal: usize },
    EditTimeLimit { id: Seq<char>, input: EditState },
    CommandError { command: Seq<char>, output: Seq<char> },
    HelpPopup,
    YankPopup,
    YankResult(Seq<char>),
}

impl View for Dialog {
    type V = DialogView;

    open spec fn view(&self) -> DialogView {
        match self {
            Dialog::ConfirmCancelJob(id) => DialogView::ConfirmCancelJob(id@),
            Dialog::SelectCancelSignal { id, selected_signal } => DialogView::SelectCancelSignal {
                id: id@,
                selected_signal: *selected_signal,
            },
            Dialog::EditTimeLimit { id, input } => DialogView::EditTimeLimit {
                id: id@,
                input: edit_state(*input),
            },
            Dialog::CommandError { command, output } => DialogView::CommandError {
                command: command@,
                output: output@,
            },
            Dialog::HelpPopup => DialogView::HelpPopup,
            Dialog::YankPopup => DialogView::YankPopup,
            Dialog::YankResult(text) => DialogView::YankResult(text@),
        }
    }
}

/// What a dialog holds, where there is one.
pub open spec fn dialog_view(dialog: Option<Dialog>) -> Option<DialogView> {
    match dialog {
        Some(d) => Some(d@),
        None => None,
    }
}

/// Why an output file cannot be shown.
pub struct FileWatcherError {
    pub message: String,
}

/// The content of an output file, or why it cannot be shown.
pub open spec fn output_view(output: Result<String, FileWatcherError>) -> Result<
    Seq<char>,
    Seq<char>,
> {
    match output {
        Ok(text) => Ok(text@),
        Err(error) => Err(error.message@),
    }
}

/// Something that happened.
pub enum AppMessage {
    Jobs(Vec<Job>),
    SacctJobs(Vec<Job>),
    JobOutput(Result<String, FileWatcherError>),
    Key(KeyEvent),
    MouseClick(usize),
    MouseWheel { target: MouseScrollTarget, direction: MouseWheelDirection, amount: u16 },
}

/// What a message tells.
pub ghost enum AppMessageView {
    Jobs(Seq<JobView>),
    SacctJobs(Seq<JobView>),
    JobOutput(Result<Seq<char>, Seq<char>>),
    Key(KeyEvent),
    MouseClick(usize),
    MouseWheel { target: MouseScrollTarget, direction: MouseWheelDirection, amount: u16 },
}

impl View for AppMessage {
    type V = AppMessageView;

    open spec fn view(&self) -> AppMessageView {
        match self {
            AppMessage::Jobs(jobs) => AppMessageView::Jobs(job_views(jobs@)),
            AppMessage::SacctJobs(jobs) => AppMessageView::SacctJobs(job_views(jobs@)),
            AppMessage::JobOutput(output) => AppMessageView::JobOutput(output_view(*output)),
            AppMessage::Key(key) => AppMessageView::Key(*key),
            AppMessage::MouseClick(index) => AppMessageView::MouseClick(*index),
            AppMessage::MouseWheel { target, direction, amount } => AppMessageView::MouseWheel {
                target: *target,
                direction: *direction,
                amount: *amount,
            },
        }
    }
}

/// What has to be done outside before the state can go on.
pub enum Action {
    /// Run a command and report to `finish_command`.
    Run(CommandLine),
    /// Copy a text to the clipboard and report to `finish_copy`.
    Copy(String),
}

/// What an action is about.
pub ghost enum ActionView {
    Run(CommandLineView),
    Copy(Seq<char>),
}

impl View for Action {
    type V = ActionView;

    open spec fn view(&self) -> ActionView {
        match self {
            Action::Run(command) => ActionView::Run(command@),
            Action::Copy(text) => ActionView::Copy(text@),
        }
    }
}

/// What an action is about, where there is one.
pub open spec fn action_view(action: Option<Action>) -> Option<ActionView> {
    match action {
        Some(a) => Some(a@),
        None => None,
    }
}

/// The state of the monitor.
pub struct App {
    pub focus: Focus,
    pub dialog: Option<Dialog>,
    pub selected_tab: SelectedTab,
    pub jobs: Vec<Job>,
    pub job_list_state: ListState,
    pub jobs_reversed: bool,
    pub job_output: Result<String, FileWatcherError>,
    pub job_output_anchor: ScrollAnchor,
    pub job_output_offset: u16,
    pub job_output_wrap: bool,
    pub sacct_jobs: Vec<Job>,
    pub sacct_job_list_state: ListState,
    pub sacct_reversed: bool,
    pub output_file_view: OutputFileView,
    pub job_list_height: u16,
    pub job_list_area: Rect,
    pub job_output_area: Rect,
    pub pending_input_event: Option<Event>,
    pub input_mode: InputMode,
    pub search_query: String,
    pub filtered_indices: Vec<DisplayEntry>,
    pub expanded_arrays: StringHashSet,
    pub show_qos: bool,
}

/// What the state of the monitor holds.
#[verifier::ext_equal]
pub ghost struct AppView {
    pub focus: Focus,
    pub dialog: Option<DialogView>,
    pub selected_tab: SelectedTab,
    pub jobs: Seq<JobView>,
    pub job_list_state: ListState,
    pub jobs_reversed: bool,
    pub job_output: Result<Seq<char>, Seq<char>>,
    pub job_output_anchor: ScrollAnchor,
    pub job_output_offset: u16,
    pub job_output_wrap: bool,
    pub sacct_jobs: Seq<JobView>,
    pub sacct_job_list_state: ListState,
    pub sacct_reversed: bool,
    pub output_file_view: OutputFileView,
    pub job_list_height: u16,
    pub job_list_area: Rect,
    pub job_output_area: Rect,
    pub pending_input_event: Option<Event>,
    pub input_mode: InputMode,
    pub search_query: Seq<char>,
    pub filtered_indices: Seq<DisplayEntry>,
    pub expanded_arrays: Set<Seq<char>>,
    pub show_qos: bool,
}

impl View for App {
    type V = AppView;

    open spec fn view(&self) -> AppView {
        AppView {
            focus: self.focus,
            dialog: dialog_view(self.dialog),
            selected_tab: self.selected_tab,
            jobs: job_views(self.jobs@),
            job_list_state: self.job_list_state,
            jobs_reversed: self.jobs_reversed,
            job_output: output_view(self.job_output),
            job_output_anchor: self.job_output_anchor,
            job_output_offset: self.job_output_offset,
            job_output_wrap: self.job_output_wrap,
            sacct_jobs: job_views(self.sacct_jobs@),
            sacct_job_list_state: self.sacct_job_list_state,
            sacct_reversed: self.sacct_reversed,
            output_file_view: self.output_file_view,
            job_list_height: self.job_list_height,
            job_list_area: self.job_list_area,
            job_output_area: self.job_output_area,
            pending_input_event: self.pending_input_event,
            input_mode: self.input_mode,
            search_query: self.search_query@,
            filtered_indices: self.filtered_indices@,
            expanded_arrays: self.expanded_arrays@,
            show_qos: self.show_qos,
        }
    }
}

/// A list position made to fit so many rows: without rows nothing is selected, and a selection
/// beyond the last row goes to the last row.
pub open spec fn fitted(list: ListState, count: nat) -> ListState {
    if count == 0 {
        list.selecting(None)
    } else {
        match list.selected {
            Some(i) => if i >= count {
                list.selecting(Some((count - 1) as usize))
            } else {
                list
            },
            None => list,
        }
    }
}

impl AppView {
    /// The jobs on the tab that is shown.
    pub open spec fn active_jobs(self) -> Seq<JobView> {
        match self.selected_tab {
            SelectedTab::Jobs => self.jobs,
            SelectedTab::Sacct => self.sacct_jobs,
        }
    }

    /// The position in the list that is shown.
    pub open spec fn active_list(self) -> ListState {
        match self.selected_tab {
            SelectedTab::Jobs => self.job_list_state,
            SelectedTab::Sacct => self.sacct_job_list_state,
        }
    }

    /// The state with another position in the list that is shown.
    pub open spec fn with_active_list(self, list: ListState) -> AppView {
        match self.selected_tab {
            SelectedTab::Jobs => AppView { job_list_state: list, ..self },
            SelectedTab::Sacct => AppView { sacct_job_list_state: list, ..self },
        }
    }

    /// The state with another selected row in the list that is shown.
    pub open spec fn selecting(self, index: Option<usize>) -> AppView {
        self.with_active_list(self.active_list().selecting(index))
    }

    /// The rows that the list has to show.
    pub open spec fn rows(self) -> Seq<DisplayEntry> {
        match self.selected_tab {
            SelectedTab::Jobs => grouped_rows(
                self.jobs,
                listed(self.jobs, self.search_query, self.jobs_reversed),
                self.expanded_arrays,
            ),
            SelectedTab::Sacct => plain_rows(
                listed(self.sacct_jobs, self.search_query, self.sacct_reversed),
            ),
        }
    }

    /// The rows are those that the list has to show.
    pub open spec fn rows_are_current(self) -> bool {
        self.filtered_indices == self.rows()
    }

    /// The state with the rows made anew and the selection made to fit them.
    pub open spec fn recomputed(self) -> AppView {
        let s = AppView { filtered_indices: self.rows(), ..self };
        s.with_active_list(fitted(s.active_list(), s.filtered_indices.len()))
    }

    /// The job that the selected row stands for.
    pub open spec fn selected_job(self) -> Option<JobView> {
        match self.active_list().selected {
            Some(i) => if i < self.filtered_indices.len()
                && self.filtered_indices[i as int].position() < self.active_jobs().len() {
                Some(self.active_jobs()[self.filtered_indices[i as int].position() as int])
            } else {
                None
            },
            None => None,
        }
    }

    /// The output file to be shown.
    pub open spec fn output_path(self) -> Option<Seq<char>> {
        match self.selected_job() {
            Some(job) => match self.output_file_view {
                OutputFileView::Stdout => job.stdout,
                OutputFileView::Stderr => job.stderr,
            },
            None => None,
        }
    }

    /// The number in a dialog that asks for a signal is that of a signal.
    pub open spec fn is_valid(self) -> bool {
        self.dialog matches Some(DialogView::SelectCancelSignal { id, selected_signal })
            ==> selected_signal < SIGNAL_COUNT
    }
}

impl App {
    /// The monitor before it knows of any job.
    pub fn new() -> (r: App)
        ensures
            r@ == (AppView {
                focus: Focus::Jobs,
                dialog: None,
                selected_tab: SelectedTab::Jobs,
                jobs: Seq::empty(),
                job_list_state: (ListState { offset: 0, selected: Some(0usize) }),
                jobs_reversed: false,
                job_output: Ok(Seq::empty()),
                job_output_anchor: ScrollAnchor::Bottom,
                job_output_offset: 0,
                job_output_wrap: false,
                sacct_jobs: Seq::empty(),
                sacct_job_list_state: (ListState { offset: 0, selected: Some(0usize) }),
                sacct_reversed: false,
                output_file_view: OutputFileView::Stdout,
                job_list_height: 0,
                job_list_area: (Rect { x: 0, y: 0, width: 0, height: 0 }),
                job_output_area: (Rect { x: 0, y: 0, width: 0, height: 0 }),
                pending_input_event: None,
                input_mode: InputMode::Normal,
                search_query: Seq::empty(),
                filtered_indices: Seq::empty(),
                expanded_arrays: Set::empty(),
                show_qos: false,
            }),
            r@.is_valid(),
            r@.rows_are_current(),
    {
        let r = App {
            focus: Focus::Jobs,
            dialog: None,
            selected_tab: SelectedTab::Jobs,
            jobs: Vec::new(),
            job_list_state: ListState::new(),
            jobs_reversed: false,
            job_output: Ok(String::new()),
            job_output_anchor: ScrollAnchor::Bottom,
            job_output_offset: 0,
            job_output_wrap: false,
            sacct_jobs: Vec::new(),
            sacct_job_list_state: ListState::new(),
            sacct_reversed: false,
            output_file_view: OutputFileView::default(),
            job_list_height: 0,
            job_list_area: Rect { x: 0, y: 0, width: 0, height: 0 },
            job_output_area: Rect { x: 0, y: 0, width: 0, height: 0 },
            pending_input_event: None,
            input_mode: InputMode::default(),
            search_query: String::new(),
            filtered_indices: Vec::new(),
            expanded_arrays: StringHashSet::new(),
            show_qos: false,
        };
        assert(r@.jobs =~= Seq::empty());
        assert(r@.sacct_jobs =~= Seq::empty());
        r
    }

    /// The position in the list that is shown.
    pub fn active_list(&self) -> (r: ListState)
        ensures
            r == self@.active_list(),
    {
        match self.selected_tab {
            SelectedTab::Jobs => self.job_list_state,
            SelectedTab::Sacct => self.sacct_job_list_state,
        }
    }

    /// Sets the position in the list that is shown.
    pub fn set_active_list(&mut self, list: ListState)
        ensures
            final(self)@ == old(self)@.with_active_list(list),
    {
        match self.selected_tab {
            SelectedTab::Jobs => {
                self.job_list_state = list;
            },
            SelectedTab::Sacct => {
                self.sacct_job_list_state = list;
            },
        }
    }

    /// Selects a row of the list that is shown.
    pub(crate) fn select_row(&mut self, index: Option<usize>)
        ensures
            final(self)@ == old(self)@.selecting(index),
    {
        let mut list = self.active_list();
        list.select(index);
        self.set_active_list(list);
    }

    /// Makes the rows of the list that is shown anew.
    pub fn recompute_filtered_indices(&mut self)
        ensures
            final(self)@ == old(self)@.recomputed(),
    {
        let rows = match self.selected_tab {
            SelectedTab::Jobs => {
                let list = list_jobs(&self.jobs, self.search_query.as_str(), self.jobs_reversed);
                proof {
                    assert(self.jobs.len() == job_views(self.jobs@).len());
                    law_list_is_exact(
                        job_views(self.jobs@),
                        self.search_query@,
                        self.jobs_reversed,
                    );
                }
                group_rows(&self.jobs, &list, &self.expanded_arrays)
            },
            SelectedTab::Sacct => {
                let list = list_jobs(
                    &self.sacct_jobs,
                    self.search_query.as_str(),
                    self.sacct_reversed,
                );
                single_rows(&list)
            },
        };
        self.filtered_indices = rows;
        let count: usize = self.filtered_indices.len();
        let list = self.active_list();
        if count == 0 {
            self.select_row(None);
        } else if let Some(sel) = list.selected {
            if sel >= count {
                self.select_row(Some(count - 1));
            }
        }
        assert(self@ =~= old(self)@.recomputed());
    }

    /// The job that the selected row stands for.
    pub fn selected_job(&self) -> (r: Option<&Job>)
        ensures
            match r {
                Some(job) => self@.selected_job() == Some(job@),
                None => self@.selected_job() is None,
            },
    {
        let jobs = match self.selected_tab {
            SelectedTab::Jobs => &self.jobs,
            SelectedTab::Sacct => &self.sacct_jobs,
        };
        match self.active_list().selected {
            Some(i) => {
                if i < self.filtered_indices.len() {
                    let index: usize = self.filtered_indices[i].job_index();
                    if index < jobs.len() {
                        return Some(&jobs[index]);
                    }
                }
                None
            },
            None => None,
        }
    }

    /// The id of the job that the selected row stands for.
    pub fn selected_job_id(&self) -> (r: Option<String>)
        ensures
            opt_text(r) == match self@.selected_job() {
                Some(job) => Some(job.id()),
                None => None,
            },
    {
        match self.selected_job() {
            Some(job) => Some(job.id()),
            None => None,
        }
    }

    /// The output file to be shown.
    pub fn output_path(&self) -> (r: Option<String>)
        ensures
            opt_text(r) == self@.output_path(),
    {
        match self.selected_job() {
            Some(job) => {
                let path = match self.output_file_view {
                    OutputFileView::Stdout => &job.stdout,
                    OutputFileView::Stderr => &job.stderr,
                };
                match path {
                    Some(p) => Some(p.clone()),
                    None => None,
                }
            },
            None => None,
        }
    }
}

} // verus!
