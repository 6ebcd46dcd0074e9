use turm::app::{App, AppMessage, Dialog, InputMode, OutputFileView, ScrollAnchor, SelectedTab};
use turm::display::DisplayEntry;
use turm::geometry::Rect;
use turm::job::Job;
use turm::view::{measure_column, tab_titles, Column, Line, LogFrame, Tone};

fn shown_job(id: &str, name: &str, user: &str, time: &str) -> Job {
    Job {
        job_id: id.to_string(),
        array_id: id.to_string(),
        array_step: None,
        name: name.to_string(),
        state: "RUNNING".to_string(),
        state_compact: "R".to_string(),
        reason: None,
        user: user.to_string(),
        time: time.to_string(),
        time_limit: String::new(),
        start_time: "tomorrow".to_string(),
        tres: "cpu=1".to_string(),
        partition: "gpu".to_string(),
        qos: "normal".to_string(),
        nodelist: "n1".to_string(),
        stdout: Some("/o".to_string()),
        stderr: None,
        command: "run.sh".to_string(),
    }
}

fn pieces(line: &Line) -> Vec<(&str, Tone)> {
    line.spans.iter().map(|s| (s.text.as_str(), s.tone)).collect()
}

fn shown_app(jobs: Vec<Job>) -> App {
    let mut app = App::new();
    app.handle(AppMessage::Jobs(jobs));
    app
}

#[test]
fn the_bottom_line_explains_keys() {
    let line = App::new().help_line();
    let text: String = line.spans.iter().map(|s| s.text.as_str()).collect();
    assert_eq!(
        text,
        "q: quit | ⏶/⏷: navigate | esc: cancel | enter: confirm | /: search | ?: help"
    );
    assert_eq!(
        pieces(&line)[0..4],
        [
            ("q", Tone::Blue),
            (": ", Tone::Plain),
            ("quit", Tone::LightBlue),
            (" | ", Tone::Plain),
        ]
    );
}

#[test]
fn the_bottom_line_shows_the_search() {
    let mut app = App::new();
    app.input_mode = InputMode::Search;
    app.search_query = "abc".to_string();
    assert_eq!(
        pieces(&app.help_line()),
        [("/", Tone::Blue), ("abc", Tone::Plain), ("█", Tone::Gray)]
    );
}

#[test]
fn rows_have_columns() {
    let app = shown_app(vec![
        shown_job("1", "first", "ada", "9:00"),
        shown_job("100", "second", "bo", "10:00"),
    ]);
    let rows = app.list_rows();
    assert_eq!(rows.len(), 2);
    assert_eq!(rows[0].state_compact, "R");
    assert_eq!(
        pieces(&rows[0].line),
        [
            ("R", Tone::State),
            (" ", Tone::Plain),
            ("1  ", Tone::Yellow),
            (" ", Tone::Plain),
            ("gpu", Tone::Blue),
            (" ", Tone::Plain),
            ("ada", Tone::Green),
            (" ", Tone::Plain),
            (" 9:00", Tone::Red),
            (" ", Tone::Plain),
            ("first", Tone::Plain),
        ]
    );
    assert_eq!(pieces(&rows[1].line)[6], ("bo ", Tone::Green));
}

#[test]
fn a_column_shows_the_quality_of_service() {
    let mut app = shown_app(vec![shown_job("1", "n", "u", "t")]);
    app.show_qos = true;
    assert_eq!(pieces(&app.list_rows()[0].line)[4], ("normal", Tone::Blue));
}

#[test]
fn widths_are_counted_in_bytes() {
    let jobs = vec![shown_job("1", "n", "é", "t"), shown_job("2", "n", "a", "t")];
    assert_eq!(measure_column(&jobs, Column::User, false), 2);
    assert_eq!(measure_column(&Vec::new(), Column::User, false), 0);
    let app = shown_app(jobs);
    assert_eq!(pieces(&app.list_rows()[0].line)[6], ("é ", Tone::Green));
}

#[test]
fn the_row_of_a_group_tells_how_many_it_stands_for() {
    let mut jobs = Vec::new();
    for step in ["0", "1", "2"] {
        let mut job = shown_job("77", "array", "u", "t");
        job.array_step = Some(step.to_string());
        job.state = "PENDING".to_string();
        jobs.push(job);
    }
    let app = shown_app(jobs);
    assert_eq!(app.filtered_indices, [DisplayEntry::CollapsedGroup { index: 0, total: 3 }]);
    let rows = app.list_rows();
    assert_eq!(pieces(&rows[0].line)[2], ("77  ", Tone::Yellow));
    assert_eq!(pieces(&rows[0].line)[10], ("▶ array [3]", Tone::Dim));
}

#[test]
fn rows_without_a_job_are_not_shown() {
    let mut app = shown_app(vec![shown_job("1", "n", "u", "t")]);
    app.filtered_indices.push(DisplayEntry::Job(5));
    assert_eq!(app.list_rows().len(), 1);
}

#[test]
fn the_other_list_has_single_rows() {
    let mut app = shown_app(Vec::new());
    app.selected_tab = SelectedTab::Sacct;
    app.handle(AppMessage::SacctJobs(vec![shown_job("8", "old", "u", "t")]));
    app.filtered_indices = vec![DisplayEntry::CollapsedGroup { index: 0, total: 9 }];
    assert_eq!(pieces(&app.list_rows()[0].line)[10], ("old", Tone::Plain));
}

#[test]
fn the_selected_row_is_that_of_the_selected_job() {
    let mut app = shown_app(vec![
        shown_job("1", "first", "u", "t"),
        shown_job("2", "second", "u", "t"),
    ]);
    app.job_list_state.select(Some(1));
    let rows = app.list_rows();
    assert_eq!(pieces(&rows[1].line)[10].0, app.selected_job().unwrap().name);
    assert_eq!(rows.len(), app.filtered_indices.len());
}

#[test]
fn titles_count_jobs_and_rows() {
    let mut app = shown_app(vec![
        shown_job("1", "first", "u", "t"),
        shown_job("2", "second", "u", "t"),
    ]);
    assert_eq!(app.list_title(), "─Jobs (2)");
    app.search_query = "sec".to_string();
    app.recompute_filtered_indices();
    assert_eq!(app.list_title(), "─Jobs (1/2)");
    app.selected_tab = SelectedTab::Sacct;
    app.recompute_filtered_indices();
    assert_eq!(app.list_title(), "Sacct (0/0)");
    app.search_query = String::new();
    assert_eq!(app.list_title(), "Sacct (0)");
    assert_eq!(tab_titles(), ["Jobs", "Sacct"]);
}

#[test]
fn details_are_those_of_the_selected_job() {
    let mut app = shown_app(vec![shown_job("1", "first", "u", "t")]);
    let lines = app.detail_lines();
    assert_eq!(lines.len(), 6);
    assert_eq!(
        pieces(&lines[0]),
        [("State  ", Tone::Yellow), (" ", Tone::Plain), ("RUNNING", Tone::Plain)]
    );
    assert_eq!(pieces(&lines[1])[2].0, "first");
    assert_eq!(pieces(&lines[2])[2].0, "run.sh");
    assert_eq!(pieces(&lines[3])[2].0, "n1");
    assert_eq!(pieces(&lines[4])[2].0, "cpu=1");
    assert_eq!(
        pieces(&lines[5]),
        [("stdout ", Tone::Yellow), (" ", Tone::Plain), ("/o", Tone::Plain)]
    );
    app.output_file_view = OutputFileView::Stderr;
    assert_eq!(
        pieces(&app.detail_lines()[5]),
        [("stderr ", Tone::Yellow), (" ", Tone::Plain), ("", Tone::Plain)]
    );
    app.job_list_state.select(None);
    assert_eq!(app.detail_lines().len(), 0);
}

#[test]
fn a_waiting_job_tells_when_it_is_to_start() {
    let mut job = shown_job("1", "first", "u", "t");
    job.state = "PENDING".to_string();
    job.reason = Some("Priority".to_string());
    let app = shown_app(vec![job]);
    assert_eq!(
        pieces(&app.detail_lines()[0])[2..],
        [
            ("PENDING", Tone::Plain),
            (" Start ", Tone::Yellow),
            ("tomorrow", Tone::Plain),
            (" Reason ", Tone::Yellow),
            ("Priority", Tone::Plain),
        ]
    );
}

#[test]
fn the_log_tells_where_it_is() {
    let mut app = App::new();
    assert_eq!(
        pieces(&app.log_title()),
        [("─", Tone::Plain), ("stdout", Tone::Plain), ("", Tone::Dim)]
    );
    app.job_output_offset = 120;
    assert_eq!(pieces(&app.log_title())[2].0, "[B-120]");
    app.job_output_anchor = ScrollAnchor::Top;
    assert_eq!(pieces(&app.log_title())[2].0, "[T+120]");
    app.job_output_offset = 0;
    app.output_file_view = OutputFileView::Stderr;
    assert_eq!(
        pieces(&app.log_title()),
        [("─", Tone::Plain), ("stderr", Tone::Plain), ("[T]", Tone::Dim)]
    );
}

#[test]
fn the_log_has_the_room_inside_its_border() {
    let mut app = App::new();
    app.job_output_offset = 9;
    app.job_output_wrap = true;
    assert_eq!(
        app.log_frame(Rect { x: 4, y: 5, width: 30, height: 12 }),
        LogFrame { lines: 10, columns: 28, anchor: ScrollAnchor::Bottom, offset: 9, wrap: true }
    );
    let tiny = app.log_frame(Rect { x: 4, y: 5, width: 1, height: 0 });
    assert_eq!((tiny.lines, tiny.columns), (0, 0));
}

#[test]
fn the_list_is_set_off_while_no_dialog_is_open() {
    let mut app = App::new();
    assert_eq!(app.list_border(), Tone::Green);
    app.dialog = Some(Dialog::HelpPopup);
    assert_eq!(app.list_border(), Tone::Plain);
}
