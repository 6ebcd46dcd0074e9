use turm::app::{
    scancel_signal, signal_index_for_digit, Action, App, AppMessage, Dialog, FileWatcherError,
    InputMode, OutputFileView, ScrollAnchor, SelectedTab, SIGNAL_COUNT,
};
use turm::command::CommandFailure;
use turm::event::{
    KeyCode, KeyEvent, KeyEventKind, KeyModifiers, MouseScrollTarget, MouseWheelDirection, ALT,
    CONTROL, SHIFT,
};
use turm::job::Job;
use turm::text_input::limit_in_text;

fn plain_job(id: &str, name: &str) -> Job {
    Job {
        job_id: id.to_string(),
        array_id: id.to_string(),
        array_step: None,
        name: name.to_string(),
        state: "RUNNING".to_string(),
        state_compact: "R".to_string(),
        reason: None,
        user: "ada".to_string(),
        time: "0:00".to_string(),
        time_limit: "1:00".to_string(),
        start_time: String::new(),
        tres: String::new(),
        partition: "p".to_string(),
        qos: "q".to_string(),
        nodelist: String::new(),
        stdout: Some(format!("/out/{}", id)),
        stderr: None,
        command: String::new(),
    }
}

fn app_with(ids: &[&str]) -> App {
    let mut app = App::new();
    let jobs = ids.iter().map(|id| plain_job(id, &format!("job{}", id))).collect();
    assert!(app.handle(AppMessage::Jobs(jobs)).is_none());
    app
}

fn press_with(app: &mut App, code: KeyCode, bits: u8) -> Option<Action> {
    app.handle(AppMessage::Key(KeyEvent {
        code,
        modifiers: KeyModifiers { bits },
        kind: KeyEventKind::Press,
    }))
}

fn press(app: &mut App, code: KeyCode) -> Option<Action> {
    press_with(app, code, 0)
}

fn letters(app: &mut App, text: &str) {
    for c in text.chars() {
        assert!(press(app, KeyCode::Char(c)).is_none());
    }
}

fn run_label(action: Option<Action>) -> String {
    match action {
        Some(Action::Run(command)) => command.label,
        _ => panic!("no command"),
    }
}

fn copied(action: Option<Action>) -> String {
    match action {
        Some(Action::Copy(text)) => text,
        _ => panic!("nothing to copy"),
    }
}

#[test]
fn a_new_monitor_knows_of_nothing() {
    let app = App::new();
    assert!(app.selected_job().is_none());
    assert_eq!(app.selected_job_id(), None);
    assert_eq!(app.output_path(), None);
    assert_eq!(app.job_list_state.selected, Some(0));
    assert_eq!(app.sacct_job_list_state.selected, Some(0));
    assert_eq!(app.job_output_anchor, ScrollAnchor::Bottom);
    assert!(app.dialog.is_none());
    assert!(matches!(&app.job_output, Ok(text) if text.is_empty()));
}

#[test]
fn rows_are_walked_and_end_at_both_sides() {
    let mut app = app_with(&["1", "2", "3"]);
    assert_eq!(app.selected_job_id(), Some("1".to_string()));
    letters(&mut app, "jjj");
    assert_eq!(app.job_list_state.selected, Some(2));
    letters(&mut app, "k");
    assert_eq!(app.job_list_state.selected, Some(1));
    letters(&mut app, "kkk");
    assert_eq!(app.job_list_state.selected, Some(0));
    letters(&mut app, "G");
    assert_eq!(app.job_list_state.selected, Some(2));
    letters(&mut app, "g");
    assert_eq!(app.job_list_state.selected, Some(0));
    press(&mut app, KeyCode::Down);
    press(&mut app, KeyCode::Down);
    press(&mut app, KeyCode::Up);
    assert_eq!(app.job_list_state.selected, Some(1));
    letters(&mut app, "hl");
    press(&mut app, KeyCode::Left);
    press(&mut app, KeyCode::Right);
    assert_eq!(app.job_list_state.selected, Some(1));
}

#[test]
fn walking_starts_at_the_first_row() {
    let mut app = app_with(&["1", "2", "3"]);
    app.job_list_state.select(None);
    letters(&mut app, "j");
    assert_eq!(app.job_list_state.selected, Some(0));
    app.job_list_state.select(None);
    letters(&mut app, "k");
    assert_eq!(app.job_list_state.selected, Some(0));
}

#[test]
fn walking_an_empty_list_changes_nothing() {
    let mut app = app_with(&[]);
    assert_eq!(app.job_list_state.selected, None);
    letters(&mut app, "jkG");
    assert_eq!(app.job_list_state.selected, None);
    letters(&mut app, "g");
    assert_eq!(app.job_list_state.selected, Some(0));
    assert!(app.selected_job().is_none());
}

#[test]
fn half_pages_need_the_control_key() {
    let mut app = app_with(&["1", "2", "3", "4", "5", "6"]);
    app.job_list_height = 5;
    press_with(&mut app, KeyCode::Char('d'), CONTROL);
    assert_eq!(app.job_list_state.selected, Some(2));
    letters(&mut app, "d");
    assert_eq!(app.job_list_state.selected, Some(2));
    press_with(&mut app, KeyCode::Char('d'), CONTROL | SHIFT);
    assert_eq!(app.job_list_state.selected, Some(4));
    press_with(&mut app, KeyCode::Char('u'), CONTROL);
    assert_eq!(app.job_list_state.selected, Some(2));
    letters(&mut app, "u");
    assert_eq!(app.job_list_state.selected, Some(2));
}

#[test]
fn page_keys_scroll_the_output() {
    let mut app = app_with(&["1"]);
    press(&mut app, KeyCode::PageUp);
    assert_eq!((app.job_output_anchor, app.job_output_offset), (ScrollAnchor::Bottom, 1));
    for bits in [SHIFT, CONTROL, ALT] {
        press_with(&mut app, KeyCode::PageUp, bits);
    }
    assert_eq!(app.job_output_offset, 151);
    press_with(&mut app, KeyCode::PageDown, ALT);
    press(&mut app, KeyCode::PageDown);
    assert_eq!(app.job_output_offset, 100);
    press(&mut app, KeyCode::Home);
    assert_eq!((app.job_output_anchor, app.job_output_offset), (ScrollAnchor::Top, 0));
    press(&mut app, KeyCode::PageUp);
    assert_eq!(app.job_output_offset, 0);
    press_with(&mut app, KeyCode::PageDown, SHIFT);
    assert_eq!(app.job_output_offset, 50);
    press(&mut app, KeyCode::End);
    assert_eq!((app.job_output_anchor, app.job_output_offset), (ScrollAnchor::Bottom, 0));
}

#[test]
fn output_scrolling_stops_at_the_largest_number() {
    let mut app = App::new();
    app.scroll_job_output_up_by(65000);
    app.scroll_job_output_up_by(65000);
    assert_eq!(app.job_output_offset, 65535);
    app.scroll_job_output_down_by(65535);
    assert_eq!(app.job_output_offset, 0);
}

#[test]
fn output_scrolling_is_undone() {
    let mut app = App::new();
    app.job_output_offset = 7;
    app.scroll_job_output_up_by(5);
    app.scroll_job_output_down_by(5);
    assert_eq!(app.job_output_offset, 7);
}

#[test]
fn switches_undo_themselves() {
    let mut app = app_with(&["1"]);
    letters(&mut app, "owp");
    assert_eq!(app.output_file_view, OutputFileView::Stderr);
    assert!(app.job_output_wrap);
    assert!(app.show_qos);
    assert_eq!(app.output_path(), None);
    letters(&mut app, "owp");
    assert_eq!(app.output_file_view, OutputFileView::Stdout);
    assert!(!app.job_output_wrap);
    assert!(!app.show_qos);
    assert_eq!(app.output_path(), Some("/out/1".to_string()));
}

#[test]
fn tabs_end_at_both_sides_and_clear_the_search() {
    let mut app = app_with(&["1", "2"]);
    app.handle(AppMessage::SacctJobs(vec![plain_job("9", "old")]));
    app.search_query = "x".to_string();
    letters(&mut app, "]");
    assert_eq!(app.selected_tab, SelectedTab::Sacct);
    assert_eq!(app.search_query, "");
    assert_eq!(app.selected_job_id(), Some("9".to_string()));
    letters(&mut app, "]");
    assert_eq!(app.selected_tab, SelectedTab::Sacct);
    letters(&mut app, "[");
    assert_eq!(app.selected_tab, SelectedTab::Jobs);
    letters(&mut app, "[");
    assert_eq!(app.selected_tab, SelectedTab::Jobs);
    assert_eq!(app.filtered_indices.len(), 2);
}

#[test]
fn the_first_of_each_choice_is_the_usual_one() {
    assert_eq!(SelectedTab::default(), SelectedTab::Jobs);
    assert_eq!(OutputFileView::default(), OutputFileView::Stdout);
    assert_eq!(InputMode::default(), InputMode::Normal);
}

#[test]
fn tabs_have_neighbours() {
    assert_eq!(SelectedTab::Jobs.next(), SelectedTab::Sacct);
    assert_eq!(SelectedTab::Sacct.next(), SelectedTab::Sacct);
    assert_eq!(SelectedTab::Sacct.previous(), SelectedTab::Jobs);
    assert_eq!(SelectedTab::Jobs.previous(), SelectedTab::Jobs);
    assert_eq!(SelectedTab::from_repr(1), Some(SelectedTab::Sacct));
    assert_eq!(SelectedTab::from_repr(2), None);
    assert_eq!(SelectedTab::Sacct.index(), 1);
}

#[test]
fn the_order_of_each_tab_is_turned_by_itself() {
    let mut app = app_with(&["1", "2"]);
    app.handle(AppMessage::SacctJobs(vec![plain_job("8", "a"), plain_job("9", "b")]));
    letters(&mut app, "]r");
    assert!(app.sacct_reversed);
    assert!(!app.jobs_reversed);
    assert_eq!(app.selected_job_id(), Some("9".to_string()));
    letters(&mut app, "a");
    assert_eq!(app.selected_job_id(), Some("9".to_string()));
}

#[test]
fn the_search_narrows_the_list() {
    let mut app = app_with(&["1", "12", "2"]);
    letters(&mut app, "j/");
    assert_eq!(app.input_mode, InputMode::Search);
    assert_eq!(app.job_list_state.selected, Some(1));
    letters(&mut app, "B2");
    assert_eq!(app.search_query, "B2");
    assert_eq!(app.selected_job_id(), Some("2".to_string()));
    letters(&mut app, "z");
    assert_eq!(app.job_list_state.selected, None);
    press(&mut app, KeyCode::Backspace);
    press(&mut app, KeyCode::Backspace);
    assert_eq!(app.search_query, "B");
    assert_eq!(app.filtered_indices.len(), 3);
    assert_eq!(app.job_list_state.selected, Some(0));
    press(&mut app, KeyCode::Down);
    press(&mut app, KeyCode::Down);
    press(&mut app, KeyCode::Up);
    assert_eq!(app.job_list_state.selected, Some(1));
    press(&mut app, KeyCode::Enter);
    assert_eq!(app.input_mode, InputMode::Normal);
    assert_eq!(app.search_query, "B");
}

#[test]
fn taking_back_of_nothing_is_nothing() {
    let mut app = app_with(&["1"]);
    letters(&mut app, "/");
    press(&mut app, KeyCode::Backspace);
    assert_eq!(app.search_query, "");
    assert_eq!(app.job_list_state.selected, Some(0));
}

#[test]
fn leaving_the_search_lists_all() {
    let mut app = app_with(&["1", "2", "3"]);
    letters(&mut app, "/3");
    assert_eq!(app.filtered_indices.len(), 1);
    press(&mut app, KeyCode::Esc);
    assert_eq!(app.input_mode, InputMode::Normal);
    assert_eq!(app.search_query, "");
    assert_eq!(app.filtered_indices.len(), 3);
}

#[test]
fn a_letter_taken_back_brings_back_the_rows() {
    let mut app = app_with(&["1", "12", "2"]);
    letters(&mut app, "/1");
    let before = app.filtered_indices.clone();
    letters(&mut app, "2");
    assert_ne!(app.filtered_indices, before);
    press(&mut app, KeyCode::Backspace);
    assert_eq!(app.filtered_indices, before);
    assert_eq!(app.search_query, "1");
}

#[test]
fn a_job_is_cancelled_once_confirmed() {
    for confirm in [KeyCode::Enter, KeyCode::Char('y')] {
        let mut app = app_with(&["1", "2"]);
        letters(&mut app, "jc");
        assert!(matches!(&app.dialog, Some(Dialog::ConfirmCancelJob(id)) if id == "2"));
        letters(&mut app, "nx");
        assert!(app.dialog.is_some());
        assert_eq!(run_label(press(&mut app, confirm)), "scancel 2");
        app.finish_command(Ok(()));
        assert!(app.dialog.is_none());
    }
}

#[test]
fn nothing_is_asked_without_a_job() {
    let mut app = app_with(&[]);
    letters(&mut app, "cCty");
    assert!(app.dialog.is_none());
}

#[test]
fn a_command_that_fails_is_told_of() {
    let mut app = app_with(&["1"]);
    letters(&mut app, "c");
    press(&mut app, KeyCode::Enter);
    app.finish_command(Err(CommandFailure {
        command: "scancel 1".to_string(),
        output: "Exit code: 1".to_string(),
    }));
    assert!(matches!(
        &app.dialog,
        Some(Dialog::CommandError { command, output })
            if command == "scancel 1" && output == "Exit code: 1"
    ));
    letters(&mut app, "y");
    assert!(app.dialog.is_some());
    assert!(press(&mut app, KeyCode::Enter).is_none());
    assert!(app.dialog.is_none());
}

#[test]
fn a_signal_is_chosen() {
    let mut app = app_with(&["1"]);
    letters(&mut app, "C");
    letters(&mut app, "jj");
    press(&mut app, KeyCode::Down);
    letters(&mut app, "k");
    assert_eq!(run_label(press(&mut app, KeyCode::Enter)), "scancel --signal HUP 1");
    letters(&mut app, "8");
    assert_eq!(run_label(press(&mut app, KeyCode::Enter)), "scancel --signal KILL 1");
    letters(&mut app, "j9");
    press(&mut app, KeyCode::Down);
    assert_eq!(run_label(press(&mut app, KeyCode::Enter)), "scancel --signal KILL 1");
    letters(&mut app, "1k0");
    press(&mut app, KeyCode::Up);
    assert_eq!(run_label(press(&mut app, KeyCode::Enter)), "scancel --signal TERM 1");
    press(&mut app, KeyCode::Esc);
    assert!(app.dialog.is_none());
}

#[test]
fn every_digit_names_its_signal() {
    let names = ["TERM", "INT", "HUP", "USR1", "USR2", "STOP", "CONT", "KILL"];
    assert_eq!(names.len(), SIGNAL_COUNT);
    for (i, name) in names.iter().enumerate() {
        assert_eq!(scancel_signal(i), *name);
        let digit = char::from_digit(i as u32 + 1, 10).unwrap();
        assert_eq!(signal_index_for_digit(digit), Some(i));
    }
    assert_eq!(signal_index_for_digit('9'), Some(8));
    assert_eq!(signal_index_for_digit('0'), None);
    assert_eq!(signal_index_for_digit('x'), None);
}

#[test]
fn a_time_limit_is_edited() {
    let mut app = app_with(&["1"]);
    letters(&mut app, "t");
    letters(&mut app, "0:30 ");
    assert_eq!(
        run_label(press(&mut app, KeyCode::Enter)),
        "scontrol update JobId=1 TimeLimit=1:000:30"
    );
    for _ in 0..9 {
        press(&mut app, KeyCode::Backspace);
    }
    assert!(press(&mut app, KeyCode::Enter).is_none());
    assert!(app.dialog.is_some());
    letters(&mut app, "  ");
    assert!(press(&mut app, KeyCode::Enter).is_none());
    assert!(app.dialog.is_some());
    letters(&mut app, "5");
    press(&mut app, KeyCode::Home);
    letters(&mut app, "2");
    press(&mut app, KeyCode::Delete);
    press(&mut app, KeyCode::Delete);
    assert_eq!(
        run_label(press(&mut app, KeyCode::Enter)),
        "scontrol update JobId=1 TimeLimit=25"
    );
    press(&mut app, KeyCode::Esc);
    assert!(app.dialog.is_none());
}

#[test]
fn the_line_is_edited_with_control_keys() {
    let mut app = app_with(&["1"]);
    letters(&mut app, "t");
    press_with(&mut app, KeyCode::Char('u'), CONTROL);
    assert!(press(&mut app, KeyCode::Enter).is_none());
    press_with(&mut app, KeyCode::Char('A'), SHIFT);
    letters(&mut app, "b");
    press(&mut app, KeyCode::Left);
    letters(&mut app, "c");
    press(&mut app, KeyCode::Right);
    press(&mut app, KeyCode::End);
    letters(&mut app, "d");
    assert_eq!(
        run_label(press(&mut app, KeyCode::Enter)),
        "scontrol update JobId=1 TimeLimit=Acbd"
    );
}

#[test]
fn a_key_that_is_let_go_types_nothing() {
    let mut app = app_with(&["1"]);
    letters(&mut app, "t");
    app.handle(AppMessage::Key(KeyEvent {
        code: KeyCode::Char('9'),
        modifiers: KeyModifiers { bits: 0 },
        kind: KeyEventKind::Release,
    }));
    assert_eq!(
        run_label(press(&mut app, KeyCode::Enter)),
        "scontrol update JobId=1 TimeLimit=1:00"
    );
}

#[test]
fn a_limit_is_read_without_the_white_space_around_it() {
    assert_eq!(limit_in_text(" 1:00\t"), Some("1:00".to_string()));
    assert_eq!(limit_in_text(" \n"), None);
    assert_eq!(limit_in_text(""), None);
}

#[test]
fn the_help_closes_itself() {
    let mut app = app_with(&["1"]);
    letters(&mut app, "?");
    assert!(matches!(app.dialog, Some(Dialog::HelpPopup)));
    letters(&mut app, "j");
    assert!(matches!(app.dialog, Some(Dialog::HelpPopup)));
    assert_eq!(app.job_list_state.selected, Some(0));
    letters(&mut app, "?");
    assert!(app.dialog.is_none());
}

#[test]
fn escape_closes_every_dialog() {
    for open in ["c", "C", "t", "y", "?"] {
        let mut app = app_with(&["1"]);
        letters(&mut app, open);
        assert!(app.dialog.is_some());
        assert!(press(&mut app, KeyCode::Esc).is_none());
        assert!(app.dialog.is_none());
    }
}

#[test]
fn paths_and_ids_are_copied() {
    let mut app = app_with(&["1"]);
    letters(&mut app, "y");
    assert_eq!(copied(press(&mut app, KeyCode::Char('o'))), "/out/1");
    app.finish_copy("/out/1".to_string(), Ok(()));
    assert!(matches!(&app.dialog, Some(Dialog::YankResult(t)) if t == "Copied: /out/1"));
    letters(&mut app, "x");
    assert!(app.dialog.is_none());
    letters(&mut app, "y");
    assert_eq!(copied(press(&mut app, KeyCode::Char('i'))), "1");
    app.finish_copy("1".to_string(), Err("no clipboard".to_string()));
    assert!(matches!(&app.dialog, Some(Dialog::YankResult(t)) if t == "Error: no clipboard"));
}

#[test]
fn a_missing_path_is_told_of() {
    let mut app = app_with(&["1"]);
    letters(&mut app, "ys");
    assert!(
        matches!(&app.dialog, Some(Dialog::YankResult(t)) if t == "No stderr path available")
    );
    app.jobs[0].stdout = None;
    letters(&mut app, " yo");
    assert!(
        matches!(&app.dialog, Some(Dialog::YankResult(t)) if t == "No stdout path available")
    );
    let mut app = App::new();
    assert!(app.yank_job_id().is_none());
    assert!(matches!(&app.dialog, Some(Dialog::YankResult(t)) if t == "No job selected"));
}

#[test]
fn the_choice_of_what_to_copy_is_closed_by_its_own_key() {
    let mut app = app_with(&["1"]);
    letters(&mut app, "yx");
    assert!(matches!(app.dialog, Some(Dialog::YankPopup)));
    letters(&mut app, "y");
    assert!(app.dialog.is_none());
}

#[test]
fn the_output_is_taken_over() {
    let mut app = App::new();
    app.handle(AppMessage::JobOutput(Ok("text".to_string())));
    assert!(matches!(&app.job_output, Ok(t) if t == "text"));
    app.handle(AppMessage::JobOutput(Err(FileWatcherError { message: "gone".to_string() })));
    assert!(matches!(&app.job_output, Err(e) if e.message == "gone"));
}

#[test]
fn the_selected_job_stays_selected() {
    let mut app = app_with(&["1", "2", "3"]);
    letters(&mut app, "j");
    let jobs = ["0", "1", "2", "3"].iter().map(|id| plain_job(id, "n")).collect();
    app.handle(AppMessage::Jobs(jobs));
    assert_eq!(app.selected_job_id(), Some("2".to_string()));
    assert_eq!(app.job_list_state.selected, Some(2));
}

#[test]
fn the_selected_job_stays_selected_in_a_reversed_list() {
    let mut app = app_with(&["1", "2", "3"]);
    letters(&mut app, "r");
    assert_eq!(app.selected_job_id(), Some("3".to_string()));
    let jobs = ["0", "1", "2", "3"].iter().map(|id| plain_job(id, "n")).collect();
    app.handle(AppMessage::Jobs(jobs));
    assert_eq!(app.selected_job_id(), Some("3".to_string()));
    let jobs = ["0", "3", "4", "5"].iter().map(|id| plain_job(id, "n")).collect();
    app.handle(AppMessage::Jobs(jobs));
    assert_eq!(app.selected_job_id(), Some("3".to_string()));
    assert_eq!(app.job_list_state.selected, Some(2));
}

#[test]
fn the_selected_job_stays_selected_under_a_search() {
    let mut app = App::new();
    let named = |ids: &[&str]| {
        AppMessage::Jobs(
            ids.iter()
                .map(|id| plain_job(id, if id.len() > 1 { "train" } else { "other" }))
                .collect(),
        )
    };
    app.handle(named(&["1", "10", "2", "20"]));
    letters(&mut app, "/train");
    press(&mut app, KeyCode::Down);
    assert_eq!(app.selected_job_id(), Some("20".to_string()));
    app.handle(named(&["05", "1", "10", "2", "3", "20"]));
    assert_eq!(app.selected_job_id(), Some("20".to_string()));
    assert_eq!(app.job_list_state.selected, Some(2));
    let mut jobs = vec![plain_job("10", "train")];
    jobs.push(plain_job("20", "renamed"));
    app.handle(AppMessage::Jobs(jobs));
    assert_eq!(app.selected_job_id(), Some("10".to_string()));
}

#[test]
fn the_selected_job_stays_selected_among_groups() {
    let waiting = |step: &str, state: &str| {
        let mut job = plain_job(&format!("9{}", step), "array");
        job.array_id = "9".to_string();
        job.array_step = Some(step.to_string());
        job.state = state.to_string();
        job
    };
    let mut app = App::new();
    app.handle(AppMessage::Jobs(vec![
        waiting("0", "PENDING"),
        waiting("1", "PENDING"),
        waiting("2", "PENDING"),
        plain_job("5", "n"),
        plain_job("6", "n"),
    ]));
    letters(&mut app, "j");
    assert_eq!(app.selected_job_id(), Some("5".to_string()));
    app.handle(AppMessage::Jobs(vec![
        waiting("0", "RUNNING"),
        waiting("1", "PENDING"),
        waiting("2", "PENDING"),
        plain_job("5", "n"),
    ]));
    assert_eq!(app.selected_job_id(), Some("5".to_string()));
    assert_eq!(app.job_list_state.selected, Some(2));
    letters(&mut app, "k");
    assert_eq!(app.selected_job_id(), Some("9_1".to_string()));
    app.handle(AppMessage::Jobs(vec![
        plain_job("4", "n"),
        waiting("0", "PENDING"),
        waiting("1", "PENDING"),
        waiting("2", "PENDING"),
    ]));
    assert_eq!(app.job_list_state.selected, Some(1));
    assert_eq!(app.selected_job_id(), Some("9_0".to_string()));
    app.handle(AppMessage::Jobs(vec![
        plain_job("4", "n"),
        waiting("1", "PENDING"),
        waiting("2", "PENDING"),
        waiting("0", "RUNNING"),
    ]));
    assert_eq!(app.selected_job_id(), Some("9_0".to_string()));
    assert_eq!(app.job_list_state.selected, Some(2));
}

#[test]
fn the_selected_job_stays_selected_while_the_other_tab_is_shown() {
    let mut app = app_with(&["1", "2", "3"]);
    letters(&mut app, "rj");
    assert_eq!(app.selected_job_id(), Some("2".to_string()));
    letters(&mut app, "]/zzz");
    let jobs = ["0", "2", "3", "4", "5"].iter().map(|id| plain_job(id, "n")).collect();
    app.handle(AppMessage::Jobs(jobs));
    press(&mut app, KeyCode::Esc);
    letters(&mut app, "[");
    assert_eq!(app.selected_job_id(), Some("2".to_string()));
}

fn waiting_task(step: &str) -> Job {
    let mut job = plain_job(&format!("70{}", step), "array");
    job.array_id = "7".to_string();
    job.array_step = Some(step.to_string());
    job.state = "PENDING".to_string();
    job
}

#[test]
fn a_selected_number_without_a_row_is_kept() {
    let mut app = App::new();
    app.handle(AppMessage::Jobs(vec![waiting_task("1"), waiting_task("2")]));
    assert_eq!(app.filtered_indices.len(), 1);
    letters(&mut app, "]");
    app.handle(AppMessage::MouseClick(1));
    app.handle(AppMessage::Jobs(vec![plain_job("1", "n"), plain_job("2", "n")]));
    assert_eq!(app.job_list_state.selected, Some(1));
    app.handle(AppMessage::Jobs(vec![plain_job("3", "n")]));
    assert_eq!(app.job_list_state.selected, Some(0));
}

#[test]
fn the_same_jobs_again_change_nothing() {
    let jobs = || vec![plain_job("5", "n"), waiting_task("1"), waiting_task("2")];
    let mut app = App::new();
    app.handle(AppMessage::Jobs(jobs()));
    assert_eq!(app.filtered_indices.len(), 2);
    letters(&mut app, "]");
    app.handle(AppMessage::MouseWheel {
        target: MouseScrollTarget::Jobs,
        direction: MouseWheelDirection::Down,
        amount: 2,
    });
    assert_eq!(app.job_list_state.selected, Some(2));
    app.handle(AppMessage::Jobs(jobs()));
    assert_eq!(app.job_list_state.selected, Some(2));
    letters(&mut app, "[");
    assert_eq!(app.selected_job_id(), Some("7_1".to_string()));
    app.handle(AppMessage::Jobs(jobs()));
    assert_eq!(app.job_list_state.selected, Some(1));
    assert_eq!(app.selected_job_id(), Some("7_1".to_string()));
}

#[test]
fn a_selected_number_without_a_row_follows_its_job() {
    let mut app = App::new();
    app.handle(AppMessage::Jobs(vec![waiting_task("1"), waiting_task("2")]));
    letters(&mut app, "]");
    app.handle(AppMessage::MouseClick(1));
    app.handle(AppMessage::Jobs(vec![
        plain_job("1", "n"),
        plain_job("2", "n"),
        waiting_task("1"),
        waiting_task("2"),
    ]));
    assert_eq!(app.job_list_state.selected, Some(3));
}

#[test]
fn a_selected_number_beyond_the_jobs_gives_way_to_the_first() {
    let mut app = app_with(&["1", "2"]);
    app.job_list_state.select(Some(9));
    app.handle(AppMessage::Jobs(vec![plain_job("1", "n"), plain_job("2", "n")]));
    assert_eq!(app.job_list_state.selected, Some(0));
}

#[test]
fn where_the_selected_job_is_gone_the_row_stays() {
    let mut app = app_with(&["1", "2", "3"]);
    letters(&mut app, "jj");
    app.handle(AppMessage::Jobs(vec![plain_job("7", "n"), plain_job("8", "n")]));
    assert_eq!(app.selected_job_id(), Some("8".to_string()));
    app.handle(AppMessage::Jobs(Vec::new()));
    assert_eq!(app.job_list_state.selected, None);
    app.handle(AppMessage::Jobs(vec![plain_job("7", "n"), plain_job("8", "n")]));
    assert_eq!(app.selected_job_id(), Some("7".to_string()));
}

#[test]
fn tabs_do_not_disturb_each_other() {
    let mut app = app_with(&["1", "2"]);
    letters(&mut app, "]");
    app.handle(AppMessage::SacctJobs(vec![plain_job("8", "a"), plain_job("9", "b")]));
    letters(&mut app, "G");
    app.handle(AppMessage::Jobs(vec![plain_job("5", "n")]));
    assert_eq!(app.selected_job_id(), Some("9".to_string()));
    assert_eq!(app.filtered_indices.len(), 2);
    letters(&mut app, "[");
    app.handle(AppMessage::SacctJobs(Vec::new()));
    assert_eq!(app.selected_job_id(), Some("5".to_string()));
}

#[test]
fn a_selection_beyond_the_rows_is_brought_back() {
    let mut app = app_with(&["1", "2", "3"]);
    letters(&mut app, "G/1");
    assert_eq!(app.job_list_state.selected, Some(0));
    press(&mut app, KeyCode::Esc);
    app.job_list_state.select(Some(40));
    app.recompute_filtered_indices();
    assert_eq!(app.job_list_state.selected, Some(2));
}
