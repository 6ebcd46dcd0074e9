use turm::app::{App, AppMessage, Dialog, SelectedTab};
use turm::command::CommandFailure;
use turm::display::{find_names, DisplayEntry};
use turm::event::{
    Event, KeyCode, KeyEvent, KeyEventKind, KeyModifiers, MouseScrollTarget, MouseWheelDirection,
    CONTROL,
};
use turm::job::Job;

fn task(id: &str, array: &str, step: Option<&str>, state: &str) -> Job {
    Job {
        job_id: id.to_string(),
        array_id: array.to_string(),
        array_step: step.map(|s| s.to_string()),
        name: format!("name{}", id),
        state: state.to_string(),
        state_compact: state[0..1].to_string(),
        reason: None,
        user: String::new(),
        time: String::new(),
        time_limit: "1".to_string(),
        start_time: String::new(),
        tres: String::new(),
        partition: String::new(),
        qos: String::new(),
        nodelist: String::new(),
        stdout: Some("/o".to_string()),
        stderr: None,
        command: String::new(),
    }
}

fn tasks() -> Vec<Job> {
    vec![
        task("1", "1", None, "RUNNING"),
        task("2", "a", Some("0"), "PENDING"),
        task("3", "b", Some("0"), "PENDING"),
        task("4", "a", Some("1"), "PENDING"),
        task("5", "b", Some("1"), "PENDING"),
        task("6", "a", Some("2"), "RUNNING"),
        task("7", "c", Some("0"), "PENDING"),
    ]
}

fn key(c: KeyCode, bits: u8) -> AppMessage {
    AppMessage::Key(KeyEvent {
        code: c,
        modifiers: KeyModifiers { bits },
        kind: KeyEventKind::Press,
    })
}

fn rows_after_making_them_anew(app: &mut App) -> Vec<DisplayEntry> {
    app.recompute_filtered_indices();
    app.filtered_indices.clone()
}

#[test]
fn rows_are_current_whatever_happens() {
    let mut app = App::new();
    let codes: Vec<KeyCode> = "jk/na1[]rgGaowp?h/x".chars().map(KeyCode::Char).collect();
    let mut seed: usize = 7;
    for round in 0..400usize {
        seed = (seed * 1103515245 + 12345) % 2147483648;
        let msg = match seed / 65536 % 9 {
            0 => AppMessage::Jobs(tasks().into_iter().take(round % 8).collect()),
            1 => AppMessage::SacctJobs(tasks().into_iter().skip(round % 7).collect()),
            2 => key(KeyCode::Esc, 0),
            3 => key(KeyCode::Backspace, 0),
            4 => AppMessage::MouseClick(round % 5),
            5 => AppMessage::MouseWheel {
                target: MouseScrollTarget::Jobs,
                direction: MouseWheelDirection::Down,
                amount: 2,
            },
            _ => key(codes[round % codes.len()], if round % 3 == 0 { CONTROL } else { 0 }),
        };
        app.handle(msg);
        let rows = app.filtered_indices.clone();
        assert_eq!(rows_after_making_them_anew(&mut app), rows);
    }
}

#[test]
fn making_rows_again_changes_nothing() {
    let mut app = App::new();
    app.handle(AppMessage::Jobs(tasks()));
    app.job_list_state.select(Some(99));
    let rows = rows_after_making_them_anew(&mut app);
    let list = app.job_list_state;
    assert_eq!(list.selected, Some(rows.len() - 1));
    assert_eq!(rows_after_making_them_anew(&mut app), rows);
    assert_eq!(app.job_list_state, list);
}

#[test]
fn each_group_has_one_row_and_other_jobs_their_own() {
    let mut app = App::new();
    app.handle(AppMessage::Jobs(tasks()));
    assert_eq!(
        app.filtered_indices,
        [
            DisplayEntry::Job(0),
            DisplayEntry::CollapsedGroup { index: 1, total: 2 },
            DisplayEntry::CollapsedGroup { index: 2, total: 2 },
            DisplayEntry::Job(5),
            DisplayEntry::Job(6),
        ]
    );
}

#[test]
fn plain_lists_are_in_job_order() {
    let mut app = App::new();
    app.handle(AppMessage::Jobs(vec![
        task("1", "1", None, "RUNNING"),
        task("2", "a", Some("0"), "PENDING"),
        task("3", "b", Some("0"), "PENDING"),
    ]));
    let positions: Vec<usize> = app.filtered_indices.iter().map(|e| e.job_index()).collect();
    assert_eq!(positions, [0, 1, 2]);
}

#[test]
fn no_command_is_run_unasked() {
    for code in 32u8..127 {
        let mut app = App::new();
        app.handle(AppMessage::Jobs(tasks()));
        assert!(app.handle(key(KeyCode::Char(code as char), 0)).is_none());
    }
    for code in [KeyCode::Enter, KeyCode::Esc, KeyCode::Delete, KeyCode::Other] {
        let mut app = App::new();
        app.handle(AppMessage::Jobs(tasks()));
        assert!(app.handle(key(code, 0)).is_none());
        assert!(app.dialog.is_none());
    }
}

#[test]
fn outcomes_change_the_dialog_only() {
    let mut app = App::new();
    app.handle(AppMessage::Jobs(tasks()));
    app.handle(key(KeyCode::Char('j'), 0));
    let rows = app.filtered_indices.clone();
    app.finish_command(Err(CommandFailure { command: "c".to_string(), output: "o".to_string() }));
    assert!(matches!(app.dialog, Some(Dialog::CommandError { .. })));
    app.finish_copy("x".to_string(), Ok(()));
    assert!(matches!(app.dialog, Some(Dialog::YankResult(_))));
    assert_eq!(app.filtered_indices, rows);
    assert_eq!(app.job_list_state.selected, Some(1));
    assert_eq!(app.selected_tab, SelectedTab::Jobs);
}

#[test]
fn names_are_found_as_they_are_given() {
    let names = vec!["alpha".to_string(), "Beta".to_string(), "alphabet".to_string()];
    assert_eq!(find_names(&names, "alpha", false), [0, 2]);
    assert_eq!(find_names(&names, "alpha", true), [2, 0]);
    assert_eq!(find_names(&names, "beta", false), []);
    assert_eq!(find_names(&names, "", false), [0, 1, 2]);
    assert_eq!(find_names(&Vec::new(), "", true), []);
}

#[test]
fn an_event_that_is_kept_is_given_back_once() {
    let mut app = App::new();
    app.pending_input_event = Some(Event::Resize);
    assert_eq!(app.take_pending(), Some(Event::Resize));
    assert_eq!(app.take_pending(), None);
}
