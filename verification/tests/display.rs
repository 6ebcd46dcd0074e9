use turm::app::{App, AppMessage};
use turm::display::{find_row, list_jobs, single_rows, DisplayEntry};
use turm::event::{KeyCode, KeyEvent, KeyEventKind, KeyModifiers};
use turm::job::Job;

fn listed_job(id: &str, array: Option<(&str, &str)>, name: &str, state: &str) -> Job {
    Job {
        job_id: id.to_string(),
        array_id: array.map_or(id, |a| a.0).to_string(),
        array_step: array.map(|a| a.1.to_string()),
        name: name.to_string(),
        state: state.to_string(),
        state_compact: state[0..1].to_string(),
        reason: None,
        user: "ada".to_string(),
        time: "0:00".to_string(),
        time_limit: "1:00".to_string(),
        start_time: String::new(),
        tres: String::new(),
        partition: "p".to_string(),
        qos: "q".to_string(),
        nodelist: String::new(),
        stdout: None,
        stderr: None,
        command: String::new(),
    }
}

fn array_jobs() -> Vec<Job> {
    vec![
        listed_job("1", None, "Alpha", "RUNNING"),
        listed_job("2", Some(("10", "0")), "beta", "RUNNING"),
        listed_job("3", Some(("10", "1")), "beta", "PENDING"),
        listed_job("4", Some(("10", "2")), "beta", "PENDING"),
        listed_job("5", Some(("20", "0")), "GAMMA", "PENDING"),
        listed_job("6", Some(("10", "3")), "beta", "PENDING"),
        listed_job("7", None, "alpha", "PENDING"),
    ]
}

fn list_app(jobs: Vec<Job>) -> App {
    let mut app = App::new();
    assert!(app.handle(AppMessage::Jobs(jobs)).is_none());
    app
}

fn list_key(app: &mut App, code: KeyCode) {
    let key = KeyEvent { code, modifiers: KeyModifiers { bits: 0 }, kind: KeyEventKind::Press };
    assert!(app.handle(AppMessage::Key(key)).is_none());
}

#[test]
fn job_index_is_the_position_of_the_job() {
    assert_eq!(DisplayEntry::Job(3).job_index(), 3);
    assert_eq!(DisplayEntry::CollapsedGroup { index: 5, total: 2 }.job_index(), 5);
}

#[test]
fn searching_ignores_case() {
    let jobs = array_jobs();
    assert_eq!(list_jobs(&jobs, "ALPHA", false), [0, 6]);
    assert_eq!(list_jobs(&jobs, "gam", false), [4]);
    assert_eq!(list_jobs(&jobs, "zzz", false), []);
    assert_eq!(list_jobs(&jobs, "", false), [0, 1, 2, 3, 4, 5, 6]);
}

#[test]
fn searching_uses_the_lower_case_of_unicode() {
    let jobs = vec![listed_job("1", None, "ÄRGER", "RUNNING")];
    assert_eq!(list_jobs(&jobs, "är", false), [0]);
    assert_eq!(list_jobs(&jobs, "ar", false), []);
}

#[test]
fn the_row_of_a_job_is_found() {
    let jobs = array_jobs();
    let list = list_jobs(&jobs, "", false);
    let rows = list_app(array_jobs()).filtered_indices;
    assert_eq!(find_row(&jobs, &list, &rows, "1"), Some(0));
    assert_eq!(find_row(&jobs, &list, &rows, "10_0"), Some(1));
    assert_eq!(find_row(&jobs, &list, &rows, "10_1"), Some(2));
    assert_eq!(find_row(&jobs, &list, &rows, "10_3"), Some(2));
    assert_eq!(find_row(&jobs, &list, &rows, "7"), Some(4));
    assert_eq!(find_row(&jobs, &list, &rows, "8"), None);
}

#[test]
fn the_list_can_be_turned_round() {
    let jobs = array_jobs();
    assert_eq!(list_jobs(&jobs, "alpha", true), [6, 0]);
    assert_eq!(list_jobs(&jobs, "", true), [6, 5, 4, 3, 2, 1, 0]);
}

#[test]
fn plain_rows_have_one_job_each() {
    assert_eq!(single_rows(&vec![2, 0]), [DisplayEntry::Job(2), DisplayEntry::Job(0)]);
}

#[test]
fn waiting_tasks_of_an_array_are_drawn_together() {
    let app = list_app(array_jobs());
    assert_eq!(
        app.filtered_indices,
        [
            DisplayEntry::Job(0),
            DisplayEntry::Job(1),
            DisplayEntry::CollapsedGroup { index: 2, total: 3 },
            DisplayEntry::Job(4),
            DisplayEntry::Job(6),
        ]
    );
}

#[test]
fn the_rows_stand_for_every_job() {
    let app = list_app(array_jobs());
    let total: usize = app
        .filtered_indices
        .iter()
        .map(|e| match e {
            DisplayEntry::Job(_) => 1,
            DisplayEntry::CollapsedGroup { total, .. } => *total,
        })
        .sum();
    assert_eq!(total, app.jobs.len());
}

#[test]
fn a_lone_waiting_task_has_its_own_row() {
    let app = list_app(vec![
        listed_job("1", Some(("9", "1")), "x", "PENDING"),
        listed_job("2", Some(("8", "1")), "x", "PENDING"),
    ]);
    assert_eq!(app.filtered_indices, [DisplayEntry::Job(0), DisplayEntry::Job(1)]);
}

#[test]
fn a_group_turned_round_begins_with_its_last_task() {
    let mut app = list_app(array_jobs());
    list_key(&mut app, KeyCode::Char('r'));
    assert!(app.jobs_reversed);
    assert_eq!(
        app.filtered_indices,
        [
            DisplayEntry::Job(6),
            DisplayEntry::CollapsedGroup { index: 5, total: 3 },
            DisplayEntry::Job(4),
            DisplayEntry::Job(1),
            DisplayEntry::Job(0),
        ]
    );
}

#[test]
fn turning_round_twice_brings_every_row_back() {
    let mut app = list_app(array_jobs());
    app.job_list_state.selected = Some(3);
    let before = app.filtered_indices.clone();
    list_key(&mut app, KeyCode::Char('r'));
    assert_eq!(app.filtered_indices.len(), before.len());
    list_key(&mut app, KeyCode::Char('r'));
    assert_eq!(app.filtered_indices, before);
    assert_eq!(app.job_list_state.selected, Some(3));
    assert!(!app.jobs_reversed);
}

#[test]
fn expanding_a_group_keeps_its_place_and_is_undone() {
    let mut app = list_app(array_jobs());
    app.job_list_state.selected = Some(2);
    let before = app.filtered_indices.clone();
    list_key(&mut app, KeyCode::Char('a'));
    assert!(app.expanded_arrays.contains("10"));
    assert_eq!(app.filtered_indices.len(), 7);
    assert_eq!(app.filtered_indices[2], DisplayEntry::Job(2));
    assert_eq!(app.selected_job_id(), Some("10_1".to_string()));
    list_key(&mut app, KeyCode::Char('a'));
    assert!(!app.expanded_arrays.contains("10"));
    assert_eq!(app.filtered_indices, before);
    assert_eq!(app.job_list_state.selected, Some(2));
}

#[test]
fn a_job_outside_an_array_is_not_expanded() {
    let mut app = list_app(array_jobs());
    app.job_list_state.selected = Some(0);
    list_key(&mut app, KeyCode::Char('a'));
    assert!(!app.expanded_arrays.contains("1"));
    assert_eq!(app.filtered_indices.len(), 5);
}

#[test]
fn groups_count_the_matching_tasks_only() {
    let mut jobs = array_jobs();
    jobs[5].name = "other".to_string();
    let mut app = list_app(jobs);
    list_key(&mut app, KeyCode::Char('/'));
    for c in "beta".chars() {
        list_key(&mut app, KeyCode::Char(c));
    }
    assert_eq!(
        app.filtered_indices,
        [DisplayEntry::Job(1), DisplayEntry::CollapsedGroup { index: 2, total: 2 }]
    );
}
