use turm::app::{App, AppMessage, Dialog, InputMode};
use turm::event::{
    mouse_wheel_direction, Event, KeyCode, KeyEvent, KeyEventKind, KeyModifiers, MouseEvent,
    MouseEventKind, MouseScrollTarget, MouseWheelDirection,
};
use turm::geometry::{Rect, Screen};
use turm::job::Job;
use turm::list_state::ListState;
use turm::update::{InputStep, WheelBurst};

fn numbered_job(n: usize) -> Job {
    Job {
        job_id: n.to_string(),
        array_id: n.to_string(),
        array_step: None,
        name: "n".to_string(),
        state: "RUNNING".to_string(),
        state_compact: "R".to_string(),
        reason: None,
        user: String::new(),
        time: String::new(),
        time_limit: String::new(),
        start_time: String::new(),
        tres: String::new(),
        partition: String::new(),
        qos: String::new(),
        nodelist: String::new(),
        stdout: None,
        stderr: None,
        command: String::new(),
    }
}

fn area(x: u16, y: u16, width: u16, height: u16) -> Rect {
    Rect { x, y, width, height }
}

fn drawn_app(count: usize) -> App {
    let mut app = App::new();
    app.handle(AppMessage::Jobs((0..count).map(numbered_job).collect()));
    let screen = Screen {
        help: area(0, 29, 100, 1),
        tabs: area(0, 0, 40, 3),
        list: area(0, 3, 40, 10),
        details: area(40, 0, 60, 8),
        log: area(40, 8, 60, 20),
    };
    let list = app.active_list();
    app.finish_draw(&screen, list);
    app
}

fn mouse(kind: MouseEventKind, column: u16, row: u16) -> Event {
    Event::Mouse(MouseEvent { kind, column, row })
}

fn typed(code: KeyCode) -> Event {
    Event::Key(KeyEvent { code, modifiers: KeyModifiers { bits: 0 }, kind: KeyEventKind::Press })
}

#[test]
fn drawing_is_taken_over() {
    let mut app = drawn_app(3);
    assert_eq!(app.job_list_height, 8);
    assert_eq!(app.job_list_area, area(0, 3, 40, 10));
    assert_eq!(app.job_output_area, area(40, 8, 60, 20));
    let screen = Screen {
        help: area(0, 0, 0, 0),
        tabs: area(0, 0, 0, 0),
        list: area(1, 1, 1, 1),
        details: area(0, 0, 0, 0),
        log: area(2, 2, 2, 2),
    };
    app.finish_draw(&screen, ListState { offset: 1, selected: Some(2) });
    assert_eq!(app.job_list_height, 0);
    assert_eq!(app.job_list_state, ListState { offset: 1, selected: Some(2) });
}

#[test]
fn a_click_selects_the_job_under_it() {
    let mut app = drawn_app(5);
    assert_eq!(app.job_index_at(1, 4), Some(0));
    assert_eq!(app.job_index_at(38, 8), Some(4));
    assert_eq!(app.job_index_at(1, 9), None);
    assert_eq!(app.job_index_at(0, 4), None);
    assert_eq!(app.job_index_at(39, 4), None);
    assert_eq!(app.job_index_at(1, 3), None);
    let step = app.handle_input_event(mouse(MouseEventKind::LeftDown, 5, 6));
    assert!(matches!(step, InputStep::Handled(None)));
    assert_eq!(app.job_list_state.selected, Some(2));
    let step = app.handle_input_event(mouse(MouseEventKind::LeftDown, 5, 6));
    assert!(matches!(step, InputStep::Ignored));
    let step = app.handle_input_event(mouse(MouseEventKind::LeftDown, 5, 20));
    assert!(matches!(step, InputStep::Ignored));
}

#[test]
fn a_click_counts_from_the_first_visible_row() {
    let mut app = drawn_app(20);
    app.job_list_state.offset = 7;
    assert_eq!(app.job_index_at(1, 4), Some(7));
    app.job_list_state.offset = usize::MAX;
    assert_eq!(app.job_index_at(1, 4), None);
}

#[test]
fn clicks_beyond_the_jobs_are_ignored() {
    let mut app = drawn_app(3);
    assert!(app.handle(AppMessage::MouseClick(3)).is_none());
    assert_eq!(app.job_list_state.selected, Some(0));
    assert!(app.handle(AppMessage::MouseClick(2)).is_none());
    assert_eq!(app.job_list_state.selected, Some(2));
}

#[test]
fn the_wheel_scrolls_what_is_under_it() {
    let app = drawn_app(3);
    assert_eq!(app.mouse_scroll_target(0, 3), Some(MouseScrollTarget::Jobs));
    assert_eq!(app.mouse_scroll_target(40, 8), Some(MouseScrollTarget::Output));
    assert_eq!(app.mouse_scroll_target(40, 7), None);
    assert_eq!(
        mouse_wheel_direction(MouseEventKind::ScrollUp),
        Some(MouseWheelDirection::Up)
    );
    assert_eq!(
        mouse_wheel_direction(MouseEventKind::ScrollDown),
        Some(MouseWheelDirection::Down)
    );
    assert_eq!(mouse_wheel_direction(MouseEventKind::LeftDown), None);
}

#[test]
fn turns_of_the_wheel_are_taken_together() {
    let mut app = drawn_app(30);
    let down = mouse(MouseEventKind::ScrollDown, 5, 5);
    let mut burst = match app.handle_input_event(down) {
        InputStep::Wheel(burst) => burst,
        _ => panic!("the wheel was turned"),
    };
    assert_eq!(
        burst,
        WheelBurst {
            target: MouseScrollTarget::Jobs,
            direction: MouseWheelDirection::Down,
            amount: 1,
        }
    );
    for _ in 0..4 {
        burst = app.merge_wheel(burst, down).unwrap();
    }
    assert_eq!(burst.amount, 5);
    assert!(app.merge_wheel(burst, mouse(MouseEventKind::ScrollUp, 5, 5)).is_none());
    assert_eq!(app.pending_input_event, Some(mouse(MouseEventKind::ScrollUp, 5, 5)));
    app.finish_wheel(burst);
    assert_eq!(app.job_list_state.selected, Some(5));
    assert_eq!(app.take_pending(), Some(mouse(MouseEventKind::ScrollUp, 5, 5)));
    assert_eq!(app.take_pending(), None);
}

#[test]
fn turns_over_another_panel_or_other_events_end_a_burst() {
    let mut app = drawn_app(30);
    let burst = WheelBurst {
        target: MouseScrollTarget::Jobs,
        direction: MouseWheelDirection::Down,
        amount: 1,
    };
    for event in [
        mouse(MouseEventKind::ScrollDown, 50, 10),
        mouse(MouseEventKind::ScrollDown, 50, 1),
        mouse(MouseEventKind::Other, 5, 5),
        typed(KeyCode::Char('j')),
        Event::Resize,
        Event::Other,
    ] {
        assert!(app.merge_wheel(burst, event).is_none());
        assert_eq!(app.take_pending(), Some(event));
    }
}

#[test]
fn a_burst_stops_counting_at_the_largest_number() {
    let mut app = drawn_app(3);
    let burst = WheelBurst {
        target: MouseScrollTarget::Output,
        direction: MouseWheelDirection::Up,
        amount: 65535,
    };
    let more = app.merge_wheel(burst, mouse(MouseEventKind::ScrollUp, 50, 10)).unwrap();
    assert_eq!(more.amount, 65535);
}

#[test]
fn turns_add_up() {
    for (target, direction) in [
        (MouseScrollTarget::Jobs, MouseWheelDirection::Down),
        (MouseScrollTarget::Jobs, MouseWheelDirection::Up),
        (MouseScrollTarget::Output, MouseWheelDirection::Down),
        (MouseScrollTarget::Output, MouseWheelDirection::Up),
    ] {
        let mut one_by_one = drawn_app(9);
        let mut together = drawn_app(9);
        for app in [&mut one_by_one, &mut together] {
            app.job_list_state.selected = Some(4);
            app.job_output_offset = 4;
        }
        for _ in 0..6 {
            one_by_one.handle(AppMessage::MouseWheel { target, direction, amount: 1 });
        }
        together.handle(AppMessage::MouseWheel { target, direction, amount: 6 });
        assert_eq!(one_by_one.job_list_state, together.job_list_state);
        assert_eq!(one_by_one.job_output_offset, together.job_output_offset);
    }
}

#[test]
fn dialogs_block_the_mouse() {
    let mut app = drawn_app(5);
    app.dialog = Some(Dialog::HelpPopup);
    for event in [
        mouse(MouseEventKind::LeftDown, 5, 6),
        mouse(MouseEventKind::ScrollDown, 5, 6),
        mouse(MouseEventKind::ScrollUp, 50, 10),
    ] {
        assert!(matches!(app.handle_input_event(event), InputStep::Ignored));
    }
    app.handle(AppMessage::MouseClick(3));
    app.handle(AppMessage::MouseWheel {
        target: MouseScrollTarget::Jobs,
        direction: MouseWheelDirection::Down,
        amount: 3,
    });
    assert_eq!(app.job_list_state.selected, Some(0));
    assert!(matches!(app.dialog, Some(Dialog::HelpPopup)));
}

#[test]
fn only_q_quits_and_not_while_searching() {
    let mut app = drawn_app(1);
    assert!(matches!(app.handle_input_event(typed(KeyCode::Char('q'))), InputStep::Quit));
    app.dialog = Some(Dialog::HelpPopup);
    assert!(matches!(app.handle_input_event(typed(KeyCode::Char('q'))), InputStep::Quit));
    app.dialog = None;
    app.handle_input_event(typed(KeyCode::Char('/')));
    assert_eq!(app.input_mode, InputMode::Search);
    assert!(matches!(app.handle_input_event(typed(KeyCode::Char('q'))), InputStep::Handled(None)));
    assert_eq!(app.search_query, "q");
}

#[test]
fn other_events_draw_or_do_nothing() {
    let mut app = drawn_app(1);
    assert!(matches!(app.handle_input_event(Event::Resize), InputStep::Redraw));
    assert!(matches!(app.handle_input_event(Event::Other), InputStep::Ignored));
    assert!(matches!(
        app.handle_input_event(mouse(MouseEventKind::Other, 5, 6)),
        InputStep::Ignored
    ));
    assert!(matches!(
        app.handle_input_event(mouse(MouseEventKind::ScrollDown, 50, 1)),
        InputStep::Ignored
    ));
}
