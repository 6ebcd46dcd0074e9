use turm::app::{App, AppMessage, Dialog};
use turm::dialog::{
    dialog_box, error_box, limit_box, make_help_lines, make_signal_lines, measure_room,
    visible_part, Body, DialogBox, Wrapping,
};
use turm::event::{KeyCode, KeyEvent, KeyEventKind, KeyModifiers};
use turm::geometry::Rect;
use turm::job::Job;
use turm::view::{Line, Tone};

const SCREEN: Rect = Rect { x: 0, y: 0, width: 100, height: 40 };

fn line_text(line: &Line) -> String {
    line.spans.iter().map(|s| s.text.as_str()).collect()
}

fn body_lines(shown: &DialogBox) -> Vec<String> {
    match &shown.body {
        Body::Lines(lines) => lines.iter().map(line_text).collect(),
        Body::Text(_) => panic!("lines expected"),
    }
}

fn limit_app(limit: &str) -> App {
    let job = Job {
        job_id: "42".to_string(),
        array_id: "42".to_string(),
        array_step: None,
        name: String::new(),
        state: String::new(),
        state_compact: String::new(),
        reason: None,
        user: String::new(),
        time: String::new(),
        time_limit: limit.to_string(),
        start_time: String::new(),
        tres: String::new(),
        partition: String::new(),
        qos: String::new(),
        nodelist: String::new(),
        stdout: None,
        stderr: None,
        command: String::new(),
    };
    let mut app = App::new();
    app.handle(AppMessage::Jobs(vec![job]));
    app.handle(AppMessage::Key(KeyEvent {
        code: KeyCode::Char('t'),
        modifiers: KeyModifiers { bits: 0 },
        kind: KeyEventKind::Press,
    }));
    app
}

#[test]
fn cancelling_is_asked_for() {
    let shown = dialog_box(&Dialog::ConfirmCancelJob("7".to_string()), SCREEN);
    assert_eq!(shown.area, Rect { x: 10, y: 18, width: 80, height: 3 });
    assert_eq!(shown.title, "─Cancel");
    assert_eq!((shown.tone, shown.rounded), (Tone::Green, true));
    assert_eq!(shown.wrapping, Wrapping::Trimmed);
    assert_eq!(shown.cursor, None);
    assert_eq!(body_lines(&shown), ["Cancel job 7?"]);
}

#[test]
fn signals_are_listed() {
    let dialog = Dialog::SelectCancelSignal { id: "7".to_string(), selected_signal: 2 };
    let shown = dialog_box(&dialog, SCREEN);
    assert_eq!(shown.area, Rect { x: 10, y: 14, width: 80, height: 12 });
    assert_eq!(shown.title, "─Signal");
    assert_eq!(
        body_lines(&shown),
        [
            "Send signal to job 7:",
            "",
            "1. TERM",
            "2. INT",
            "3. HUP",
            "4. USR1",
            "5. USR2",
            "6. STOP",
            "7. CONT",
            "8. KILL",
        ]
    );
    let lines = make_signal_lines("7", 2);
    assert_eq!(lines[0].spans[1].tone, Tone::Bold);
    assert_eq!((lines[4].spans[0].tone, lines[4].spans[1].tone), (Tone::ChosenDim, Tone::Chosen));
    assert_eq!((lines[5].spans[0].tone, lines[5].spans[1].tone), (Tone::Dim, Tone::Plain));
}

#[test]
fn the_time_limit_is_shown_with_its_cursor() {
    let app = limit_app("1:00");
    let shown = dialog_box(app.dialog.as_ref().unwrap(), SCREEN);
    assert_eq!(shown.title, "─Time Limit");
    assert_eq!(shown.wrapping, Wrapping::Cut);
    assert_eq!(body_lines(&shown), ["Set time limit for job 42: 1:00"]);
    assert_eq!(shown.cursor, Some((11 + 27 + 4, 19)));
}

#[test]
fn a_long_time_limit_is_scrolled() {
    let long = "0123456789".repeat(8);
    let app = limit_app(&long);
    let shown = dialog_box(app.dialog.as_ref().unwrap(), SCREEN);
    let room = measure_room("42", SCREEN);
    assert_eq!(room, 78 - 27);
    let text = &body_lines(&shown)[0]["Set time limit for job 42: ".len()..];
    assert!(long.ends_with(text));
    assert!(text.len() <= room);
    let (x, _) = shown.cursor.unwrap();
    assert!(x <= 88);
}

#[test]
fn wide_characters_take_two_cells() {
    let app = limit_app("日本");
    let shown = dialog_box(app.dialog.as_ref().unwrap(), SCREEN);
    assert_eq!(shown.cursor, Some((11 + 27 + 4, 19)));
}

#[test]
fn there_is_always_room_for_one_cell() {
    let id = "9".repeat(200);
    assert_eq!(measure_room(&id, SCREEN), 1);
    let shown = limit_box(&id, "abc", 2, 3, SCREEN);
    assert_eq!(shown.cursor, Some((88, 19)));
    assert!(body_lines(&shown)[0].ends_with(": c"));
}

#[test]
fn the_cursor_stands_behind_what_is_before_it() {
    assert_eq!(limit_box("1", "abcdef", 0, 2, SCREEN).cursor, Some((11 + 26 + 2, 19)));
    assert_eq!(limit_box("1", "abcdef", 3, 2, SCREEN).cursor, Some((11 + 26, 19)));
    let tiny = Rect { x: 0, y: 0, width: 2, height: 2 };
    assert_eq!(limit_box("1", "abc", 0, 2, tiny).cursor, Some((1, 1)));
}

#[test]
fn the_visible_part_fits() {
    assert_eq!(visible_part("abcdef", 0, 6), "abcdef");
    assert_eq!(visible_part("abcdef", 2, 3), "cde");
    assert_eq!(visible_part("abcdef", 4, 9), "ef");
    assert_eq!(visible_part("abcdef", 9, 9), "");
    assert_eq!(visible_part("éèê", 1, 1), "è");
    assert_eq!(visible_part("abc", usize::MAX, usize::MAX), "");
}

#[test]
fn errors_are_as_high_as_their_text() {
    let shown = error_box("scancel 1", "Exit code: 1\n\nno\n", SCREEN);
    assert_eq!(shown.title, "─Command Error");
    assert_eq!((shown.tone, shown.wrapping), (Tone::Red, Wrapping::Kept));
    assert_eq!(shown.area, Rect { x: 10, y: 16, width: 80, height: 7 });
    assert!(
        matches!(&shown.body, Body::Text(t) if t == "Command: scancel 1\n\nExit code: 1\n\nno\n")
    );
    let long = error_box("c", &"\n".repeat(70000), SCREEN);
    assert_eq!(long.area, Rect { x: 10, y: 0, width: 80, height: 40 });
    let dialog = Dialog::CommandError { command: "c".to_string(), output: "o".to_string() };
    assert_eq!(dialog_box(&dialog, SCREEN).area.height, 5);
}

#[test]
fn the_help_lists_every_shortcut() {
    let shown = dialog_box(&Dialog::HelpPopup, SCREEN);
    assert_eq!(shown.area, Rect { x: 23, y: 15, width: 54, height: 10 });
    assert_eq!(shown.title, "Keybindings");
    assert_eq!((shown.tone, shown.rounded), (Tone::Blue, false));
    assert_eq!(
        body_lines(&shown),
        [
            "q          quit            [/]  prev/next tab",
            "j/k ⏶/⏷    navigate        /    search",
            "pgup/down  scroll          c/C  cancel/signal",
            "home/end   top/bottom      t    set time limit",
            "w          toggle wrap     o    toggle stdout/stderr",
            "p          partition/qos   a    expand/collapse",
            "r          reverse order   y    yank path",
            "?          show/hide help       ",
        ]
    );
    let widest = make_help_lines().iter().map(|l| line_text(l).chars().count()).max();
    assert_eq!(widest, Some(52));
}

#[test]
fn copying_is_offered_and_told_of() {
    let shown = dialog_box(&Dialog::YankPopup, SCREEN);
    assert_eq!(shown.area, Rect { x: 40, y: 17, width: 20, height: 5 });
    assert_eq!(shown.title, "Yank");
    assert_eq!(body_lines(&shown), ["o  stdout path", "s  stderr path", "i  job id"]);
    let shown = dialog_box(&Dialog::YankResult("Copied: x".to_string()), SCREEN);
    assert_eq!(shown.area, Rect { x: 10, y: 18, width: 80, height: 3 });
    assert_eq!((shown.title, shown.tone, shown.rounded), ("", Tone::Green, false));
    assert_eq!(body_lines(&shown), ["Copied: x"]);
}
