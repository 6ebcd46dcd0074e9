//! What the dialogs show, and where they lie.

use vstd::prelude::*;

use crate::app::{scancel_signal, signal_name, Dialog, DialogView, SIGNAL_COUNT};
use crate::geometry::{
    capped, centered, centered_dialog_area, fits, floored, has_middle, inner_area, lesser, Rect,
};
use crate::text::{
    align_left, count_lines, decimal, decimal_text, left_aligned, line_count, substring, to_chars,
};
use crate::text_input::{
    cursor_column, input_value, scrolled_cells, visual_cursor, visual_scroll,
};
use crate::view::{line_views, piece, Line, SpanView, Tone};

verus! {

/// The width that most dialogs have.
pub const DIALOG_WIDTH: u16 = 80;

/// What becomes of a line that is too long.
#[derive(Clone, Copy, Debug, PartialEq, Eq, Structural)]
pub enum Wrapping {
    /// It is cut off.
    Cut,
    /// It goes on in the next line, without the blanks there.
    Trimmed,
    /// It goes on in the next line.
    Kept,
}

/// What stands in a dialog.
pub enum Body {
    Lines(Vec<Line>),
    Text(String),
}

/// What stands in a dialog.
pub ghost enum BodyView {
    Lines(Seq<Seq<SpanView>>),
    Text(Seq<char>),
}

impl View for Body {
    type V = BodyView;

    open spec fn view(&self) -> BodyView {
        match self {
            Body::Lines(lines) => BodyView::Lines(line_views(lines@)),
            Body::Text(text) => BodyView::Text(text@),
        }
    }
}

/// A dialog as it is drawn.
pub struct DialogBox {
    pub area: Rect,
    pub title: &'static str,
    pub tone: Tone,
    pub rounded: bool,
    pub body: Body,
    pub wrapping: Wrapping,
    /// The column and the row of the cursor.
    pub cursor: Option<(u16, u16)>,
}

/// A dialog as it is drawn.
pub ghost struct DialogBoxView {
    pub area: Rect,
    pub title: Seq<char>,
    pub tone: Tone,
    pub rounded: bool,
    pub body: BodyView,
    pub wrapping: Wrapping,
    pub cursor: Option<(u16, u16)>,
}

impl View for DialogBox {
    type V = DialogBoxView;

    open spec fn view(&self) -> DialogBoxView {
        DialogBoxView {
            area: self.area,
            title: self.title@,
            tone: self.tone,
            rounded: self.rounded,
            body: self.body@,
            wrapping: self.wrapping,
            cursor: self.cursor,
        }
    }
}

// ---------------------------------------------------------------------------------------------
// The choice of a signal
// ---------------------------------------------------------------------------------------------
/// The line of a signal, with its number. The chosen one is set off.
pub open spec fn signal_line(i: int, chosen: bool) -> Seq<SpanView> {
    let (number, name) = if chosen {
        (Tone::ChosenDim, Tone::Chosen)
    } else {
        (Tone::Dim, Tone::Plain)
    };
    seq![piece(decimal((i + 1) as nat) + ". "@, number), piece(signal_name(i), name)]
}

/// The lines of the choice of a signal.
pub open spec fn signal_lines(id: Seq<char>, selected: usize) -> Seq<Seq<SpanView>> {
    seq![
        seq![
            piece("Send signal to job "@, Tone::Plain),
            piece(id, Tone::Bold),
            piece(":"@, Tone::Plain),
        ],
        Seq::empty(),
    ] + Seq::new(SIGNAL_COUNT as nat, |i: int| signal_line(i, i == selected))
}

fn make_signal_line(i: usize, chosen: bool) -> (r: Line)
    requires
        i < SIGNAL_COUNT,
    ensures
        r@ == signal_line(i as int, chosen),
{
    let number = decimal_text(i as u64 + 1).concat(". ");
    let mut line = Line::new();
    if chosen {
        line.add(number.as_str(), Tone::ChosenDim);
        line.add(scancel_signal(i), Tone::Chosen);
    } else {
        line.add(number.as_str(), Tone::Dim);
        line.add(scancel_signal(i), Tone::Plain);
    }
    assert(line@ =~= signal_line(i as int, chosen));
    line
}

/// Makes the lines of the choice of a signal.
pub fn make_signal_lines(id: &str, selected: usize) -> (r: Vec<Line>)
    ensures
        line_views(r@) == signal_lines(id@, selected),
{
    let mut lines: Vec<Line> = Vec::new();
    let mut head = Line::new();
    head.add("Send signal to job ", Tone::Plain);
    head.add(id, Tone::Bold);
    head.add(":", Tone::Plain);
    assert(head@ =~= signal_lines(id@, selected)[0]);
    lines.push(head);
    lines.push(Line::new());
    let mut i: usize = 0;
    assert(line_views(lines@) =~= signal_lines(id@, selected).take(2));
    while i < SIGNAL_COUNT
        invariant
            i <= SIGNAL_COUNT,
            line_views(lines@) == signal_lines(id@, selected).take(i + 2),
        decreases SIGNAL_COUNT - i,
    {
        let ghost before = lines@;
        lines.push(make_signal_line(i, i == selected));
        i += 1;
        assert(line_views(lines@) =~= line_views(before).push(lines@.last()@));
        assert(line_views(lines@) =~= signal_lines(id@, selected).take(i + 2));
    }
    assert(signal_lines(id@, selected).take(i + 2) =~= signal_lines(id@, selected));
    lines
}

// ---------------------------------------------------------------------------------------------
// The time limit
// ---------------------------------------------------------------------------------------------
/// How many cells the words before the time limit take, in the numbers that cells have.
pub open spec fn prompt_width(id: Seq<char>) -> u16 {
    (("Set time limit for job "@.len() + id.len() + ": "@.len()) as int) as u16
}

/// How many cells are left for the time limit; there is always one.
pub open spec fn room_for_limit(id: Seq<char>, viewport: Rect) -> usize {
    let left = floored(centered(DIALOG_WIDTH, 3, viewport).inside().width, prompt_width(id));
    if left < 1 {
        1
    } else {
        left as usize
    }
}

/// The part of a text that is shown: as many characters as there is room for, without the first
/// ones.
pub open spec fn visible(text: Seq<char>, scroll: usize, room: usize) -> Seq<char> {
    if scroll >= text.len() {
        Seq::empty()
    } else if scroll + room >= text.len() {
        text.skip(scroll as int)
    } else {
        text.subrange(scroll as int, scroll + room)
    }
}

/// The cell of the cursor: behind the words and the part of the time limit before it, but inside
/// the dialog.
pub open spec fn limit_cursor(
    id: Seq<char>,
    scroll: usize,
    column: usize,
    viewport: Rect,
) -> (u16, u16) {
    let inner = centered(DIALOG_WIDTH, 3, viewport).inside();
    let behind = if column < scroll {
        0
    } else {
        (column - scroll) as u16
    };
    (
        lesser(
            capped(capped(inner.x, prompt_width(id)), behind),
            capped(inner.x, floored(inner.width, 1)),
        ),
        inner.y,
    )
}

/// The dialog that asks for a time limit, where so many characters of the text are left out on
/// the left and the cursor is in that column of the text.
pub open spec fn limit_drawn(
    id: Seq<char>,
    text: Seq<char>,
    scroll: usize,
    column: usize,
    viewport: Rect,
) -> DialogBoxView {
    DialogBoxView {
        area: centered(DIALOG_WIDTH, 3, viewport),
        title: "─Time Limit"@,
        tone: Tone::Green,
        rounded: true,
        body: BodyView::Lines(
            seq![
                seq![
                    piece("Set time limit for job "@, Tone::Plain),
                    piece(id, Tone::Bold),
                    piece(": "@, Tone::Plain),
                    piece(visible(text, scroll, room_for_limit(id, viewport)), Tone::Blue),
                ],
            ],
        ),
        wrapping: Wrapping::Cut,
        cursor: Some(limit_cursor(id, scroll, column, viewport)),
    }
}

fn measure_prompt(id: &str) -> (r: u16)
    ensures
        r == prompt_width(id@),
{
    let before = to_chars("Set time limit for job ");
    let between = to_chars(id);
    let behind = to_chars(": ");
    let width: u128 = before.len() as u128 + between.len() as u128 + behind.len() as u128;
    #[verifier::truncate]
    (width as u16)
}

/// Finds how many cells are left for the time limit.
pub fn measure_room(id: &str, viewport: Rect) -> (r: usize)
    requires
        has_middle(DIALOG_WIDTH, 3, viewport),
    ensures
        r == room_for_limit(id@, viewport),
{
    let inner = inner_area(centered_dialog_area(DIALOG_WIDTH, 3, viewport));
    let left: u16 = inner.width.saturating_sub(measure_prompt(id));
    if left < 1 {
        1
    } else {
        left as usize
    }
}

/// Gives the part of a text that is shown.
pub fn visible_part(text: &str, scroll: usize, room: usize) -> (r: String)
    ensures
        r@ == visible(text@, scroll, room),
{
    let chars = to_chars(text);
    let len: usize = chars.len();
    let from: usize = if scroll < len {
        scroll
    } else {
        len
    };
    let to: usize = if room < len - from {
        from + room
    } else {
        len
    };
    let part = substring(&chars, from, to);
    assert(part@ =~= visible(text@, scroll, room));
    part
}

/// Makes the dialog that asks for a time limit.
pub fn limit_box(id: &str, text: &str, scroll: usize, column: usize, viewport: Rect) -> (r:
    DialogBox)
    requires
        has_middle(DIALOG_WIDTH, 3, viewport),
    ensures
        r@ == limit_drawn(id@, text@, scroll, column, viewport),
{
    let area = centered_dialog_area(DIALOG_WIDTH, 3, viewport);
    let inner = inner_area(area);
    let room: usize = measure_room(id, viewport);
    let shown = visible_part(text, scroll, room);
    let mut line = Line::new();
    line.add("Set time limit for job ", Tone::Plain);
    line.add(id, Tone::Bold);
    line.add(": ", Tone::Plain);
    line.add(shown.as_str(), Tone::Blue);
    let behind: u16 =
        #[verifier::truncate]
        (column.saturating_sub(scroll) as u16);
    let wanted: u16 = inner.x.saturating_add(measure_prompt(id)).saturating_add(behind);
    let last: u16 = inner.x.saturating_add(inner.width.saturating_sub(1));
    let x: u16 = if wanted <= last {
        wanted
    } else {
        last
    };
    let mut lines: Vec<Line> = Vec::new();
    lines.push(line);
    proof {
        let drawn = limit_drawn(id@, text@, scroll, column, viewport);
        assert(line@ =~= drawn.body->Lines_0[0]);
        assert(line_views(lines@) =~= drawn.body->Lines_0);
    }
    DialogBox {
        area,
        title: "─Time Limit",
        tone: Tone::Green,
        rounded: true,
        body: Body::Lines(lines),
        wrapping: Wrapping::Cut,
        cursor: Some((x, inner.y)),
    }
}

// ---------------------------------------------------------------------------------------------
// The help
// ---------------------------------------------------------------------------------------------
/// How many lines the help has.
pub const HELP_LINES: usize = 8;

/// The widths of the columns of the help.
pub const HELP_KEYS_LEFT: usize = 9;

pub const HELP_MEANINGS_LEFT: usize = 14;

pub const HELP_KEYS_RIGHT: usize = 3;

pub const HELP_MEANINGS_RIGHT: usize = 20;

/// The room between two columns of the help.
pub const HELP_GAP: usize = 2;

/// A line of the help: two keys, each with what it does.
pub open spec fn shortcut(i: int) -> (Seq<char>, Seq<char>, Seq<char>, Seq<char>) {
    if i == 0 {
        ("q"@, "quit"@, "[/]"@, "prev/next tab"@)
    } else if i == 1 {
        ("j/k ⏶/⏷"@, "navigate"@, "/"@, "search"@)
    } else if i == 2 {
        ("pgup/down"@, "scroll"@, "c/C"@, "cancel/signal"@)
    } else if i == 3 {
        ("home/end"@, "top/bottom"@, "t"@, "set time limit"@)
    } else if i == 4 {
        ("w"@, "toggle wrap"@, "o"@, "toggle stdout/stderr"@)
    } else if i == 5 {
        ("p"@, "partition/qos"@, "a"@, "expand/collapse"@)
    } else if i == 6 {
        ("r"@, "reverse order"@, "y"@, "yank path"@)
    } else {
        ("?"@, "show/hide help"@, ""@, ""@)
    }
}

/// The pieces of a line of the help.
pub open spec fn help_line(i: int) -> Seq<SpanView> {
    let (k1, d1, k2, d2) = shortcut(i);
    seq![
        piece(left_aligned(k1, (HELP_KEYS_LEFT + HELP_GAP) as nat), Tone::Blue),
        piece(left_aligned(d1, (HELP_MEANINGS_LEFT + HELP_GAP) as nat), Tone::LightBlue),
        piece(left_aligned(k2, (HELP_KEYS_RIGHT + HELP_GAP) as nat), Tone::Blue),
        piece(d2, Tone::LightBlue),
    ]
}

/// The columns of the help are as wide as the longest of their texts.
pub proof fn law_help_columns_are_as_wide_as_needed(i: int)
    requires
        0 <= i < HELP_LINES,
    ensures
        shortcut(i).0.len() <= HELP_KEYS_LEFT && shortcut(2).0.len() == HELP_KEYS_LEFT,
        shortcut(i).1.len() <= HELP_MEANINGS_LEFT && shortcut(7).1.len() == HELP_MEANINGS_LEFT,
        shortcut(i).2.len() <= HELP_KEYS_RIGHT && shortcut(0).2.len() == HELP_KEYS_RIGHT,
        shortcut(i).3.len() <= HELP_MEANINGS_RIGHT && shortcut(4).3.len() == HELP_MEANINGS_RIGHT,
{
    reveal_strlit("q");
    reveal_strlit("quit");
    reveal_strlit("[/]");
    reveal_strlit("prev/next tab");
    reveal_strlit("j/k ⏶/⏷");
    reveal_strlit("navigate");
    reveal_strlit("/");
    reveal_strlit("search");
    reveal_strlit("pgup/down");
    reveal_strlit("scroll");
    reveal_strlit("c/C");
    reveal_strlit("cancel/signal");
    reveal_strlit("home/end");
    reveal_strlit("top/bottom");
    reveal_strlit("t");
    reveal_strlit("set time limit");
    reveal_strlit("w");
    reveal_strlit("toggle wrap");
    reveal_strlit("o");
    reveal_strlit("toggle stdout/stderr");
    reveal_strlit("p");
    reveal_strlit("partition/qos");
    reveal_strlit("a");
    reveal_strlit("expand/collapse");
    reveal_strlit("r");
    reveal_strlit("reverse order");
    reveal_strlit("y");
    reveal_strlit("yank path");
    reveal_strlit("?");
    reveal_strlit("show/hide help");
    reveal_strlit("");
}

fn shortcut_texts(i: usize) -> (r: (&'static str, &'static str, &'static str, &'static str))
    ensures
        (r.0@, r.1@, r.2@, r.3@) == shortcut(i as int),
{
    if i == 0 {
        ("q", "quit", "[/]", "prev/next tab")
    } else if i == 1 {
        ("j/k ⏶/⏷", "navigate", "/", "search")
    } else if i == 2 {
        ("pgup/down", "scroll", "c/C", "cancel/signal")
    } else if i == 3 {
        ("home/end", "top/bottom", "t", "set time limit")
    } else if i == 4 {
        ("w", "toggle wrap", "o", "toggle stdout/stderr")
    } else if i == 5 {
        ("p", "partition/qos", "a", "expand/collapse")
    } else if i == 6 {
        ("r", "reverse order", "y", "yank path")
    } else {
        ("?", "show/hide help", "", "")
    }
}

/// Makes the lines of the help.
pub fn make_help_lines() -> (r: Vec<Line>)
    ensures
        line_views(r@) == Seq::new(HELP_LINES as nat, |i: int| help_line(i)),
{
    let mut lines: Vec<Line> = Vec::new();
    let mut i: usize = 0;
    while i < HELP_LINES
        invariant
            i <= HELP_LINES,
            line_views(lines@) == Seq::new(i as nat, |j: int| help_line(j)),
        decreases HELP_LINES - i,
    {
        let (k1, d1, k2, d2) = shortcut_texts(i);
        let mut line = Line::new();
        line.add(align_left(k1, HELP_KEYS_LEFT + HELP_GAP).as_str(), Tone::Blue);
        line.add(align_left(d1, HELP_MEANINGS_LEFT + HELP_GAP).as_str(), Tone::LightBlue);
        line.add(align_left(k2, HELP_KEYS_RIGHT + HELP_GAP).as_str(), Tone::Blue);
        line.add(d2, Tone::LightBlue);
        assert(line@ =~= help_line(i as int));
        let ghost before = lines@;
        lines.push(line);
        i += 1;
        assert(line_views(lines@) =~= line_views(before).push(line@));
    }
    lines
}

// ---------------------------------------------------------------------------------------------
// The other dialogs
// ---------------------------------------------------------------------------------------------
/// The text of the dialog that tells of a command that failed.
pub open spec fn error_text(command: Seq<char>, output: Seq<char>) -> Seq<char> {
    "Command: "@ + command + "\n\n"@ + output
}

/// How many lines the dialog that tells of a command has: those of its text, and the border.
pub open spec fn error_height(text: Seq<char>) -> u16 {
    if line_count(text) + 2 > u16::MAX {
        u16::MAX
    } else {
        (line_count(text) + 2) as u16
    }
}

/// A line of the choice of what to copy.
pub open spec fn yank_line(key: Seq<char>, meaning: Seq<char>) -> Seq<SpanView> {
    seq![piece(key, Tone::Blue), piece(meaning, Tone::LightBlue)]
}

/// The width and the height that a dialog asks for.
pub open spec fn dialog_size(dialog: DialogView) -> (u16, u16) {
    match dialog {
        DialogView::ConfirmCancelJob(id) => (DIALOG_WIDTH, 3),
        DialogView::SelectCancelSignal { id, selected_signal } => (
            DIALOG_WIDTH,
            (SIGNAL_COUNT + 4) as u16,
        ),
        DialogView::EditTimeLimit { id, input } => (DIALOG_WIDTH, 3),
        DialogView::CommandError { command, output } => (
            DIALOG_WIDTH,
            error_height(error_text(command, output)),
        ),
        DialogView::HelpPopup => (
            (HELP_KEYS_LEFT + HELP_GAP + HELP_MEANINGS_LEFT + HELP_GAP + HELP_KEYS_RIGHT + HELP_GAP
                + HELP_MEANINGS_RIGHT + 2) as u16,
            (HELP_LINES + 2) as u16,
        ),
        DialogView::YankPopup => (20, 5),
        DialogView::YankResult(text) => (DIALOG_WIDTH, 3),
    }
}

/// A dialog as it is drawn.
pub open spec fn drawn(dialog: DialogView, viewport: Rect) -> DialogBoxView {
    let size = dialog_size(dialog);
    let area = centered(size.0, size.1, viewport);
    match dialog {
        DialogView::ConfirmCancelJob(id) => DialogBoxView {
            area,
            title: "─Cancel"@,
            tone: Tone::Green,
            rounded: true,
            body: BodyView::Lines(
                seq![
                    seq![
                        piece("Cancel job "@, Tone::Plain),
                        piece(id, Tone::Bold),
                        piece("?"@, Tone::Plain),
                    ],
                ],
            ),
            wrapping: Wrapping::Trimmed,
            cursor: None,
        },
        DialogView::SelectCancelSignal { id, selected_signal } => DialogBoxView {
            area,
            title: "─Signal"@,
            tone: Tone::Green,
            rounded: true,
            body: BodyView::Lines(signal_lines(id, selected_signal)),
            wrapping: Wrapping::Trimmed,
            cursor: None,
        },
        DialogView::EditTimeLimit { id, input } => limit_drawn(
            id,
            input.text,
            scrolled_cells(
                input.text,
                input.cursor,
                room_for_limit(id, viewport) as nat,
            ) as usize,
            cursor_column(input.text, input.cursor) as usize,
            viewport,
        ),
        DialogView::CommandError { command, output } => DialogBoxView {
            area,
            title: "─Command Error"@,
            tone: Tone::Red,
            rounded: true,
            body: BodyView::Text(error_text(command, output)),
            wrapping: Wrapping::Kept,
            cursor: None,
        },
        DialogView::HelpPopup => DialogBoxView {
            area,
            title: "Keybindings"@,
            tone: Tone::Blue,
            rounded: false,
            body: BodyView::Lines(Seq::new(HELP_LINES as nat, |i: int| help_line(i))),
            wrapping: Wrapping::Cut,
            cursor: None,
        },
        DialogView::YankPopup => DialogBoxView {
            area,
            title: "Yank"@,
            tone: Tone::Blue,
            rounded: false,
            body: BodyView::Lines(
                seq![
                    yank_line("o"@, "  stdout path"@),
                    yank_line("s"@, "  stderr path"@),
                    yank_line("i"@, "  job id"@),
                ],
            ),
            wrapping: Wrapping::Cut,
            cursor: None,
        },
        DialogView::YankResult(text) => DialogBoxView {
            area,
            title: ""@,
            tone: Tone::Green,
            rounded: false,
            body: BodyView::Lines(seq![seq![piece(text, Tone::Plain)]]),
            wrapping: Wrapping::Cut,
            cursor: None,
        },
    }
}

fn make_yank_line(key: &str, meaning: &str) -> (r: Line)
    ensures
        r@ == yank_line(key@, meaning@),
{
    let mut line = Line::new();
    line.add(key, Tone::Blue);
    line.add(meaning, Tone::LightBlue);
    assert(line@ =~= yank_line(key@, meaning@));
    line
}

/// A dialog with one line.
fn lone_line(line: Line) -> (r: Body)
    ensures
        r@ == BodyView::Lines(seq![line@]),
{
    let mut lines: Vec<Line> = Vec::new();
    lines.push(line);
    assert(line_views(lines@) =~= seq![line@]);
    Body::Lines(lines)
}

/// Makes the dialog that asks whether to cancel a job.
fn cancel_box(id: &str, viewport: Rect) -> (r: DialogBox)
    requires
        has_middle(DIALOG_WIDTH, 3, viewport),
    ensures
        r@ == drawn(DialogView::ConfirmCancelJob(id@), viewport),
{
    let mut line = Line::new();
    line.add("Cancel job ", Tone::Plain);
    line.add(id, Tone::Bold);
    line.add("?", Tone::Plain);
    assert(line@ =~= seq![
        piece("Cancel job "@, Tone::Plain),
        piece(id@, Tone::Bold),
        piece("?"@, Tone::Plain),
    ]);
    DialogBox {
        area: centered_dialog_area(DIALOG_WIDTH, 3, viewport),
        title: "─Cancel",
        tone: Tone::Green,
        rounded: true,
        body: lone_line(line),
        wrapping: Wrapping::Trimmed,
        cursor: None,
    }
}

/// Makes the dialog that tells of a command that failed.
pub fn error_box(command: &str, output: &str, viewport: Rect) -> (r: DialogBox)
    requires
        has_middle(DIALOG_WIDTH, error_height(error_text(command@, output@)), viewport),
    ensures
        r@ == drawn(DialogView::CommandError { command: command@, output: output@ }, viewport),
{
    let text = "Command: ".to_owned().concat(command).concat("\n\n").concat(output);
    let lines: usize = count_lines(text.as_str()).saturating_add(2);
    let height: u16 = if lines > 65535 {
        65535
    } else {
        lines as u16
    };
    DialogBox {
        area: centered_dialog_area(DIALOG_WIDTH, height, viewport),
        title: "─Command Error",
        tone: Tone::Red,
        rounded: true,
        body: Body::Text(text),
        wrapping: Wrapping::Kept,
        cursor: None,
    }
}

/// Makes the dialog that asks what to copy.
fn yank_box(viewport: Rect) -> (r: DialogBox)
    requires
        has_middle(20, 5, viewport),
    ensures
        r@ == drawn(DialogView::YankPopup, viewport),
{
    let mut lines: Vec<Line> = Vec::new();
    lines.push(make_yank_line("o", "  stdout path"));
    lines.push(make_yank_line("s", "  stderr path"));
    lines.push(make_yank_line("i", "  job id"));
    assert(line_views(lines@) =~= seq![
        yank_line("o"@, "  stdout path"@),
        yank_line("s"@, "  stderr path"@),
        yank_line("i"@, "  job id"@),
    ]);
    DialogBox {
        area: centered_dialog_area(20, 5, viewport),
        title: "Yank",
        tone: Tone::Blue,
        rounded: false,
        body: Body::Lines(lines),
        wrapping: Wrapping::Cut,
        cursor: None,
    }
}

/// Makes a dialog as it is drawn.
pub fn dialog_box(dialog: &Dialog, viewport: Rect) -> (r: DialogBox)
    requires
        has_middle(dialog_size(dialog@).0, dialog_size(dialog@).1, viewport),
    ensures
        r@ == drawn(dialog@, viewport),
        dialog@ matches DialogView::EditTimeLimit { id, input } ==> {
            let column = cursor_column(input.text, input.cursor);
            column <= room_for_limit(id, viewport) ==> r@ == limit_drawn(
                id,
                input.text,
                0,
                column as usize,
                viewport,
            )
        },
{
    match dialog {
        Dialog::ConfirmCancelJob(id) => cancel_box(id.as_str(), viewport),
        Dialog::SelectCancelSignal { id, selected_signal } => DialogBox {
            area: centered_dialog_area(DIALOG_WIDTH, SIGNAL_COUNT as u16 + 4, viewport),
            title: "─Signal",
            tone: Tone::Green,
            rounded: true,
            body: Body::Lines(make_signal_lines(id.as_str(), *selected_signal)),
            wrapping: Wrapping::Trimmed,
            cursor: None,
        },
        Dialog::EditTimeLimit { id, input } => {
            let room: usize = measure_room(id.as_str(), viewport);
            let scroll: usize = visual_scroll(input, room);
            let column: usize = visual_cursor(input);
            limit_box(id.as_str(), input_value(input), scroll, column, viewport)
        },
        Dialog::CommandError { command, output } => error_box(
            command.as_str(),
            output.as_str(),
            viewport,
        ),
        Dialog::HelpPopup => {
            let content: usize = HELP_KEYS_LEFT + HELP_GAP + HELP_MEANINGS_LEFT + HELP_GAP
                + HELP_KEYS_RIGHT + HELP_GAP + HELP_MEANINGS_RIGHT;
            DialogBox {
                area: centered_dialog_area(content as u16 + 2, HELP_LINES as u16 + 2, viewport),
                title: "Keybindings",
                tone: Tone::Blue,
                rounded: false,
                body: Body::Lines(make_help_lines()),
                wrapping: Wrapping::Cut,
                cursor: None,
            }
        },
        Dialog::YankPopup => yank_box(viewport),
        Dialog::YankResult(text) => {
            let mut line = Line::new();
            line.add(text.as_str(), Tone::Plain);
            assert(line@ =~= seq![piece(text@, Tone::Plain)]);
            DialogBox {
                area: centered_dialog_area(DIALOG_WIDTH, 3, viewport),
                title: "",
                tone: Tone::Green,
                rounded: false,
                body: lone_line(line),
                wrapping: Wrapping::Cut,
                cursor: None,
            }
        },
    }
}

/// The cursor stands inside the dialog, as far as that has room for it.
pub proof fn law_cursor_stays_in_the_dialog(
    id: Seq<char>,
    scroll: usize,
    column: usize,
    viewport: Rect,
)
    requires
        fits(viewport),
    ensures
        ({
            let inner = centered(DIALOG_WIDTH, 3, viewport).inside();
            let (x, y) = limit_cursor(id, scroll, column, viewport);
            inner.width > 0 && inner.height > 0 ==> inner.covers(x, y)
        }),
{
}

/// No more of a text is shown than there is room for, and where all of it has room and none is
/// left out, all of it is shown.
pub proof fn law_visible_part_fits(text: Seq<char>, scroll: usize, room: usize)
    ensures
        visible(text, scroll, room).len() <= room,
        scroll == 0 && text.len() <= room ==> visible(text, scroll, room) == text,
{
    assert(text.skip(0) =~= text);
}

} // verus!
