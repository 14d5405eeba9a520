use draw::canvas::{Canvas, Point};
use draw::event::{
    event_capture, screen_size, text_capture, Action, Command, Editor, Event, KeyCode, KeyEvent,
    KeyEventKind, KeyModifiers, TextStatus,
};

const PLAIN: KeyModifiers = KeyModifiers { shift: false, control: false, alt: false, other: false };
const CONTROL: KeyModifiers = KeyModifiers { shift: false, control: true, alt: false, other: false };

fn press(code: KeyCode) -> Event {
    Event::Key(KeyEvent { code, modifiers: PLAIN, kind: KeyEventKind::Press })
}

fn release(code: KeyCode) -> Event {
    Event::Key(KeyEvent { code, modifiers: PLAIN, kind: KeyEventKind::Release })
}

fn control(code: KeyCode) -> Event {
    Event::Key(KeyEvent { code, modifiers: CONTROL, kind: KeyEventKind::Press })
}

fn editor_with(width: usize, height: usize) -> Editor {
    let mut e = Editor::new(Point { x: 40, y: 20 });
    e.install(Canvas::new(width, height).unwrap());
    e
}

fn pixels(e: &Editor) -> Vec<bool> {
    e.canvas.as_ref().unwrap().pixels.clone()
}

#[test]
fn draw_held_while_moving_right_twice() {
    let mut e = editor_with(4, 4);
    event_capture(&mut e, &press(KeyCode::Insert));
    event_capture(&mut e, &press(KeyCode::Right));
    event_capture(&mut e, &press(KeyCode::Right));
    let mut expected = vec![false; 16];
    expected[0] = true;
    expected[1] = true;
    expected[2] = true;
    assert_eq!(pixels(&e), expected);
    assert_eq!(e.action, Action::Draw);
}

#[test]
fn release_then_erase_clears_visited_pixels() {
    let mut e = editor_with(4, 4);
    event_capture(&mut e, &press(KeyCode::Insert));
    event_capture(&mut e, &press(KeyCode::Right));
    event_capture(&mut e, &press(KeyCode::Right));
    event_capture(&mut e, &release(KeyCode::Insert));
    assert_eq!(e.action, Action::Idle);
    event_capture(&mut e, &press(KeyCode::Delete));
    event_capture(&mut e, &press(KeyCode::Left));
    let mut expected = vec![false; 16];
    expected[0] = true;
    assert_eq!(pixels(&e), expected);
}

#[test]
fn repeated_press_of_held_key_does_not_toggle_again() {
    let mut e = editor_with(2, 2);
    event_capture(&mut e, &press(KeyCode::Char(' ')));
    assert_eq!(pixels(&e), vec![true, false, false, false]);
    event_capture(&mut e, &press(KeyCode::Char(' ')));
    assert_eq!(pixels(&e), vec![true, false, false, false]);
    event_capture(&mut e, &press(KeyCode::Down));
    assert_eq!(pixels(&e), vec![true, false, true, false]);
}

#[test]
fn moves_without_sticky_action_leave_pixels() {
    let mut e = editor_with(3, 3);
    event_capture(&mut e, &press(KeyCode::Down));
    event_capture(&mut e, &press(KeyCode::Up));
    event_capture(&mut e, &press(KeyCode::Up));
    assert_eq!(e.canvas.as_ref().unwrap().cursor, Point { x: 0, y: 2 });
    assert_eq!(pixels(&e), vec![false; 9]);
}

#[test]
fn commands_need_control_alone() {
    let mut e = Editor::new(Point { x: 10, y: 10 });
    assert_eq!(event_capture(&mut e, &control(KeyCode::Char('n'))), Command::New);
    assert_eq!(event_capture(&mut e, &control(KeyCode::Char('o'))), Command::Open);
    assert_eq!(event_capture(&mut e, &control(KeyCode::Char('s'))), Command::NothingToSave);
    assert_eq!(event_capture(&mut e, &control(KeyCode::Char('w'))), Command::NothingToClose);
    assert_eq!(event_capture(&mut e, &control(KeyCode::F(4))), Command::Quit);
    assert_eq!(event_capture(&mut e, &press(KeyCode::Char('n'))), Command::Nothing);
}

#[test]
fn close_discards_the_canvas() {
    let mut e = editor_with(2, 2);
    assert_eq!(event_capture(&mut e, &control(KeyCode::Char('s'))), Command::Save);
    assert!(e.canvas.is_some());
    assert_eq!(event_capture(&mut e, &control(KeyCode::Char('w'))), Command::Closed);
    assert!(e.canvas.is_none());
}

#[test]
fn control_arrow_pans_the_view() {
    let mut e = Editor::new(Point { x: 2, y: 2 });
    e.install(Canvas::new(5, 5).unwrap());
    event_capture(&mut e, &control(KeyCode::Right));
    let c = e.canvas.as_ref().unwrap();
    assert_eq!(c.position, Point { x: 1, y: 0 });
    assert_eq!(c.cursor, Point { x: 1, y: 0 });
}

#[test]
fn resize_refits_the_view() {
    let mut e = Editor::new(Point { x: 10, y: 10 });
    e.install(Canvas::new(8, 8).unwrap());
    e.canvas.as_mut().unwrap().cursor = Point { x: 7, y: 7 };
    assert_eq!(event_capture(&mut e, &Event::Resize(8, 7)), Command::Nothing);
    assert_eq!(e.screen, Point { x: 4, y: 4 });
    let c = e.canvas.as_ref().unwrap();
    assert_eq!(c.position, Point { x: 0, y: 0 });
    assert_eq!(c.cursor, Point { x: 3, y: 3 });
    event_capture(&mut e, &Event::Resize(1, 1));
    assert_eq!(e.screen, Point { x: 4, y: 4 });
}

#[test]
fn screen_size_keeps_rows_for_status_lines() {
    assert_eq!(screen_size(80, 24), Some(Point { x: 40, y: 21 }));
    assert_eq!(screen_size(1, 24), None);
    assert_eq!(screen_size(80, 3), None);
}

#[test]
fn text_capture_edits_commits_and_cancels() {
    let mut e = Editor::new(Point { x: 10, y: 10 });
    let mut text: Vec<char> = Vec::new();
    assert_eq!(text_capture(&mut e, &mut text, &press(KeyCode::Char('4'))), TextStatus::Typing);
    text_capture(&mut e, &mut text, &press(KeyCode::Char('2')));
    text_capture(&mut e, &mut text, &press(KeyCode::Char('x')));
    text_capture(&mut e, &mut text, &press(KeyCode::Backspace));
    text_capture(&mut e, &mut text, &control(KeyCode::Char('y')));
    assert_eq!(text, vec!['4', '2']);
    assert_eq!(text_capture(&mut e, &mut text, &press(KeyCode::Enter)), TextStatus::Commit);
    assert_eq!(text_capture(&mut e, &mut text, &press(KeyCode::Esc)), TextStatus::Cancel);
    let mut empty: Vec<char> = Vec::new();
    text_capture(&mut e, &mut empty, &press(KeyCode::Backspace));
    assert!(empty.is_empty());
}

#[test]
fn shift_arrow_with_invert_held_changes_nothing() {
    let shift = KeyModifiers { shift: true, control: false, alt: false, other: false };
    let mut e = editor_with(3, 3);
    event_capture(&mut e, &press(KeyCode::Char(' ')));
    assert_eq!(pixels(&e), vec![true, false, false, false, false, false, false, false, false]);
    let before = pixels(&e);
    for code in [KeyCode::Right, KeyCode::Down, KeyCode::Left, KeyCode::Up] {
        let ev = Event::Key(KeyEvent { code, modifiers: shift, kind: KeyEventKind::Press });
        assert_eq!(event_capture(&mut e, &ev), Command::Nothing);
    }
    let c = e.canvas.as_ref().unwrap();
    assert_eq!(c.cursor, Point { x: 0, y: 0 });
    assert_eq!(c.position, Point { x: 0, y: 0 });
    assert_eq!(pixels(&e), before);
    assert_eq!(e.action, Action::Invert);
}

#[test]
fn releasing_another_sticky_key_keeps_drawing() {
    let mut e = editor_with(3, 1);
    event_capture(&mut e, &press(KeyCode::Insert));
    event_capture(&mut e, &release(KeyCode::Char(' ')));
    assert_eq!(e.action, Action::Draw);
    event_capture(&mut e, &press(KeyCode::Right));
    assert_eq!(pixels(&e), vec![true, true, false]);
    event_capture(&mut e, &release(KeyCode::Insert));
    assert_eq!(e.action, Action::Idle);
    event_capture(&mut e, &press(KeyCode::Right));
    assert_eq!(pixels(&e), vec![true, true, false]);
}

#[test]
fn moving_start_cycles_through_the_window() {
    let mut e = Editor::new(Point { x: 3, y: 3 });
    e.install(Canvas::new(10, 10).unwrap());
    let expected = [2, 1, 0, 2, 1, 0, 2];
    for x in expected {
        event_capture(&mut e, &press(KeyCode::Left));
        assert_eq!(e.canvas.as_ref().unwrap().cursor, Point { x, y: 0 });
    }
}
