use command_lines::editor::{
    direction_of, key_action, Direction, Editor, EditorKey, KeyAction, KeyOutcome, TerminalCommand,
    WindowSize,
};

fn type_char(ed: &mut Editor, c: char, w: WindowSize) {
    assert!(ed.can_insert_char(w));
    ed.insert_char(c, w);
}

#[test]
fn new_editor_starts_at_the_given_position() {
    let ed = Editor::new(80, 24, 3, 5);
    assert_eq!(ed.get_cursor(), (3, 5));
}

#[test]
fn current_position_then_get_cursor() {
    let mut ed = Editor::new(80, 24, 0, 0);
    ed.current_position((7, 2));
    assert_eq!(ed.get_cursor(), (7, 2));
    ed.start_position((1, 1));
    assert_eq!(ed.get_cursor(), (7, 2));
}

#[test]
fn typing_and_moving() {
    let w = WindowSize { width: 8, height: 8 };
    let mut ed = Editor::new(80, 24, 0, 0);
    type_char(&mut ed, 'a', w);
    assert_eq!(ed.get_cursor(), (1, 0));
    type_char(&mut ed, 'b', w);
    assert_eq!(ed.get_cursor(), (2, 0));
    assert!(ed.can_move_cursor(Direction::Left, w));
    ed.manual_move_cursor(Direction::Left, w);
    assert_eq!(ed.get_cursor(), (1, 0));
    type_char(&mut ed, 'X', w);
    assert_eq!(ed.get_cursor(), (2, 0));
    assert!(ed.can_move_cursor(Direction::Right, w));
    ed.manual_move_cursor(Direction::Right, w);
    assert_eq!(ed.get_cursor(), (3, 0));
    // At the end of the last line, moving right changes nothing.
    assert!(ed.can_move_cursor(Direction::Right, w));
    ed.manual_move_cursor(Direction::Right, w);
    assert_eq!(ed.get_cursor(), (3, 0));
    // Up and down change nothing.
    ed.manual_move_cursor(Direction::Up, w);
    ed.manual_move_cursor(Direction::Down, w);
    assert_eq!(ed.get_cursor(), (3, 0));
    assert!(ed.can_render_frame(w));
    let cmds = ed.render_frame(w);
    assert_eq!(
        cmds,
        vec![
            TerminalCommand::MoveTo(0, 0),
            TerminalCommand::ClearFromCursorDown,
            TerminalCommand::Print("aXb".to_string()),
            TerminalCommand::MoveTo(3, 0),
        ]
    );
}

#[test]
fn typing_past_the_last_column_scrolls() {
    let w = WindowSize { width: 3, height: 2 };
    let mut ed = Editor::new(3, 2, 0, 1);
    type_char(&mut ed, 'a', w);
    type_char(&mut ed, 'b', w);
    assert_eq!(ed.get_cursor(), (2, 1));
    type_char(&mut ed, 'c', w);
    assert_eq!(ed.get_cursor(), (0, 1));
    assert!(ed.can_render_frame(w));
    let cmds = ed.render_frame(w);
    assert_eq!(
        cmds,
        vec![
            TerminalCommand::MoveUp(1),
            TerminalCommand::MoveTo(0, 1),
            TerminalCommand::ClearFromCursorDown,
            TerminalCommand::MoveUp(1),
            TerminalCommand::Print("abc".to_string()),
            TerminalCommand::MoveTo(0, 1),
        ]
    );
    // The scroll is spent: the next frame has no leading move.
    let again = ed.render_frame(w);
    assert_eq!(again[0], TerminalCommand::MoveTo(0, 1));
}

#[test]
fn typing_beyond_the_line_is_refused() {
    let w = WindowSize { width: 3, height: 2 };
    let mut ed = Editor::new(3, 2, 0, 1);
    ed.current_position((2, 1));
    assert!(!ed.can_insert_char(w));
}

#[test]
fn typing_in_a_fresh_editor_starts_at_the_start_column() {
    let w = WindowSize { width: 80, height: 24 };
    let mut ed = Editor::new(80, 24, 5, 0);
    type_char(&mut ed, 'a', w);
    assert_eq!(ed.get_cursor(), (6, 0));
    type_char(&mut ed, 'b', w);
    assert_eq!(ed.get_cursor(), (7, 0));
    assert!(ed.can_render_frame(w));
    let cmds = ed.render_frame(w);
    assert_eq!(
        cmds,
        vec![
            TerminalCommand::MoveTo(5, 0),
            TerminalCommand::ClearFromCursorDown,
            TerminalCommand::Print("ab".to_string()),
            TerminalCommand::MoveTo(7, 0),
        ]
    );
    // Moving left stops at the start column, where the text begins.
    ed.manual_move_cursor(Direction::Left, w);
    ed.manual_move_cursor(Direction::Left, w);
    assert_eq!(ed.get_cursor(), (5, 0));
    ed.manual_move_cursor(Direction::Left, w);
    assert_eq!(ed.get_cursor(), (5, 0));
    type_char(&mut ed, 'X', w);
    let cmds = ed.render_frame(w);
    assert_eq!(cmds[2], TerminalCommand::Print("Xab".to_string()));
}

#[test]
fn typing_wraps_to_the_next_row() {
    // Six characters in a window three wide take two rows, counted from the
    // cursor row, which is the last one: the frame moves up by two.
    let w = WindowSize { width: 3, height: 3 };
    let mut ed = Editor::new(3, 3, 0, 0);
    for c in ['a', 'b', 'c', 'd', 'e'] {
        type_char(&mut ed, c, w);
    }
    assert_eq!(ed.get_cursor(), (2, 1));
    type_char(&mut ed, 'f', w);
    assert_eq!(ed.get_cursor(), (0, 2));
    let cmds = ed.render_frame(w);
    assert_eq!(
        cmds,
        vec![
            TerminalCommand::MoveTo(0, 0),
            TerminalCommand::ClearFromCursorDown,
            TerminalCommand::MoveUp(2),
            TerminalCommand::Print("abcdef".to_string()),
            TerminalCommand::MoveTo(0, 2),
        ]
    );
}

#[test]
fn zero_sized_window_is_refused() {
    let w = WindowSize { width: 0, height: 0 };
    let ed = Editor::new(80, 24, 0, 0);
    assert!(!ed.can_insert_char(w));
}

#[test]
fn moving_left_from_the_first_column_stays() {
    let w = WindowSize { width: 8, height: 8 };
    let mut ed = Editor::new(80, 24, 0, 0);
    assert!(ed.can_move_cursor(Direction::Left, w));
    ed.manual_move_cursor(Direction::Left, w);
    assert_eq!(ed.get_cursor(), (0, 0));
    // On an empty buffer there is no line to move right in.
    assert!(!ed.can_move_cursor(Direction::Right, w));
    assert!(ed.can_move_cursor(Direction::Up, w));
    // Off the start row, the first column is a boundary too.
    ed.current_position((0, 3));
    ed.manual_move_cursor(Direction::Left, w);
    assert_eq!(ed.get_cursor(), (0, 3));
}

#[test]
fn keys_map_to_actions() {
    assert!(key_action(EditorKey::Char { c: 'c', control_only: true }) == KeyAction::Quit);
    assert!(key_action(EditorKey::Char { c: 'c', control_only: false }) == KeyAction::Insert('c'));
    assert!(key_action(EditorKey::Char { c: 'x', control_only: true }) == KeyAction::Insert('x'));
    assert!(key_action(EditorKey::Left) == KeyAction::Move(Direction::Left));
    assert!(key_action(EditorKey::Other) == KeyAction::Ignore);
    assert!(direction_of(EditorKey::Up) == Direction::Up);
    assert!(direction_of(EditorKey::Other) == Direction::Unknown);
}

#[test]
fn handling_keys_types_moves_draws_and_quits() {
    let w = WindowSize { width: 80, height: 24 };
    let mut ed = Editor::new(80, 24, 0, 0);
    let out = ed.handle_key(EditorKey::Char { c: 'h', control_only: false }, w);
    assert_eq!(
        out,
        KeyOutcome::Frame(vec![
            TerminalCommand::MoveTo(0, 0),
            TerminalCommand::ClearFromCursorDown,
            TerminalCommand::Print("h".to_string()),
            TerminalCommand::MoveTo(1, 0),
        ])
    );
    let out = ed.handle_key(EditorKey::Left, w);
    assert_eq!(
        out,
        KeyOutcome::Frame(vec![
            TerminalCommand::MoveTo(0, 0),
            TerminalCommand::ClearFromCursorDown,
            TerminalCommand::Print("h".to_string()),
            TerminalCommand::MoveTo(0, 0),
        ])
    );
    assert_eq!(ed.handle_key(EditorKey::Other, w), ed.handle_key(EditorKey::Up, w));
    assert_eq!(ed.handle_key(EditorKey::Char { c: 'c', control_only: true }, w), KeyOutcome::Quit);
    assert_eq!(ed.get_cursor(), (0, 0));
}

#[test]
fn handling_a_key_that_cannot_be_carried_out_changes_nothing() {
    let w = WindowSize { width: 80, height: 24 };
    let mut ed = Editor::new(80, 24, 0, 0);
    // No line yet: there is nothing to move right in.
    assert_eq!(ed.handle_key(EditorKey::Right, w), KeyOutcome::CannotApply);
    ed.current_position((4, 0));
    assert_eq!(
        ed.handle_key(EditorKey::Char { c: 'x', control_only: false }, w),
        KeyOutcome::CannotApply
    );
    assert_eq!(ed.get_cursor(), (4, 0));
    let zero = WindowSize { width: 0, height: 0 };
    assert_eq!(ed.handle_key(EditorKey::Up, zero), KeyOutcome::Frame(vec![
        TerminalCommand::MoveTo(0, 0),
        TerminalCommand::ClearFromCursorDown,
        TerminalCommand::MoveTo(4, 0),
    ]));
}
