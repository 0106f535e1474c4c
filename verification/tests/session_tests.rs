use rust_typer::check_char;
use rust_typer::session::Action;
use rust_typer::session::KeyEvent;
use rust_typer::session::Session;
use rust_typer::session::SessionState;
use rust_typer::session::backspace_move;
use rust_typer::session::logical_to_physical;
use rust_typer::Mark;

#[test]
fn perfect_run_cat_sat() {
    // Target "cat sat": typing every character correctly judges every
    // position correct and finishes the session with the cursor at 7.
    let mut s = Session::start(String::from("cat sat"));
    s.begin();
    assert_eq!(s.state(), SessionState::AwaitingInput);
    for (i, c) in "cat sat".chars().enumerate() {
        let action = s.on_key(KeyEvent::Character(c), i as u16, 0, 80);
        assert_eq!(action, Action::Draw(c, true));
    }
    assert_eq!(s.state(), SessionState::Finished);
    assert_eq!(s.cursor(), 7);
    let record = s.filled_record();
    assert_eq!(record.len(), 7);
    assert!(record.iter().all(|m| *m == Mark::Correct));
}

#[test]
fn wrong_then_right() {
    // Target "ab": a miss then a hit leave the record [incorrect, correct].
    let mut s = Session::start(String::from("ab"));
    s.begin();
    let a1 = s.on_key(KeyEvent::Character('x'), 0, 0, 80);
    // The action draws the expected character, not the typed one.
    assert_eq!(a1, Action::Draw('a', false));
    let a2 = s.on_key(KeyEvent::Character('b'), 1, 0, 80);
    assert_eq!(a2, Action::Draw('b', true));
    assert_eq!(s.state(), SessionState::Finished);
    assert_eq!(s.filled_record(), vec![Mark::Incorrect, Mark::Correct]);
}

#[test]
fn backspace_at_origin_is_noop() {
    let mut s = Session::start(String::from("abc"));
    s.begin();
    let action = s.on_key(KeyEvent::Backspace, 0, 0, 80);
    assert_eq!(action, Action::Stay);
    assert_eq!(s.cursor(), 0);
    assert!(s.record().iter().all(|m| *m == Mark::Unset));
    assert_eq!(s.state(), SessionState::AwaitingInput);
}

#[test]
fn backspace_is_navigation_only() {
    // Backspacing over a judged character does not clear its verdict.
    let mut s = Session::start(String::from("abc"));
    s.begin();
    s.on_key(KeyEvent::Character('a'), 0, 0, 80);
    s.on_key(KeyEvent::Character('x'), 1, 0, 80);
    let action = s.on_key(KeyEvent::Backspace, 2, 0, 80);
    assert_eq!(action, Action::MoveTo(1, 0));
    assert_eq!(s.cursor(), 1);
    assert_eq!(s.record()[1], Mark::Incorrect);
    // Retyping the position overwrites the old verdict.
    s.on_key(KeyEvent::Character('b'), 1, 0, 80);
    assert_eq!(s.record()[1], Mark::Correct);
}

#[test]
fn escape_finishes_with_filled_prefix() {
    let mut s = Session::start(String::from("abc"));
    s.begin();
    s.on_key(KeyEvent::Character('a'), 0, 0, 80);
    let action = s.on_key(KeyEvent::Escape, 1, 0, 80);
    assert_eq!(action, Action::Stay);
    assert_eq!(s.state(), SessionState::Finished);
    assert_eq!(s.cursor(), 1);
    // Only the judged prefix is handed to the evaluation.
    assert_eq!(s.filled_record(), vec![Mark::Correct]);
    assert_eq!(s.record()[1], Mark::Unset);
    assert_eq!(s.record()[2], Mark::Unset);
}

#[test]
fn other_keys_change_nothing() {
    let mut s = Session::start(String::from("ab"));
    s.begin();
    let action = s.on_key(KeyEvent::Other, 0, 0, 80);
    assert_eq!(action, Action::Stay);
    assert_eq!(s.cursor(), 0);
    assert_eq!(s.state(), SessionState::AwaitingInput);
}

#[test]
fn empty_target_finishes_at_begin() {
    let mut s = Session::start(String::new());
    assert_eq!(s.state(), SessionState::Rendering);
    s.begin();
    assert_eq!(s.state(), SessionState::Finished);
    assert_eq!(s.filled_record(), Vec::<Mark>::new());
}

#[test]
fn wrap_positions_width_four() {
    // Target "abcdef" on a terminal 4 columns wide: after 5 characters
    // the cursor sits at (1, 1).
    assert_eq!(logical_to_physical(5, 4), (1, 1));
    // One backspace moves within the row, the next wraps to the end of
    // the row above.
    assert_eq!(backspace_move(1, 1, 4), Some((0, 1)));
    assert_eq!(backspace_move(0, 1, 4), Some((3, 0)));
    // At the top-left corner there is nowhere to go.
    assert_eq!(backspace_move(0, 0, 4), None);
}

#[test]
fn backspace_across_wrap_in_session() {
    // Type five characters of "abcdef" on a width-4 terminal, then
    // backspace twice: the physical cursor retreats to (0,1), then
    // wraps to (3,0).
    let mut s = Session::start(String::from("abcdef"));
    s.begin();
    for (i, c) in "abcde".chars().enumerate() {
        let (x, y) = logical_to_physical(i, 4);
        s.on_key(KeyEvent::Character(c), x, y, 4);
    }
    let (x, y) = logical_to_physical(5, 4);
    assert_eq!((x, y), (1, 1));
    let a1 = s.on_key(KeyEvent::Backspace, x, y, 4);
    assert_eq!(a1, Action::MoveTo(0, 1));
    let a2 = s.on_key(KeyEvent::Backspace, 0, 1, 4);
    assert_eq!(a2, Action::MoveTo(3, 0));
    assert_eq!(s.cursor(), 3);
}

#[test]
fn check_char_judges_against_target() {
    assert_eq!(check_char('a', 0, "ab"), Some(true));
    assert_eq!(check_char('b', 0, "ab"), Some(false));
    assert_eq!(check_char('b', 1, "ab"), Some(true));
    assert_eq!(check_char('a', 2, "ab"), None);
}

#[test]
fn target_text_is_kept() {
    let s = Session::start(String::from("hello"));
    assert_eq!(s.target_text(), "hello");
    assert_eq!(s.record().len(), 5);
}
