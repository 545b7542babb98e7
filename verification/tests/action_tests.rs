use delete_rest::action::{Action, MoveOrCopy};
use delete_rest::executor::kept_count;

#[test]
fn action_resolution_prefers_copy() {
    let action = Action::new(Some("x".to_owned()), Some("y".to_owned()), true);
    assert!(matches!(
        action,
        Action::MoveOrCopyTo(MoveOrCopy::Copy, d) if d == "x"
    ));
}

#[test]
fn action_resolution_then_move() {
    let action = Action::new(None, Some("y".to_owned()), true);
    assert!(matches!(
        action,
        Action::MoveOrCopyTo(MoveOrCopy::Move, d) if d == "y"
    ));
}

#[test]
fn action_resolution_then_delete() {
    let action = Action::new(None, None, true);
    assert!(matches!(action, Action::Delete));
}

#[test]
fn action_resolution_default_is_copy_to_selected() {
    let action = Action::new(None, None, false);
    assert!(matches!(
        action,
        Action::MoveOrCopyTo(MoveOrCopy::Copy, d) if d == "selected"
    ));
}

#[test]
fn descriptions() {
    assert_eq!(MoveOrCopy::Move.description(), "moved");
    assert_eq!(MoveOrCopy::Copy.description(), "copied");
}

#[test]
fn kept_count_is_the_complement_for_delete() {
    let delete = Action::new(None, None, true);
    let copy = Action::new(Some("x".to_owned()), None, false);
    assert_eq!(kept_count(&delete, 5, 2), 3);
    assert_eq!(kept_count(&delete, 5, 5), 0);
    assert_eq!(kept_count(&copy, 5, 2), 2);
    assert_eq!(kept_count(&copy, 5, 0), 0);
}
