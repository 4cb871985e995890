use hexgrid::apply_message;
use hexgrid::ButtonTracker;
use hexgrid::InputController;
use hexgrid::Message;

#[test]
fn drag_delta_tracks_the_cursor() {
    let mut input = InputController::new();
    input.begin_drag(100, 200);
    assert_eq!(input.drag_delta(100, 200), (0, 0));
    assert_eq!(input.drag_delta(130, 180), (30, -20));
    assert_eq!(input.drag_delta(130, 180), (0, 0));
    assert_eq!(input.drag_delta(0, 65535), (-130, 65355));
}

#[test]
fn press_edge_fires_once_per_hold() {
    let mut button = ButtonTracker::new();
    assert!(button.press_edge(true));
    assert!(!button.press_edge(true));
    assert!(!button.press_edge(false));
    assert!(button.press_edge(true));
    assert!(!button.press_edge(false));
}

#[test]
fn messages_move_the_counter_by_one() {
    assert_eq!(apply_message(0, Message::IncrementPressed), 1);
    assert_eq!(apply_message(1, Message::DecrementPressed), 0);
    assert_eq!(apply_message(-5, Message::DecrementPressed), -6);
    assert_eq!(apply_message(i32::MAX - 1, Message::IncrementPressed), i32::MAX);
}
