use mandelbrot::view::{MouseButton, SelectionFrame, ViewAction, ViewWindow};

#[test]
fn window_starts_at_the_origin_without_a_selection() {
    let w = ViewWindow::default();
    assert_eq!(w, ViewWindow { selecting: false, top: 0, left: 0, bottom: 0, right: 0 });
    assert_eq!(w.frame(), None);
}

#[test]
fn left_button_down_starts_a_selection_at_the_mouse() {
    let mut w = ViewWindow::default();
    let action = w.mouse_button_down(MouseButton::Left, 30, 40);
    assert_eq!(action, ViewAction::Idle);
    assert_eq!(w, ViewWindow { selecting: true, top: 40, left: 30, bottom: 40, right: 30 });
}

#[test]
fn middle_button_down_asks_for_a_refresh() {
    let mut w = ViewWindow { selecting: true, top: 1, left: 2, bottom: 3, right: 4 };
    let action = w.mouse_button_down(MouseButton::Middle, 30, 40);
    assert_eq!(action, ViewAction::Refresh);
    assert_eq!(w, ViewWindow { selecting: true, top: 1, left: 2, bottom: 3, right: 4 });
}

#[test]
fn other_buttons_are_unhandled() {
    let mut w = ViewWindow { selecting: true, top: 1, left: 2, bottom: 3, right: 4 };
    assert_eq!(w.mouse_button_down(MouseButton::Other, 30, 40), ViewAction::Unhandled);
    assert_eq!(w.mouse_button_up(MouseButton::Other, 30, 40), ViewAction::Unhandled);
    assert_eq!(w, ViewWindow { selecting: true, top: 1, left: 2, bottom: 3, right: 4 });
}

#[test]
fn motion_moves_the_far_corner_during_a_selection_only() {
    let mut w = ViewWindow::default();
    w.mouse_motion(5, 6);
    assert_eq!(w, ViewWindow::default());
    w.mouse_button_down(MouseButton::Left, 30, 40);
    w.mouse_motion(100, 90);
    assert_eq!(w, ViewWindow { selecting: true, top: 40, left: 30, bottom: 90, right: 100 });
}

#[test]
fn left_button_up_zooms_to_the_dragged_rectangle() {
    let mut w = ViewWindow::default();
    w.mouse_button_down(MouseButton::Left, 30, 40);
    w.mouse_motion(100, 90);
    let action = w.mouse_button_up(MouseButton::Left, 101, 91);
    assert_eq!(action, ViewAction::Zoom { left: 30, top: 40, right: 100, bottom: 90 });
    assert_eq!(w, ViewWindow { selecting: false, top: 91, left: 101, bottom: 91, right: 101 });
}

#[test]
fn middle_button_up_does_nothing() {
    let mut w = ViewWindow { selecting: true, top: 1, left: 2, bottom: 3, right: 4 };
    assert_eq!(w.mouse_button_up(MouseButton::Middle, 30, 40), ViewAction::Idle);
    assert_eq!(w, ViewWindow { selecting: true, top: 1, left: 2, bottom: 3, right: 4 });
}

#[test]
fn frame_follows_the_selection() {
    let mut w = ViewWindow::default();
    w.mouse_button_down(MouseButton::Left, 30, 40);
    assert_eq!(w.frame(), Some(SelectionFrame { x: 30, y: 40, w: 0, h: 0 }));
    w.mouse_motion(100, 90);
    assert_eq!(w.frame(), Some(SelectionFrame { x: 30, y: 40, w: 70, h: 50 }));
    w.mouse_button_up(MouseButton::Left, 100, 90);
    assert_eq!(w.frame(), None);
}

#[test]
fn frame_has_a_negative_extent_when_dragged_backwards() {
    let mut w = ViewWindow::default();
    w.mouse_button_down(MouseButton::Left, 30, 40);
    w.mouse_motion(10, 5);
    assert_eq!(w.frame(), Some(SelectionFrame { x: 30, y: 40, w: -20, h: -35 }));
    w.mouse_motion(usize::MAX, 0);
    assert_eq!(
        w.frame(),
        Some(SelectionFrame { x: 30, y: 40, w: usize::MAX as i128 - 30, h: -40 })
    );
}
