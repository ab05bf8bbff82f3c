use tray_menu::event::{MouseButton, MouseButtonState, PointerEvent};
use tray_menu::linux::{
    button_from_detail, ClickTracker, DOUBLE_CLICK_MS, choose_visual, pointer_event, DepthInfo, VisualInfo, X11PointerKind,
    TRUE_COLOR,
};
use tray_menu::macos::{highlights, other_mouse_button};
use tray_menu::windows::{
    item_flags, notify_flags, submenu_flags, MF_CHECKED, MF_GRAYED, MF_POPUP, MF_STRING,
    NIF_ICON, NIF_MESSAGE, NIF_TIP,
};
use tray_menu::windows::{
    extent, mouse_message, HoverTracker, IconRect, MouseMessage, MoveOutcome, WM_LBUTTONDBLCLK,
    WM_MBUTTONUP, WM_MOUSEMOVE, WM_RBUTTONDOWN,
};

#[test]
fn x11_buttons() {
    assert_eq!(button_from_detail(1), MouseButton::Left);
    assert_eq!(button_from_detail(2), MouseButton::Middle);
    assert_eq!(button_from_detail(3), MouseButton::Right);
    assert_eq!(button_from_detail(4), MouseButton::Left);
}

#[test]
fn x11_events_on_the_icon_window_only() {
    assert_eq!(
        pointer_event(X11PointerKind::ButtonPress, 3, 7, 7),
        Some(PointerEvent::Click { button: MouseButton::Right, button_state: MouseButtonState::Down })
    );
    assert_eq!(
        pointer_event(X11PointerKind::ButtonRelease, 1, 7, 7),
        Some(PointerEvent::Click { button: MouseButton::Left, button_state: MouseButtonState::Up })
    );
    assert_eq!(pointer_event(X11PointerKind::EnterNotify, 0, 7, 7), Some(PointerEvent::Enter));
    assert_eq!(pointer_event(X11PointerKind::LeaveNotify, 0, 7, 7), Some(PointerEvent::Leave));
    assert_eq!(pointer_event(X11PointerKind::MotionNotify, 0, 7, 7), Some(PointerEvent::Move));
    assert_eq!(pointer_event(X11PointerKind::ButtonPress, 1, 8, 7), None);
}

#[test]
fn visual_prefers_argb_then_tray_choice() {
    let depths = vec![
        DepthInfo { depth: 24, visuals: vec![VisualInfo { visual_id: 33, class: TRUE_COLOR }] },
        DepthInfo {
            depth: 32,
            visuals: vec![
                VisualInfo { visual_id: 40, class: 5 },
                VisualInfo { visual_id: 41, class: TRUE_COLOR },
            ],
        },
    ];
    assert_eq!(choose_visual(10, 24, &depths, None), (41, 32));
    assert_eq!(choose_visual(10, 24, &depths, Some(99)), (99, 32));
    assert_eq!(choose_visual(10, 24, &depths[..1], None), (10, 24));
    assert_eq!(choose_visual(10, 24, &[], Some(5)), (5, 24));
}

#[test]
fn windows_mouse_messages() {
    assert_eq!(
        mouse_message(WM_RBUTTONDOWN),
        Some(MouseMessage::Button(PointerEvent::Click {
            button: MouseButton::Right,
            button_state: MouseButtonState::Down
        }))
    );
    assert_eq!(
        mouse_message(WM_MBUTTONUP),
        Some(MouseMessage::Button(PointerEvent::Click {
            button: MouseButton::Middle,
            button_state: MouseButtonState::Up
        }))
    );
    assert_eq!(
        mouse_message(WM_LBUTTONDBLCLK),
        Some(MouseMessage::Button(PointerEvent::DoubleClick { button: MouseButton::Left }))
    );
    assert_eq!(mouse_message(WM_MOUSEMOVE), Some(MouseMessage::Move));
    assert_eq!(mouse_message(0x0100), None);
}

#[test]
fn hover_enter_move_leave() {
    let rect = IconRect { left: 0, top: 0, right: 10, bottom: 10 };
    let mut hover = HoverTracker::new();
    assert_eq!(hover.on_mouse_move((1, 1)), MoveOutcome::Entered);
    assert!(hover.entered);
    assert_eq!(hover.leave_position, Some((1, 1)));
    assert_eq!(hover.on_mouse_move((1, 1)), MoveOutcome::Moved);
    assert_eq!(hover.on_mouse_move((1, 1)), MoveOutcome::Still);
    assert_eq!(hover.on_mouse_move((2, 1)), MoveOutcome::Moved);

    assert_eq!(hover.on_leave_timer(), Some((2, 1)));
    // The tick forgets the last move, so the same place is reported again.
    assert_eq!(hover.on_leave_timer(), Some((2, 1)));
    assert_eq!(hover.on_mouse_move((2, 1)), MoveOutcome::Moved);
    assert!(!hover.on_cursor_checked((5, 5), rect));
    assert!(hover.entered);
    assert!(hover.on_cursor_checked((10, 5), rect));
    assert!(!hover.entered);
    assert_eq!(hover.on_leave_timer(), None);
    assert_eq!(hover.on_mouse_move((3, 3)), MoveOutcome::Entered);
}

#[test]
fn icon_rect_geometry() {
    let rect = IconRect { left: -5, top: 2, right: 5, bottom: 20 };
    assert!(rect.contains(-5, 2));
    assert!(!rect.contains(5, 2));
    assert!(!rect.contains(0, 20));
    assert_eq!(rect.width(), 10);
    assert_eq!(rect.height(), 18);
    assert_eq!(extent(5, 3), (-2i32) as u32);
    assert_eq!(extent(i32::MIN, i32::MAX), i32::MAX as u32);
    assert_eq!(extent(i32::MAX, i32::MIN), i32::MIN as u32);
}

#[test]
fn mac_buttons() {
    assert_eq!(other_mouse_button(2), Some(MouseButton::Middle));
    assert_eq!(other_mouse_button(3), None);
    assert!(highlights(MouseButton::Left));
    assert!(highlights(MouseButton::Right));
    assert!(!highlights(MouseButton::Middle));
}

#[test]
fn windows_flags() {
    assert_eq!(item_flags(false, true), MF_STRING);
    assert_eq!(item_flags(true, true), MF_STRING | MF_CHECKED);
    assert_eq!(item_flags(true, false), MF_CHECKED | MF_GRAYED);
    assert_eq!(item_flags(false, false), 0x0001);
    assert_eq!(submenu_flags(true), MF_POPUP);
    assert_eq!(submenu_flags(false), 0x0011);
    assert_eq!(notify_flags(false, false), NIF_MESSAGE);
    assert_eq!(notify_flags(true, true), NIF_MESSAGE | NIF_ICON | NIF_TIP);
    assert_eq!(notify_flags(false, true), 0x0005);
}

#[test]
fn a_lone_move_over_the_icon_leads_to_leave() {
    let rect = IconRect { left: 0, top: 0, right: 10, bottom: 10 };
    let mut hover = HoverTracker::new();
    assert_eq!(hover.on_mouse_move((4, 4)), MoveOutcome::Entered);
    // The leave timer armed on entering fires after the pointer left.
    assert_eq!(hover.on_leave_timer(), Some((4, 4)));
    assert!(hover.on_cursor_checked((20, 4), rect));
    assert!(!hover.entered);
}

#[test]
fn x11_double_clicks() {
    let mut clicks = ClickTracker::new(DOUBLE_CLICK_MS);
    let press = X11PointerKind::ButtonPress;
    assert_eq!(
        clicks.on_event(press, 1, 1000, 7, 7),
        Some(PointerEvent::Click { button: MouseButton::Left, button_state: MouseButtonState::Down })
    );
    assert_eq!(
        clicks.on_event(X11PointerKind::ButtonRelease, 1, 1100, 7, 7),
        Some(PointerEvent::Click { button: MouseButton::Left, button_state: MouseButtonState::Up })
    );
    assert_eq!(
        clicks.on_event(press, 1, 1000 + DOUBLE_CLICK_MS, 7, 7),
        Some(PointerEvent::DoubleClick { button: MouseButton::Left })
    );
    // A third press starts afresh.
    assert!(matches!(clicks.on_event(press, 1, 1600, 7, 7), Some(PointerEvent::Click { .. })));
    // Too slow.
    assert!(matches!(clicks.on_event(press, 1, 2101, 7, 7), Some(PointerEvent::Click { .. })));
    // Another button.
    assert!(matches!(clicks.on_event(press, 3, 2200, 7, 7), Some(PointerEvent::Click { .. })));
    // Across the wrap of server time.
    let mut clicks = ClickTracker::new(DOUBLE_CLICK_MS);
    clicks.on_event(press, 2, u32::MAX - 10, 7, 7);
    assert_eq!(
        clicks.on_event(press, 2, 20, 7, 7),
        Some(PointerEvent::DoubleClick { button: MouseButton::Middle })
    );
    // Other windows are ignored and change nothing.
    let mut clicks = ClickTracker::new(DOUBLE_CLICK_MS);
    clicks.on_event(press, 1, 5, 7, 7);
    assert_eq!(clicks.on_event(press, 1, 6, 8, 7), None);
    assert_eq!(
        clicks.on_event(press, 1, 7, 7, 7),
        Some(PointerEvent::DoubleClick { button: MouseButton::Left })
    );
}

#[test]
fn a_silent_exit_after_resting_still_leads_to_leave() {
    let rect = IconRect { left: 0, top: 0, right: 10, bottom: 10 };
    let mut hover = HoverTracker::new();
    assert_eq!(hover.on_mouse_move((4, 4)), MoveOutcome::Entered);
    assert_eq!(hover.on_mouse_move((5, 4)), MoveOutcome::Moved);
    // The pointer rests: ticks find it inside.
    for _ in 0..3 {
        assert_eq!(hover.on_leave_timer(), Some((5, 4)));
        assert!(!hover.on_cursor_checked((5, 4), rect));
    }
    // It leaves without a move message; the next tick reports it.
    assert_eq!(hover.on_leave_timer(), Some((5, 4)));
    assert!(hover.on_cursor_checked((30, 4), rect));
    assert_eq!(hover.on_mouse_move((5, 4)), MoveOutcome::Entered);
}

#[test]
fn double_click_interval_is_the_trackers() {
    let press = X11PointerKind::ButtonPress;
    let mut clicks = ClickTracker::new(200);
    clicks.on_event(press, 1, 100, 7, 7);
    assert!(matches!(clicks.on_event(press, 1, 301, 7, 7), Some(PointerEvent::Click { .. })));
    assert_eq!(
        clicks.on_event(press, 1, 501, 7, 7),
        Some(PointerEvent::DoubleClick { button: MouseButton::Left })
    );
}
