use embargo::input::{
    parse_button_id, translate, LogicalPosition, PointerButton, PointerEvent, PointerEventKind,
    WindowEvent,
};

fn event(kind: PointerEventKind) -> PointerEvent {
    PointerEvent { surface: 3, position: LogicalPosition::from_pixels(10, 5), kind }
}

#[test]
fn button_codes_resolve() {
    assert_eq!(parse_button_id(272), Some(PointerButton::Left));
    assert_eq!(parse_button_id(273), Some(PointerButton::Right));
    assert_eq!(parse_button_id(274), Some(PointerButton::Middle));
}

#[test]
fn unknown_button_codes_resolve_to_nothing() {
    assert_eq!(parse_button_id(0), None);
    assert_eq!(parse_button_id(271), None);
    assert_eq!(parse_button_id(275), None);
    assert_eq!(parse_button_id(u32::MAX), None);
}

#[test]
fn position_from_pixels_is_in_256ths() {
    assert_eq!(LogicalPosition::from_pixels(10, 5), LogicalPosition { x: 2560, y: 1280 });
    assert_eq!(LogicalPosition::from_pixels(-1, 0), LogicalPosition { x: -256, y: 0 });
    assert_eq!(
        LogicalPosition::from_pixels(i16::MAX, i16::MIN),
        LogicalPosition { x: 8_388_352, y: -8_388_608 }
    );
}

#[test]
fn motion_becomes_pointer_moved() {
    let position = LogicalPosition::from_pixels(10, 5);
    assert_eq!(
        translate(&event(PointerEventKind::Motion)),
        Some(WindowEvent::PointerMoved { position })
    );
}

#[test]
fn press_and_release_carry_the_button() {
    let position = LogicalPosition::from_pixels(10, 5);
    assert_eq!(
        translate(&event(PointerEventKind::Press { button: 273 })),
        Some(WindowEvent::PointerPressed { position, button: PointerButton::Right })
    );
    assert_eq!(
        translate(&event(PointerEventKind::Release { button: 274 })),
        Some(WindowEvent::PointerReleased { position, button: PointerButton::Middle })
    );
}

#[test]
fn unknown_buttons_are_dropped() {
    assert_eq!(translate(&event(PointerEventKind::Press { button: 1 })), None);
    assert_eq!(translate(&event(PointerEventKind::Release { button: 999 })), None);
}

#[test]
fn enter_leave_and_axis_tell_nothing() {
    assert_eq!(translate(&event(PointerEventKind::Enter)), None);
    assert_eq!(translate(&event(PointerEventKind::Leave)), None);
    assert_eq!(translate(&event(PointerEventKind::Axis)), None);
}

#[test]
fn pointer_state_starts_idle() {
    let state = embargo::input::PointerState::new();
    assert!(!state.left && !state.right && !state.middle);
    assert_eq!(state.position, None);
    assert!(!state.is_pressed(PointerButton::Left));
}

#[test]
fn pointer_state_follows_presses_and_moves() {
    let mut state = embargo::input::PointerState::new();
    state.observe(&event(PointerEventKind::Enter));
    assert_eq!(state.position, Some(LogicalPosition::from_pixels(10, 5)));
    state.observe(&event(PointerEventKind::Press { button: 272 }));
    state.observe(&event(PointerEventKind::Press { button: 274 }));
    state.observe(&event(PointerEventKind::Press { button: 5 }));
    assert!(state.is_pressed(PointerButton::Left));
    assert!(state.is_pressed(PointerButton::Middle));
    assert!(!state.is_pressed(PointerButton::Right));
    state.observe(&event(PointerEventKind::Release { button: 272 }));
    assert!(!state.is_pressed(PointerButton::Left));
    assert!(state.is_pressed(PointerButton::Middle));
    state.observe(&event(PointerEventKind::Leave));
    assert_eq!(state.position, None);
    assert!(state.is_pressed(PointerButton::Middle));
}
