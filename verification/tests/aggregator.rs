use main_game_loop::event::{
    CustomEvent, ElementState, Event, GamePadEvent, GamepadAxis, GamepadButton, GamepadEventType,
    WindowEvent,
};
use main_game_loop::should_draw;
use main_game_loop::state::gamepad::{DeadZone, GamepadAxisInput, GamepadButtonInput, GamepadState};
use main_game_loop::state::input::Input;
use main_game_loop::state::keyboard::KeyboardState;
use main_game_loop::state::window::WindowState;

#[test]
fn edge_correctness_after_clear() {
    // Press 1, press 2, release 1, press 3, then the per-frame clear:
    // pressed must equal exactly the codes whose last edge was a press.
    let mut input: Input<u32> = Input::new();
    input.event(ElementState::Pressed, 1);
    input.event(ElementState::Pressed, 2);
    input.event(ElementState::Released, 1);
    input.event(ElementState::Pressed, 3);
    input.clear();
    assert!(!input.pressed(1));
    assert!(input.pressed(2));
    assert!(input.pressed(3));
    assert!(!input.just_pressed(1));
    assert!(!input.just_pressed(2));
    assert!(!input.just_pressed(3));
    assert!(!input.just_released(1));
    assert!(input.get_just_pressed().is_empty());
    assert!(input.get_just_released().is_empty());
    assert_eq!(input.get_pressed().len(), 2);
}

#[test]
fn repeat_press_is_idempotent_on_pressed() {
    let mut input: Input<u32> = Input::new();
    input.event(ElementState::Pressed, 5);
    input.clear();
    // A repeat press leaves membership unchanged but re-marks just_pressed.
    input.event(ElementState::Pressed, 5);
    assert!(input.pressed(5));
    assert_eq!(input.get_pressed().len(), 1);
    assert!(input.just_pressed(5));
}

#[test]
fn release_without_press_marks_just_released() {
    let mut input: Input<u32> = Input::new();
    input.event(ElementState::Released, 9);
    assert!(!input.pressed(9));
    assert!(input.just_released(9));
}

#[test]
fn press_then_release_in_one_window() {
    let mut input: Input<u32> = Input::new();
    input.event(ElementState::Pressed, 7);
    input.event(ElementState::Released, 7);
    assert!(!input.pressed(7));
    assert!(input.just_pressed(7));
    assert!(input.just_released(7));
}

#[test]
fn clear_keeps_pressed() {
    let mut input: Input<u32> = Input::new();
    input.event(ElementState::Pressed, 3);
    input.clear();
    assert!(input.pressed(3));
    assert!(!input.is_empty());
}

#[test]
fn empty_aggregator_answers_false() {
    let input: Input<u32> = Input::new();
    assert!(input.is_empty());
    assert!(!input.pressed(0));
    assert!(!input.just_pressed(0));
    assert!(!input.just_released(0));
}

#[test]
fn should_draw_only_on_redraw_events_cleared() {
    assert!(should_draw(&Event::RedrawEventsCleared));
    assert!(!should_draw(&Event::Other));
    assert!(!should_draw(&Event::WindowEvent {
        window_id: 0,
        event: WindowEvent::CursorEntered,
    }));
}

#[test]
fn keyboard_aggregates_key_edges() {
    let mut keyboard = KeyboardState::new();
    keyboard.event(&Event::WindowEvent {
        window_id: 1,
        event: WindowEvent::KeyboardInput { state: ElementState::Pressed, key: 32 },
    });
    assert!(keyboard.input.pressed(32));
    assert!(keyboard.input.just_pressed(32));
    keyboard.event(&Event::WindowEvent {
        window_id: 2,
        event: WindowEvent::KeyboardInput { state: ElementState::Released, key: 32 },
    });
    assert!(!keyboard.input.pressed(32));
    assert!(keyboard.input.just_released(32));
}

#[test]
fn keyboard_auto_clear_on_frame_boundary() {
    let mut keyboard = KeyboardState::new().with_auto_clear();
    keyboard.event(&Event::WindowEvent {
        window_id: 1,
        event: WindowEvent::KeyboardInput { state: ElementState::Pressed, key: 10 },
    });
    keyboard.event(&Event::RedrawEventsCleared);
    assert!(keyboard.input.pressed(10));
    assert!(!keyboard.input.just_pressed(10));
}

#[test]
fn keyboard_without_auto_clear_keeps_just_state() {
    let mut keyboard = KeyboardState::new();
    keyboard.event(&Event::WindowEvent {
        window_id: 1,
        event: WindowEvent::KeyboardInput { state: ElementState::Pressed, key: 10 },
    });
    keyboard.event(&Event::RedrawEventsCleared);
    assert!(keyboard.input.just_pressed(10));
}

#[test]
fn window_state_tracks_events_for_its_window() {
    let mut window = WindowState::new(7, 800, 600, 1000);
    assert_eq!(window.aspect, 1333);
    window.event(&Event::WindowEvent { window_id: 7, event: WindowEvent::CursorEntered });
    assert!(window.cursor_in);
    window.event(&Event::WindowEvent {
        window_id: 7,
        event: WindowEvent::CursorMoved { x: 12_500, y: 7_250 },
    });
    assert_eq!(window.cursor_x, 12_500);
    assert_eq!(window.cursor_y, 7_250);
    window.event(&Event::WindowEvent {
        window_id: 7,
        event: WindowEvent::Resized { width: 1920, height: 1080 },
    });
    assert_eq!(window.width, 1920);
    assert_eq!(window.height, 1080);
    assert_eq!(window.aspect, 1777);
    window.event(&Event::WindowEvent { window_id: 7, event: WindowEvent::Focused(true) });
    assert!(window.focused);
    window.event(&Event::WindowEvent { window_id: 7, event: WindowEvent::CursorLeft });
    assert!(!window.cursor_in);
}

#[test]
fn window_state_ignores_other_windows() {
    let mut window = WindowState::new(7, 800, 600, 1000);
    window.event(&Event::WindowEvent { window_id: 8, event: WindowEvent::Focused(true) });
    assert!(!window.focused);
}

#[test]
fn window_aspect_of_zero_height_is_zero() {
    let window = WindowState::new(1, 800, 0, 1000);
    assert_eq!(window.aspect, 0);
}

fn pad_event(id: u64, event: GamepadEventType) -> Event {
    Event::UserEvent(CustomEvent::GamePadEvent(GamePadEvent { id, event }))
}

#[test]
fn gamepad_button_edges_feed_aggregator() {
    let mut pads = GamepadState::new();
    pads.event(&pad_event(3, GamepadEventType::ButtonPressed(GamepadButton::South)));
    let code = GamepadButtonInput { gamepad: 3, button: GamepadButton::South };
    assert!(pads.input().pressed(code));
    assert!(pads.input().just_pressed(code));
    pads.event(&pad_event(3, GamepadEventType::ButtonReleased(GamepadButton::South)));
    assert!(!pads.input().pressed(code));
    assert!(pads.input().just_released(code));
}

#[test]
fn gamepad_any_event_registers_default_deadzone() {
    let mut pads = GamepadState::new();
    assert!(pads.get_deadzone(4).is_none());
    pads.event(&pad_event(4, GamepadEventType::Connected));
    let dz = pads.get_deadzone(4).expect("pad registered");
    assert_eq!(dz, DeadZone::default());
    assert_eq!(dz.left_stick_x, 40);
    assert_eq!(dz.left, 0);
    assert_eq!(pads.gamepads(), vec![4]);
}

#[test]
fn gamepad_axis_inside_deadzone_reads_zero() {
    let mut pads = GamepadState::new();
    // Default stick deadzone is 40 milli-units.
    pads.event(&pad_event(1, GamepadEventType::AxisChanged(GamepadAxis::LeftStickX, 40)));
    let code = GamepadAxisInput { gamepad: 1, axis: GamepadAxis::LeftStickX };
    assert_eq!(pads.axis_value(code), 0);
    pads.event(&pad_event(1, GamepadEventType::AxisChanged(GamepadAxis::LeftStickX, 41)));
    assert_eq!(pads.axis_value(code), 41);
    // Back inside the deadzone: the entry is cleared again.
    pads.event(&pad_event(1, GamepadEventType::AxisChanged(GamepadAxis::LeftStickX, -40)));
    assert_eq!(pads.axis_value(code), 0);
}

#[test]
fn gamepad_trigger_value_lands_on_its_axis() {
    let mut pads = GamepadState::new();
    pads.event(&pad_event(
        2,
        GamepadEventType::ButtonChanged(GamepadButton::LeftTrigger2, 500),
    ));
    let code = GamepadAxisInput { gamepad: 2, axis: GamepadAxis::LeftZ };
    assert_eq!(pads.axis_value(code), 500);
    // Other buttons carry no analog value of interest.
    pads.event(&pad_event(2, GamepadEventType::ButtonChanged(GamepadButton::South, 900)));
    let south_axis = GamepadAxisInput { gamepad: 2, axis: GamepadAxis::Unknown };
    assert_eq!(pads.axis_value(south_axis), 0);
}

#[test]
fn gamepad_unknown_axis_is_dropped() {
    let mut pads = GamepadState::new();
    pads.event(&pad_event(1, GamepadEventType::AxisChanged(GamepadAxis::Unknown, 900)));
    let code = GamepadAxisInput { gamepad: 1, axis: GamepadAxis::Unknown };
    assert_eq!(pads.axis_value(code), 0);
    // The pad itself was still registered.
    assert!(pads.get_deadzone(1).is_some());
}

#[test]
fn gamepad_disconnect_unregisters_pad() {
    let mut pads = GamepadState::new();
    pads.event(&pad_event(5, GamepadEventType::Connected));
    assert!(pads.get_deadzone(5).is_some());
    pads.event(&pad_event(5, GamepadEventType::Disconnected));
    assert!(pads.get_deadzone(5).is_none());
    assert_eq!(pads.gamepads().len(), 0);
}

#[test]
fn gamepad_set_deadzone_updates_registered_pad_only() {
    let mut pads = GamepadState::new();
    let custom = DeadZone {
        left_stick_x: 100,
        left_stick_y: 100,
        right_stick_x: 100,
        right_stick_y: 100,
        left: 5,
        right: 5,
        d_pad_x: 1,
        d_pad_y: 1,
    };
    pads.set_deadzone(9, custom);
    assert!(pads.get_deadzone(9).is_none());
    pads.event(&pad_event(9, GamepadEventType::Connected));
    pads.set_deadzone(9, custom);
    assert_eq!(pads.get_deadzone(9), Some(custom));
    // The new stick deadzone now filters wider readings.
    pads.event(&pad_event(9, GamepadEventType::AxisChanged(GamepadAxis::LeftStickX, 90)));
    let code = GamepadAxisInput { gamepad: 9, axis: GamepadAxis::LeftStickX };
    assert_eq!(pads.axis_value(code), 0);
}

#[test]
fn gamepad_axis_value_first_uses_first_registered_pad() {
    let mut pads = GamepadState::new();
    assert_eq!(pads.axis_value_first(GamepadAxis::RightStickY), None);
    pads.event(&pad_event(6, GamepadEventType::AxisChanged(GamepadAxis::RightStickY, 700)));
    pads.event(&pad_event(8, GamepadEventType::AxisChanged(GamepadAxis::RightStickY, -300)));
    assert_eq!(pads.axis_value_first(GamepadAxis::RightStickY), Some(700));
}

#[test]
fn gamepad_auto_clear_on_frame_boundary() {
    let mut pads = GamepadState::new().with_auto_clear();
    pads.event(&pad_event(1, GamepadEventType::ButtonPressed(GamepadButton::Start)));
    pads.event(&Event::RedrawEventsCleared);
    let code = GamepadButtonInput { gamepad: 1, button: GamepadButton::Start };
    assert!(pads.input().pressed(code));
    assert!(!pads.input().just_pressed(code));
}
