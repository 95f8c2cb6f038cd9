use story_tablet::actions::InputAction;
use story_tablet::area::Area;
use story_tablet::config::{ButtonBinding, Config, KeyBinding};
use story_tablet::data::{read_state, Data, BUTTON_1, BUTTON_2, BUTTON_3, PEN_DETECTED, PEN_HOVERING, PEN_INIT};
use story_tablet::handler::{HandlerError, TabletHandler, TabletStatus, TabletError};
use story_tablet::keys::{Key, MouseButton};
use story_tablet::mapper::{map_point, Matrix, FIXED_ONE};
use story_tablet::state::State;

fn test_config() -> Config {
    Config {
        hover_enabled: true,
        buttons: [
            ButtonBinding { enabled: true, binding: KeyBinding::Mouse { button: MouseButton::Left } },
            ButtonBinding {
                enabled: true,
                binding: KeyBinding::Keyboard {
                    modifiers: Some(vec![Key::Control, Key::Shift]),
                    key: Some('z'),
                },
            },
            ButtonBinding { enabled: false, binding: KeyBinding::Mouse { button: MouseButton::Right } },
        ],
        mapping: Area { x: 0, y: 0, width: 1000, height: 1000 },
        screen: Area { x: 0, y: 0, width: 1920, height: 1080 },
        matrix: Matrix { m0: FIXED_ONE, m1: 0, m2: 0, m3: FIXED_ONE },
    }
}

fn report(id: u8, state: u8, x: u16, y: u16, pressure: u16) -> [u8; 11] {
    [
        id,
        state,
        (x & 0xff) as u8,
        (x >> 8) as u8,
        (y & 0xff) as u8,
        (y >> 8) as u8,
        (pressure & 0xff) as u8,
        (pressure >> 8) as u8,
        0,
        0,
        0,
    ]
}

#[test]
fn report_decodes_little_endian_words() {
    let buf = report(2, 0xe3, 12345, 500, 1000);
    let d = Data::from_bytes(&buf);
    assert_eq!(d.report_number, 2);
    assert_eq!(d.state, 0xe3);
    assert_eq!(d.pointer_x, 12345);
    assert_eq!(d.pointer_y, 500);
    assert_eq!(d.pressure, 1000);
}

#[test]
fn bitmask_flags_decode_into_named_state() {
    let d = Data { report_number: 2, state: BUTTON_1 | BUTTON_3 | PEN_HOVERING, pointer_x: 7, pointer_y: 9, pressure: 0 };
    let s = State::from_data(d);
    assert_eq!(s.pos, (7, 9));
    assert!(s.hovering);
    assert!(!s.inited);
    assert!(!s.detected);
    assert_eq!(s.buttons, [true, false, true]);
    assert!(read_state(PEN_INIT | PEN_DETECTED, PEN_INIT));
    assert!(!read_state(PEN_INIT, PEN_DETECTED));
}

#[test]
fn center_of_square_area_maps_to_screen_center() {
    let mapping = Area { x: 0, y: 0, width: 1000, height: 1000 };
    let screen = Area { x: 0, y: 0, width: 1920, height: 1080 };
    let matrix = Matrix { m0: FIXED_ONE, m1: 0, m2: 0, m3: FIXED_ONE };
    assert_eq!(map_point((500, 500), &mapping, &screen, &matrix), (960, 540));
}

#[test]
fn position_left_of_mapping_clips_to_zero() {
    let mapping = Area { x: 100, y: 0, width: 1000, height: 1000 };
    let screen = Area { x: 0, y: 0, width: 1920, height: 1080 };
    let scaled = Matrix { m0: 4 * FIXED_ONE, m1: 0, m2: 0, m3: FIXED_ONE };
    let (x, _y) = map_point((50, 500), &mapping, &screen, &scaled);
    assert_eq!(x, 0);
}

#[test]
fn position_past_mapping_clamps_to_full_screen() {
    let mapping = Area { x: 0, y: 0, width: 1000, height: 1000 };
    let screen = Area { x: 0, y: 0, width: 1920, height: 1080 };
    let matrix = Matrix { m0: FIXED_ONE, m1: 0, m2: 0, m3: FIXED_ONE };
    assert_eq!(map_point((5000, 5000), &mapping, &screen, &matrix), (1920, 1080));
}

#[test]
fn mapping_is_a_pure_function_of_its_inputs() {
    let mapping = Area { x: 3, y: 7, width: 900, height: 700 };
    let screen = Area { x: 0, y: 0, width: 2560, height: 1440 };
    let matrix = Matrix { m0: -FIXED_ONE, m1: 123, m2: -77, m3: FIXED_ONE / 2 };
    let a = map_point((444, 555), &mapping, &screen, &matrix);
    let b = map_point((444, 555), &mapping, &screen, &matrix);
    assert_eq!(a, b);
}

#[test]
fn foreign_report_id_changes_nothing_and_dispatches_nothing() {
    let cfg = test_config();
    let mut h = TabletHandler::new();
    let buf = report(9, BUTTON_1, 500, 500, 0);
    let acts = h.on_data(&buf, 2, &cfg);
    assert!(acts.is_empty());
    // The previous state is untouched: the next accepted report with the
    // button held still produces the rising edge.
    let buf2 = report(2, BUTTON_1, 500, 500, 0);
    let acts2 = h.on_data(&buf2, 2, &cfg);
    assert!(acts2.contains(&InputAction::MouseDown { button: MouseButton::Left }));
}

#[test]
fn button_edge_dispatches_exactly_once_per_transition() {
    let cfg = test_config();
    let mut h = TabletHandler::new();
    // Rising edge of button 1: pointer move (contact forces it) then down.
    let acts = h.on_data(&report(2, BUTTON_1, 500, 500, 10), 2, &cfg);
    assert_eq!(
        acts,
        vec![
            InputAction::MouseMoveTo { x: 960, y: 540 },
            InputAction::MouseDown { button: MouseButton::Left },
        ]
    );
    // Held: no further dispatch for the unchanged button.
    let acts = h.on_data(&report(2, BUTTON_1, 500, 500, 10), 2, &cfg);
    assert_eq!(acts, vec![InputAction::MouseMoveTo { x: 960, y: 540 }]);
    // Falling edge: up exactly once; no hover flags, so no move.
    let acts = h.on_data(&report(2, 0, 500, 500, 0), 2, &cfg);
    assert_eq!(acts, vec![InputAction::MouseUp { button: MouseButton::Left }]);
}

#[test]
fn keyboard_binding_presses_modifiers_then_key_in_order() {
    let cfg = test_config();
    let mut h = TabletHandler::new();
    let acts = h.on_data(&report(2, BUTTON_2, 600, 700, 0), 2, &cfg);
    assert_eq!(
        acts,
        vec![
            InputAction::KeyDown { key: Key::Control },
            InputAction::KeyDown { key: Key::Shift },
            InputAction::CharDown { c: 'z' },
        ]
    );
    let acts = h.on_data(&report(2, 0, 600, 700, 0), 2, &cfg);
    assert_eq!(
        acts,
        vec![
            InputAction::KeyUp { key: Key::Control },
            InputAction::KeyUp { key: Key::Shift },
            InputAction::CharUp { c: 'z' },
        ]
    );
}

#[test]
fn disabled_button_never_dispatches() {
    let cfg = test_config();
    let mut h = TabletHandler::new();
    let acts = h.on_data(&report(2, BUTTON_3, 100, 100, 0), 2, &cfg);
    assert!(acts.is_empty());
}

#[test]
fn hover_gates_pointer_movement() {
    let mut cfg = test_config();
    cfg.hover_enabled = false;
    let mut h = TabletHandler::new();
    // Hovering with hover movement disabled: no move.
    let acts = h.on_data(&report(2, PEN_HOVERING, 500, 500, 0), 2, &cfg);
    assert!(acts.is_empty());
    cfg.hover_enabled = true;
    let acts = h.on_data(&report(2, PEN_HOVERING, 500, 500, 0), 2, &cfg);
    assert_eq!(acts, vec![InputAction::MouseMoveTo { x: 960, y: 540 }]);
}

#[test]
fn handler_lifecycle_and_connection_transitions() {
    let mut h = TabletHandler::new();
    assert!(!h.running());
    assert_eq!(h.get_status(), TabletStatus::NotConnected);
    assert_eq!(h.start(), None);
    assert!(h.running());
    assert_eq!(h.start(), Some(HandlerError::AlreadyStarted));
    assert_eq!(h.on_connect_attempt(false, false), Err(TabletError::NotFound));
    assert_eq!(h.get_status(), TabletStatus::NotConnected);
    assert_eq!(h.on_connect_attempt(true, false), Err(TabletError::InvalidAccess));
    assert_eq!(h.get_status(), TabletStatus::NotConnected);
    assert_eq!(h.on_connect_attempt(true, true), Ok(()));
    assert_eq!(h.get_status(), TabletStatus::Connected);
    h.on_read_error();
    assert_eq!(h.get_status(), TabletStatus::Error);
    assert_eq!(h.stop(), None);
    assert!(!h.running());
    assert_eq!(h.stop(), Some(HandlerError::NotStarted));
}
