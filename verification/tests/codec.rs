use story_tablet::area::Area;
use story_tablet::config::{Config, ButtonBinding, ConfigError, KeyBinding, config_eq};
use story_tablet::config_codec::{load_from_content, serialize_config};
use story_tablet::keys::{Key, MouseButton};
use story_tablet::mapper::{Matrix, FIXED_ONE};

fn full_config() -> Config {
    Config {
        hover_enabled: true,
        buttons: [
            ButtonBinding { enabled: true, binding: KeyBinding::Mouse { button: MouseButton::Right } },
            ButtonBinding {
                enabled: false,
                binding: KeyBinding::Keyboard {
                    modifiers: Some(vec![Key::Alt, Key::Control]),
                    key: Some('a'),
                },
            },
            ButtonBinding { enabled: true, binding: KeyBinding::Disabled },
        ],
        mapping: Area { x: 10, y: 20, width: 1000, height: 2000 },
        screen: Area { x: 0, y: 0, width: 1920, height: 1080 },
        matrix: Matrix { m0: FIXED_ONE, m1: 0, m2: -32768, m3: FIXED_ONE },
    }
}

#[test]
fn config_round_trip_all_binding_kinds() {
    let cfg = full_config();
    let bytes = serialize_config(&cfg);
    let parsed = load_from_content(&bytes).expect("round trip parse");
    assert!(config_eq(&cfg, &parsed));
}

#[test]
fn config_round_trip_empty_modifiers_and_null_key() {
    let mut cfg = full_config();
    cfg.buttons[1].binding = KeyBinding::Keyboard { modifiers: Some(vec![]), key: None };
    cfg.buttons[2].binding = KeyBinding::Keyboard { modifiers: None, key: Some('~') };
    let bytes = serialize_config(&cfg);
    let parsed = load_from_content(&bytes).expect("round trip parse");
    assert!(config_eq(&cfg, &parsed));
}

#[test]
fn serialized_form_is_exact() {
    let cfg = Config::default();
    let bytes = serialize_config(&cfg);
    let text = String::from_utf8(bytes).expect("utf8");
    assert_eq!(
        text,
        "{\"hover_enabled\":true,\"buttons\":[\
         {\"enabled\":true,\"binding\":{\"mode\":\"Mouse\",\"button\":\"Left\"}},\
         {\"enabled\":false,\"binding\":{\"mode\":\"Disabled\"}},\
         {\"enabled\":false,\"binding\":{\"mode\":\"Disabled\"}}],\
         \"mapping\":{\"x\":0,\"y\":0,\"width\":32767,\"height\":32767},\
         \"screen\":{\"x\":0,\"y\":0,\"width\":1920,\"height\":1080},\
         \"matrix\":[65536,0,0,65536]}"
    );
}

#[test]
fn serialized_form_is_valid_json() {
    let cfg = full_config();
    let bytes = serialize_config(&cfg);
    let value: serde_json::Value = serde_json::from_slice(&bytes).expect("valid JSON");
    assert_eq!(value["mapping"]["width"], serde_json::Value::from(1000u64));
    assert_eq!(value["buttons"][0]["binding"]["button"], serde_json::Value::from("Right"));
}

#[test]
fn parser_accepts_whitespace_between_tokens() {
    let text = "{ \"hover_enabled\": false ,\n \"buttons\": [\
        { \"enabled\": true , \"binding\": { \"mode\": \"Keyboard\" , \"modifiers\": [ \"Shift\" , \"Meta\" ] , \"key\": \"q\" } },\
        { \"enabled\": false , \"binding\": { \"mode\": \"Disabled\" } },\
        { \"enabled\": false , \"binding\": { \"mode\": \"Mouse\" , \"button\": \"ScrollUp\" } } ] ,\
        \"mapping\": { \"x\": 1 , \"y\": 2 , \"width\": 3 , \"height\": 4 } ,\
        \"screen\": { \"x\": 0 , \"y\": 0 , \"width\": 800 , \"height\": 600 } ,\
        \"matrix\": [ 65536 , -1 , 0 , 65536 ] }\n";
    let parsed = load_from_content(text.as_bytes()).expect("parse with whitespace");
    assert!(!parsed.hover_enabled);
    assert_eq!(parsed.mapping.width, 3);
    assert_eq!(parsed.matrix.m1, -1);
    match &parsed.buttons[0].binding {
        KeyBinding::Keyboard { modifiers, key } => {
            assert_eq!(modifiers.as_ref().expect("modifiers"), &vec![Key::Shift, Key::Meta]);
            assert_eq!(*key, Some('q'));
        }
        _ => panic!("expected keyboard binding"),
    }
}

#[test]
fn oversized_config_is_refused_before_parsing() {
    let big = vec![b' '; 1048577];
    assert!(matches!(load_from_content(&big), Err(ConfigError::TooLarge)));
}

#[test]
fn config_at_size_bound_reports_parse_error_not_size() {
    let at_bound = vec![b' '; 1048576];
    assert!(matches!(load_from_content(&at_bound), Err(ConfigError::JsonParse)));
}

#[test]
fn malformed_config_is_a_parse_error() {
    assert!(matches!(load_from_content(b"not json at all"), Err(ConfigError::JsonParse)));
    assert!(matches!(load_from_content(b"{\"hover_enabled\":true}"), Err(ConfigError::JsonParse)));
    assert!(matches!(load_from_content(b""), Err(ConfigError::JsonParse)));
}

#[test]
fn zero_extent_mapping_is_rejected_at_load() {
    let cfg = full_config();
    let text = String::from_utf8(serialize_config(&cfg)).expect("utf8");
    let broken = text.replace("\"width\":1000", "\"width\":0");
    assert!(matches!(load_from_content(broken.as_bytes()), Err(ConfigError::JsonParse)));
}

#[test]
fn out_of_range_matrix_entry_is_rejected() {
    let cfg = full_config();
    let text = String::from_utf8(serialize_config(&cfg)).expect("utf8");
    let broken = text.replace("[65536,0,", "[16777217,0,");
    assert!(matches!(load_from_content(broken.as_bytes()), Err(ConfigError::JsonParse)));
}

#[test]
fn trailing_content_is_rejected() {
    let cfg = full_config();
    let mut bytes = serialize_config(&cfg);
    bytes.push(b'x');
    assert!(matches!(load_from_content(&bytes), Err(ConfigError::JsonParse)));
}

#[test]
fn config_eq_distinguishes_values() {
    let a = full_config();
    let mut b = full_config();
    assert!(config_eq(&a, &b));
    b.buttons[1].binding = KeyBinding::Keyboard {
        modifiers: Some(vec![Key::Alt, Key::Shift]),
        key: Some('a'),
    };
    assert!(!config_eq(&a, &b));
    let mut c = full_config();
    c.matrix.m3 = 1;
    assert!(!config_eq(&a, &c));
}

#[test]
fn binding_key_escapes_and_unicode_round_trip() {
    let keys = ['"', '\\', '\u{e9}', '\u{65e5}', '\u{1d11e}', '~', ' ', 'a'];
    for key in keys {
        let mut cfg = full_config();
        cfg.buttons[1].binding = KeyBinding::Keyboard { modifiers: None, key: Some(key) };
        let bytes = serialize_config(&cfg);
        let parsed = load_from_content(&bytes).expect("round trip parse");
        assert!(config_eq(&cfg, &parsed));
    }
}

#[test]
fn escaped_and_unicode_keys_serialize_to_valid_json() {
    let mut cfg = full_config();
    cfg.buttons[0].binding = KeyBinding::Keyboard { modifiers: None, key: Some('"') };
    cfg.buttons[1].binding = KeyBinding::Keyboard { modifiers: None, key: Some('\u{65e5}') };
    let bytes = serialize_config(&cfg);
    let value: serde_json::Value = serde_json::from_slice(&bytes).expect("valid JSON");
    assert_eq!(value["buttons"][0]["binding"]["key"], serde_json::Value::from("\""));
    assert_eq!(value["buttons"][1]["binding"]["key"], serde_json::Value::from("\u{65e5}"));
}

#[test]
fn control_character_key_is_rejected() {
    let mut cfg = full_config();
    cfg.buttons[1].binding = KeyBinding::Keyboard { modifiers: None, key: Some('x') };
    let mut bytes = serialize_config(&cfg);
    // Replace the one-character key with a raw control byte.
    let pos = bytes.windows(3).position(|w| w == b"\"x\"").expect("key in output");
    bytes[pos + 1] = 0x01;
    assert!(matches!(load_from_content(&bytes), Err(ConfigError::JsonParse)));
}
