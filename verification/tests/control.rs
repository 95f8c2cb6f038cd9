use story_tablet::area::Area;
use story_tablet::command::{
    parse_request, serialize_response, CommandOutcome, ReqCommand, ReqCommands, ResCommand,
    ResCommands,
};
use story_tablet::config::{config_eq, ButtonBinding, Config, KeyBinding};
use story_tablet::config_codec::serialize_config;
use story_tablet::device::{Device, Info};
use story_tablet::handler::TabletStatus;
use story_tablet::keys::MouseButton;
use story_tablet::mapper::{Matrix, FIXED_ONE};
use story_tablet::store::{ConfigFile, SharedData};
use story_tablet::story::{StoryTablet, StoryTabletError};

fn test_device() -> Device {
    Device {
        name: String::from("Deco Pro"),
        info: Info {
            vendor: 10429,
            product: 2309,
            usage: 1,
            usage_page: 13,
            init_features: vec![2, 178, 2],
        },
        area: Area { x: 0, y: 0, width: 32767, height: 32767 },
        max_pressure: 8191,
    }
}

fn other_config() -> Config {
    Config {
        hover_enabled: false,
        buttons: [
            ButtonBinding { enabled: true, binding: KeyBinding::Mouse { button: MouseButton::Middle } },
            ButtonBinding { enabled: false, binding: KeyBinding::Disabled },
            ButtonBinding { enabled: false, binding: KeyBinding::Disabled },
        ],
        mapping: Area { x: 0, y: 0, width: 2000, height: 1500 },
        screen: Area { x: 0, y: 0, width: 1280, height: 720 },
        matrix: Matrix { m0: FIXED_ONE, m1: 0, m2: 0, m3: FIXED_ONE },
    }
}

fn fresh_session() -> StoryTablet {
    let shared = SharedData::new(test_device(), ConfigFile::from_loaded(Config::default()));
    StoryTablet::new(shared)
}

#[test]
fn parse_get_config_request() {
    let req = parse_request(b"{\"id\":1,\"data\":{\"type\":\"GetConfig\"}}").expect("parse");
    assert_eq!(req.id, 1);
    assert!(matches!(req.data, ReqCommands::GetConfig));
}

#[test]
fn parse_requests_of_every_type() {
    assert!(matches!(
        parse_request(b"{\"id\":2,\"data\":{\"type\":\"GetStatus\"}}").expect("parse").data,
        ReqCommands::GetStatus
    ));
    assert!(matches!(
        parse_request(b"{\"id\":3,\"data\":{\"type\":\"GetDevice\"}}").expect("parse").data,
        ReqCommands::GetDevice
    ));
    assert!(matches!(
        parse_request(b"{\"id\":4,\"data\":{\"type\":\"Stop\"}}").expect("parse").data,
        ReqCommands::Stop
    ));
    let req = parse_request(b"{\"id\":-7,\"data\":{\"type\":\"SaveConfig\",\"force_write\":true}}")
        .expect("parse");
    assert_eq!(req.id, -7);
    assert!(matches!(req.data, ReqCommands::SaveConfig { force_write: true }));
}

#[test]
fn parse_update_config_request_carries_the_configuration() {
    let cfg = other_config();
    let mut text = String::from("{\"id\":9,\"data\":{\"type\":\"UpdateConfig\",\"config\":");
    text.push_str(&String::from_utf8(serialize_config(&cfg)).expect("utf8"));
    text.push_str("}}");
    let req = parse_request(text.as_bytes()).expect("parse");
    assert_eq!(req.id, 9);
    match req.data {
        ReqCommands::UpdateConfig { config } => assert!(config_eq(&config, &cfg)),
        _ => panic!("expected update"),
    }
}

#[test]
fn malformed_requests_are_refused() {
    assert!(parse_request(b"").is_none());
    assert!(parse_request(b"{\"id\":1}").is_none());
    assert!(parse_request(b"{\"id\":1,\"data\":{\"type\":\"Reboot\"}}").is_none());
    assert!(parse_request(b"{\"id\":1,\"data\":{\"type\":\"GetConfig\"}} extra").is_none());
}

#[test]
fn responses_serialize_to_their_wire_form() {
    let r = ResCommand { id: 5, data: ResCommands::UpdateConfig { updated: true } };
    assert_eq!(
        String::from_utf8(serialize_response(&r)).expect("utf8"),
        "{\"id\":5,\"data\":{\"type\":\"UpdateConfig\",\"updated\":true}}"
    );
    let r = ResCommand { id: -2, data: ResCommands::GetStatus { status: TabletStatus::Connected } };
    assert_eq!(
        String::from_utf8(serialize_response(&r)).expect("utf8"),
        "{\"id\":-2,\"data\":{\"type\":\"GetStatus\",\"status\":\"Connected\"}}"
    );
    let r = ResCommand { id: 0, data: ResCommands::SaveConfig { saved: false, file_changed: false } };
    assert_eq!(
        String::from_utf8(serialize_response(&r)).expect("utf8"),
        "{\"id\":0,\"data\":{\"type\":\"SaveConfig\",\"saved\":false,\"file_changed\":false}}"
    );
}

#[test]
fn device_response_serializes_the_descriptor() {
    let r = ResCommand { id: 3, data: ResCommands::GetDevice { device: test_device() } };
    assert_eq!(
        String::from_utf8(serialize_response(&r)).expect("utf8"),
        "{\"id\":3,\"data\":{\"type\":\"GetDevice\",\"device\":{\"name\":\"Deco Pro\",\
         \"info\":{\"vendor\":10429,\"product\":2309,\"usage\":1,\"usage_page\":13,\
         \"init_features\":[2,178,2]},\
         \"area\":{\"x\":0,\"y\":0,\"width\":32767,\"height\":32767},\"max_pressure\":8191}}}"
    );
}

#[test]
fn update_then_get_returns_the_submitted_configuration() {
    let mut session = fresh_session();
    let new_cfg = other_config();
    let outcome = session.handle_command(ReqCommand {
        id: 1,
        data: ReqCommands::UpdateConfig { config: new_cfg.duplicate() },
    });
    match outcome {
        CommandOutcome::Done { response } => {
            assert_eq!(response.id, 1);
            assert!(matches!(response.data, ResCommands::UpdateConfig { updated: true }));
        }
        _ => panic!("expected a completed update"),
    }
    let outcome = session.handle_command(ReqCommand { id: 2, data: ReqCommands::GetConfig });
    match outcome {
        CommandOutcome::Done { response } => match response.data {
            ResCommands::GetConfig { config } => assert!(config_eq(&config, &new_cfg)),
            _ => panic!("expected a configuration"),
        },
        _ => panic!("expected a completed get"),
    }
}

#[test]
fn unforced_save_of_unchanged_configuration_writes_nothing() {
    let mut session = fresh_session();
    let outcome = session.handle_command(ReqCommand {
        id: 4,
        data: ReqCommands::SaveConfig { force_write: false },
    });
    match outcome {
        CommandOutcome::Done { response } => {
            assert!(matches!(
                response.data,
                ResCommands::SaveConfig { saved: true, file_changed: false }
            ));
        }
        _ => panic!("expected a skipped save"),
    }
}

#[test]
fn save_after_update_writes_the_new_configuration() {
    let mut session = fresh_session();
    let new_cfg = other_config();
    session.handle_command(ReqCommand {
        id: 1,
        data: ReqCommands::UpdateConfig { config: new_cfg.duplicate() },
    });
    let outcome = session.handle_command(ReqCommand {
        id: 2,
        data: ReqCommands::SaveConfig { force_write: false },
    });
    match outcome {
        CommandOutcome::Save { id, content } => {
            assert_eq!(id, 2);
            // What goes to disk is exactly the in-memory configuration.
            assert_eq!(content, serialize_config(&new_cfg));
            let response = session.finish_save(id, true);
            assert!(matches!(
                response.data,
                ResCommands::SaveConfig { saved: true, file_changed: true }
            ));
        }
        _ => panic!("expected a deferred write"),
    }
    // Saved: a further unforced save writes nothing.
    let outcome = session.handle_command(ReqCommand {
        id: 3,
        data: ReqCommands::SaveConfig { force_write: false },
    });
    assert!(matches!(outcome, CommandOutcome::Done { .. }));
}

#[test]
fn failed_write_reports_nothing_saved() {
    let mut session = fresh_session();
    session.handle_command(ReqCommand {
        id: 1,
        data: ReqCommands::UpdateConfig { config: other_config() },
    });
    let outcome = session.handle_command(ReqCommand {
        id: 2,
        data: ReqCommands::SaveConfig { force_write: false },
    });
    match outcome {
        CommandOutcome::Save { id, .. } => {
            let response = session.finish_save(id, false);
            assert!(matches!(
                response.data,
                ResCommands::SaveConfig { saved: false, file_changed: false }
            ));
        }
        _ => panic!("expected a deferred write"),
    }
}

#[test]
fn forced_save_always_writes() {
    let mut session = fresh_session();
    let outcome = session.handle_command(ReqCommand {
        id: 8,
        data: ReqCommands::SaveConfig { force_write: true },
    });
    assert!(matches!(outcome, CommandOutcome::Save { id: 8, .. }));
}

#[test]
fn stop_command_reports_and_signals_stopping() {
    let mut session = fresh_session();
    session.start().expect("start");
    let outcome = session.handle_command(ReqCommand { id: 6, data: ReqCommands::Stop });
    match outcome {
        CommandOutcome::Stop { response } => {
            assert_eq!(response.id, 6);
            assert!(matches!(response.data, ResCommands::Stop { stopping: true }));
        }
        _ => panic!("expected a stop"),
    }
    session.stop().expect("stop");
    assert!(!session.started());
}

#[test]
fn session_lifecycle_errors() {
    let mut session = fresh_session();
    assert!(!session.started());
    assert_eq!(session.stop(), Err(StoryTabletError::NotStarted));
    assert_eq!(session.start(), Ok(()));
    assert_eq!(session.start(), Err(StoryTabletError::AlreadyStarted));
    assert_eq!(session.get_status(), TabletStatus::NotConnected);
}

#[test]
fn session_processes_reports_against_the_live_configuration() {
    let mut session = fresh_session();
    // Default config: button 1 is an enabled left click; report id is 2.
    let buf: [u8; 11] = [2, 0x01, 0, 0, 0, 0, 0, 0, 0, 0, 0];
    let acts = session.process_report(&buf);
    assert!(acts.contains(&story_tablet::actions::InputAction::MouseDown {
        button: MouseButton::Left
    }));
}

#[test]
fn config_store_tracks_changes_and_reloads() {
    let mut file = ConfigFile::from_loaded(Config::default());
    assert!(!file.changed());
    file.set_config(other_config());
    assert!(file.changed());
    file.mark_saved();
    assert!(!file.changed());
    let bytes = serialize_config(&Config::default());
    file.reload_from_content(&bytes).expect("reload");
    assert!(!file.changed());
    assert!(config_eq(file.get_config(), &Config::default()));
}

#[test]
fn device_name_is_escaped_on_the_wire() {
    let mut device = test_device();
    device.name = String::from("A\"B\\C\u{e9}");
    let r = ResCommand { id: 1, data: ResCommands::GetDevice { device } };
    let bytes = serialize_response(&r);
    let value: serde_json::Value = serde_json::from_slice(&bytes).expect("valid JSON");
    assert_eq!(
        value["data"]["device"]["name"],
        serde_json::Value::from("A\"B\\C\u{e9}")
    );
    let text = String::from_utf8(bytes).expect("utf8");
    assert!(text.contains("\"name\":\"A\\\"B\\\\C\u{e9}\""));
}
