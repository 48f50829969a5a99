use gamebient_input::host::{
    encode_event, encode_hello, join_origins, json_escape, parse_command, state_event, GxConfig,
    HostCommand, HostEvent, PROTOCOL_VERSION,
};
use gamebient_input::GxInputPlugin;

#[test]
fn escapes_json_strings() {
    assert_eq!(json_escape("a\"b\\c\n"), "a\\\"b\\\\c\\n");
    assert_eq!(json_escape("\u{1}"), "\\u0001");
}

#[test]
fn escapes_every_control_character() {
    assert_eq!(json_escape("\r\t"), "\\r\\t");
    assert_eq!(json_escape("\u{1f}x\u{10}"), "\\u001fx\\u0010");
    assert_eq!(json_escape("é ü/"), "é ü/");
    assert_eq!(json_escape(""), "");
}

#[test]
fn encodes_events() {
    assert_eq!(
        encode_event(&HostEvent::Ready),
        r#"{"type":"gx:event","v":1,"event":"ready"}"#
    );
    assert_eq!(
        encode_event(&HostEvent::State("Playing".into())),
        r#"{"type":"gx:event","v":1,"event":"state","state":"Playing"}"#
    );
    assert_eq!(
        encode_event(&HostEvent::Score(1500)),
        r#"{"type":"gx:event","v":1,"event":"score","score":1500}"#
    );
    assert_eq!(
        encode_event(&HostEvent::Custom {
            name: "lap".into(),
            data: "{\"n\":2}".into()
        }),
        r#"{"type":"gx:event","v":1,"event":"custom","name":"lap","data":{"n":2}}"#
    );
}

#[test]
fn encodes_the_remaining_events() {
    assert_eq!(PROTOCOL_VERSION, 1);
    assert_eq!(
        encode_event(&HostEvent::Started),
        r#"{"type":"gx:event","v":1,"event":"started"}"#
    );
    assert_eq!(
        encode_event(&HostEvent::GameOver),
        r#"{"type":"gx:event","v":1,"event":"gameover"}"#
    );
    assert_eq!(
        encode_event(&HostEvent::Paused(true)),
        r#"{"type":"gx:event","v":1,"event":"paused","paused":true}"#
    );
    assert_eq!(
        encode_event(&HostEvent::Paused(false)),
        r#"{"type":"gx:event","v":1,"event":"paused","paused":false}"#
    );
    assert_eq!(
        encode_event(&HostEvent::Score(0)),
        r#"{"type":"gx:event","v":1,"event":"score","score":0}"#
    );
    assert_eq!(
        encode_event(&HostEvent::Score(u64::MAX)),
        r#"{"type":"gx:event","v":1,"event":"score","score":18446744073709551615}"#
    );
    assert_eq!(
        encode_event(&HostEvent::State("Say \"hi\"".into())),
        r#"{"type":"gx:event","v":1,"event":"state","state":"Say \"hi\""}"#
    );
}

#[test]
fn encodes_hello() {
    let cfg = GxConfig {
        name: "Pizza \"Rush\"".into(),
        ..Default::default()
    };
    assert_eq!(
        encode_hello(&cfg, true),
        r#"{"type":"gx:hello","v":1,"name":"Pizza \"Rush\"","aspect":"16:9","hasTouchControls":true}"#
    );
}

#[test]
fn config_defaults_and_named_plugin() {
    let cfg = GxConfig::default();
    assert_eq!(cfg.name, "Gamebient Game");
    assert_eq!(cfg.aspect, "16:9");
    assert!(cfg.extra_host_origins.is_empty());
    assert_eq!(
        encode_hello(&cfg, false),
        r#"{"type":"gx:hello","v":1,"name":"Gamebient Game","aspect":"16:9","hasTouchControls":false}"#
    );
    let p = GxInputPlugin::named("My Game".to_string());
    assert_eq!(p.config.name, "My Game");
    assert_eq!(p.config.aspect, "16:9");
    assert_eq!(GxInputPlugin::default().config, GxConfig::default());
}

#[test]
fn parses_the_queued_commands() {
    assert_eq!(parse_command("pause"), Some(HostCommand::Pause));
    assert_eq!(parse_command("resume"), Some(HostCommand::Resume));
    assert_eq!(parse_command("mute:1"), Some(HostCommand::Mute(true)));
    assert_eq!(parse_command("mute:0"), Some(HostCommand::Mute(false)));
    assert_eq!(
        parse_command("hello:1"),
        Some(HostCommand::Hello { host_has_controls: true })
    );
    assert_eq!(
        parse_command("hello:0"),
        Some(HostCommand::Hello { host_has_controls: false })
    );
    assert_eq!(parse_command("mute"), None);
    assert_eq!(parse_command("pause "), None);
    assert_eq!(parse_command(""), None);
    assert_eq!(parse_command("PAUSE"), None);
}

#[test]
fn joins_extra_origins_with_commas() {
    assert_eq!(join_origins(&vec![]), "");
    assert_eq!(join_origins(&vec!["https://a.example".to_string()]), "https://a.example");
    assert_eq!(
        join_origins(&vec![
            "https://a.example".to_string(),
            "https://b.example".to_string()
        ]),
        "https://a.example,https://b.example"
    );
}

#[test]
fn state_events_only_on_a_real_transition() {
    assert_eq!(
        state_event(Some("Menu".to_string()), false),
        Some(HostEvent::State("Menu".to_string()))
    );
    assert_eq!(
        state_event(Some("Playing".to_string()), false),
        Some(HostEvent::State("Playing".to_string()))
    );
    assert_eq!(state_event(Some("Menu".to_string()), true), None);
    assert_eq!(state_event(None, false), None);
    assert_eq!(state_event(None, true), None);
}
