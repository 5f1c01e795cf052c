use portal_server_agent::heartbeat::{
    bound_status, extract_json, find_braces, reachable_heartbeat, truncate_chars, Heartbeat,
    Probe, STATUS_OUTPUT_MAX, TRUNCATION_MARK_BYTES,
};
use portal_server_agent::protocol::Field;

fn shown(fields: Vec<(String, Field)>) -> Vec<(String, String)> {
    fields
        .into_iter()
        .map(|(name, value)| {
            let value = match value {
                Field::Null => "null".to_string(),
                Field::Flag(b) => b.to_string(),
                Field::Text(s) => format!("{s:?}"),
                Field::Json(v) => v.to_string(),
            };
            (name, value)
        })
        .collect()
}

fn pairs(expected: &[(&str, &str)]) -> Vec<(String, String)> {
    expected.iter().map(|(k, v)| (k.to_string(), v.to_string())).collect()
}

#[test]
fn truncation_keeps_char_boundaries() {
    let s = "é".repeat(10);
    let t = truncate_chars(&s, 5);
    assert!(t.starts_with("éé"));
    assert!(t.ends_with("[truncated]"));
    assert_eq!(truncate_chars("short", 100), "short");
}

#[test]
fn truncation_keeps_what_fits() {
    assert_eq!(truncate_chars("éééé", 5), "éé\n[truncated]");
    assert_eq!(truncate_chars("éééé", 8), "éééé");
    assert_eq!(truncate_chars("éééé", 7), "ééé\n[truncated]");
    assert_eq!(truncate_chars("abc", 0), "\n[truncated]");
    assert_eq!(truncate_chars("", 0), "");
    assert_eq!(truncate_chars("a€😀b", 7), "a€\n[truncated]");
    assert_eq!(truncate_chars("a€😀b", 8), "a€😀\n[truncated]");
    assert_eq!(truncate_chars("a€😀b", 9), "a€😀b");
}

#[test]
fn objects_are_found_in_console_noise() {
    assert_eq!(find_braces("x {\"a\": {}} y"), Some("{\"a\": {}}".to_string()));
    assert_eq!(find_braces("{}"), Some("{}".to_string()));
    assert_eq!(find_braces("no object"), None);
    assert_eq!(find_braces("{ open"), None);
    assert_eq!(find_braces("} closed"), None);
    assert_eq!(find_braces("} the wrong way round {"), None);

    let value = extract_json("[log] {\"gamestate\": \"none\", \"n\": 3} ok\n").unwrap();
    assert_eq!(value["gamestate"].as_str(), Some("none"));
    assert_eq!(value["n"].as_i64(), Some(3));
    assert!(extract_json("{not json}").is_none());
    assert!(extract_json("").is_none());
}

#[test]
fn reachable_servers_are_asked_twice() {
    let mut probe = Probe::start();
    assert_eq!(probe.question(), "get5_status");
    assert!(probe.answer(Some("noise {\"a\":1}".to_string())).is_none());
    assert_eq!(probe.question(), "status");
    let heartbeat = probe.answer(Some("map: de_nuke".to_string())).unwrap();
    assert_eq!(
        shown(heartbeat.into_fields("0.2.0")),
        pairs(&[
            ("type", "\"heartbeat\""),
            ("agent_version", "\"0.2.0\""),
            ("rcon_ok", "true"),
            ("get5_status", "{\"a\":1}"),
            ("status_output", "\"map: de_nuke\""),
        ])
    );
}

#[test]
fn missing_parts_of_a_heartbeat_are_null() {
    let mut probe = Probe::start();
    assert!(probe.answer(Some("Unknown command".to_string())).is_none());
    let heartbeat = probe.answer(None).unwrap();
    assert_eq!(
        shown(heartbeat.into_fields("1.2.3")),
        pairs(&[
            ("type", "\"heartbeat\""),
            ("agent_version", "\"1.2.3\""),
            ("rcon_ok", "true"),
            ("get5_status", "null"),
            ("status_output", "null"),
        ])
    );
}

#[test]
fn unreachable_servers_say_so() {
    let mut probe = Probe::start();
    let heartbeat = probe.answer(None).unwrap();
    assert!(matches!(heartbeat, Heartbeat::Unreachable));
    assert_eq!(
        shown(heartbeat.into_fields("v")),
        pairs(&[
            ("type", "\"heartbeat\""),
            ("agent_version", "\"v\""),
            ("rcon_ok", "false"),
        ])
    );
}

#[test]
fn status_output_is_bounded() {
    assert_eq!(TRUNCATION_MARK_BYTES, "\n[truncated]".len());
    for length in [8193, 9000, 100_000] {
        match reachable_heartbeat(None, Some("x".repeat(length))) {
            Heartbeat::Reachable { status_output: Some(output), .. } => {
                assert_eq!(output, format!("{}\n[truncated]", "x".repeat(8180)));
                assert_eq!(output.len(), STATUS_OUTPUT_MAX);
            }
            other => panic!("{other:?}"),
        }
    }
    let full = "x".repeat(8192);
    match reachable_heartbeat(None, Some(full.clone())) {
        Heartbeat::Reachable { status_output: Some(output), .. } => assert_eq!(output, full),
        other => panic!("{other:?}"),
    }
}

#[test]
fn bounded_status_output_keeps_whole_characters() {
    let output = "€".repeat(3000);
    let sent = bound_status(&output);
    assert_eq!(sent, format!("{}\n[truncated]", "€".repeat(2726)));
    assert!(sent.len() <= STATUS_OUTPUT_MAX);
    assert_eq!(bound_status(&"€".repeat(2730)), "€".repeat(2730));
    assert_eq!(bound_status(""), "");
}
