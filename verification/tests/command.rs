use portal_server_agent::command::{
    command_script, console_quote, sanitize_name, CommandFrame, Json, Step,
};

fn text(s: &str) -> Json {
    Json::Text(s.to_string())
}

fn record(fields: Vec<(&str, Json)>) -> Json {
    Json::Record(fields.into_iter().map(|(k, v)| (k.to_string(), v)).collect())
}

fn script(cmd: &str, args: Option<Json>) -> Vec<Result<String, String>> {
    let frame = CommandFrame { id: "1".to_string(), cmd: cmd.to_string(), args };
    command_script(&frame)
        .into_iter()
        .map(|step| match step {
            Step::Run(command) => Ok(command),
            Step::Fail(error) => Err(error),
        })
        .collect()
}

fn ok(s: &str) -> Result<String, String> {
    Ok(s.to_string())
}

fn err(s: &str) -> Result<String, String> {
    Err(s.to_string())
}

#[test]
fn arguments_are_quoted_or_refused() {
    assert_eq!(console_quote("https://x/y"), ok("\"https://x/y\""));
    assert_eq!(console_quote(""), ok("\"\""));
    for bad in ["a\"b", "a\nb", "a;b"] {
        assert_eq!(console_quote(bad), err("argument contains console metacharacters"));
    }
    assert_eq!(console_quote("a\rb"), ok("\"a\rb\""));
}

#[test]
fn names_are_sanitized() {
    assert_eq!(sanitize_name("  Zoë \"; quit\r\n"), "Zoë  quit");
    assert_eq!(sanitize_name("plain name"), "plain name");
    assert_eq!(sanitize_name(""), "player");
    assert_eq!(sanitize_name(" ;\";\n "), "player");
}

#[test]
fn matches_are_loaded_by_url() {
    let url = || ("url", text("https://p/m.json"));
    assert_eq!(
        script("load_match", Some(record(vec![url()]))),
        vec![ok("matchzy_loadmatch_url \"https://p/m.json\"")]
    );
    assert_eq!(
        script(
            "load_match",
            Some(record(vec![
                url(),
                ("header_name", text("Authorization")),
                ("header_value", text("Bearer t")),
            ]))
        ),
        vec![ok(
            "matchzy_loadmatch_url \"https://p/m.json\" \"Authorization\" \"Bearer t\""
        )]
    );
    assert_eq!(
        script("load_match", Some(record(vec![url(), ("header_name", text("A"))]))),
        vec![ok("matchzy_loadmatch_url \"https://p/m.json\" \"A\" \"\"")]
    );
    // Without a header name the value is not looked at.
    assert_eq!(
        script("load_match", Some(record(vec![url(), ("header_value", text(";"))]))),
        vec![ok("matchzy_loadmatch_url \"https://p/m.json\"")]
    );
    assert_eq!(
        script("load_backup", Some(record(vec![url()]))),
        vec![ok("matchzy_loadbackup_url \"https://p/m.json\"")]
    );
}

#[test]
fn url_commands_fail_over_their_arguments() {
    assert_eq!(script("load_match", None), vec![err("load_match requires args")]);
    assert_eq!(script("load_backup", None), vec![err("load_backup requires args")]);
    for args in [Json::Other, record(vec![("url", Json::Other)]), Json::List(Vec::new())] {
        assert_eq!(script("load_match", Some(args)), vec![err("missing url")]);
    }
    let bad = err("argument contains console metacharacters");
    assert_eq!(
        script("load_match", Some(record(vec![("url", text("x;quit"))]))),
        vec![bad.clone()]
    );
    assert_eq!(
        script(
            "load_backup",
            Some(record(vec![("url", text("x")), ("header_name", text("\""))]))
        ),
        vec![bad.clone()]
    );
    assert_eq!(
        script(
            "load_backup",
            Some(record(vec![
                ("url", text("x")),
                ("header_name", text("A")),
                ("header_value", text("\n")),
            ]))
        ),
        vec![bad]
    );
}

#[test]
fn fixed_commands_take_no_arguments() {
    assert_eq!(script("end_match", None), vec![ok("css_endmatch")]);
    assert_eq!(script("status", Some(Json::Other)), vec![ok("get5_status")]);
    assert_eq!(script("reboot", None), vec![err("unknown command: reboot")]);
    assert_eq!(script("", None), vec![err("unknown command: ")]);
}

#[test]
fn rosters_are_edited_removals_first() {
    let args = record(vec![
        (
            "add",
            Json::List(vec![
                record(vec![
                    ("steamid64", text("3")),
                    ("team", text("team2")),
                    ("name", text(" a;b ")),
                ]),
                record(vec![("steamid64", text("4")), ("team", text("spec"))]),
                record(vec![("steamid64", text("5")), ("team", text("red")), ("name", text(""))]),
            ]),
        ),
        ("remove", Json::List(vec![text("1"), text("2")])),
    ]);
    assert_eq!(
        script("roster_edit", Some(args)),
        vec![
            ok("matchzy_removeplayer 1"),
            ok("matchzy_removeplayer 2"),
            ok("matchzy_addplayer 3 team2 \"ab\""),
            ok("matchzy_addplayer 4 spec \"player\""),
            ok("matchzy_addplayer 5 team1 \"player\""),
        ]
    );
}

#[test]
fn roster_entries_fail_one_by_one() {
    let args = record(vec![
        ("remove", Json::List(vec![text("1"), Json::Other, text("x")])),
        (
            "add",
            Json::List(vec![
                record(vec![("name", text("n"))]),
                record(vec![("steamid64", text("7 ;"))]),
                text("8"),
            ]),
        ),
    ]);
    assert_eq!(
        script("roster_edit", Some(args)),
        vec![
            ok("matchzy_removeplayer 1"),
            err("remove entries are steamid64 strings"),
            err("invalid steamid64 in remove list"),
            err("add entries need steamid64"),
            err("invalid steamid64 in add list"),
            err("add entries need steamid64"),
        ]
    );
    assert_eq!(script("roster_edit", None), vec![err("roster_edit requires args")]);
    assert_eq!(script("roster_edit", Some(record(Vec::new()))), Vec::new());
    assert_eq!(
        script("roster_edit", Some(record(vec![("remove", text("1")), ("add", Json::Other)]))),
        Vec::new()
    );
}

#[test]
fn raw_commands_pass_the_refusal() {
    assert_eq!(script("exec", None), vec![err("exec requires args")]);
    assert_eq!(script("exec", Some(record(Vec::new()))), vec![err("missing command")]);
    assert_eq!(
        script("exec", Some(record(vec![("command", text(" say hi"))]))),
        vec![ok(" say hi")]
    );
    assert_eq!(
        script("exec", Some(record(vec![("command", text("Quit"))]))),
        vec![err("refused: quit would end the server process")]
    );
}

#[test]
fn every_script_runs_single_commands() {
    let nasty = "a\"b;c\nd";
    let args = || {
        record(vec![
            ("url", text(nasty)),
            ("command", text(nasty)),
            ("remove", Json::List(vec![text(nasty)])),
            (
                "add",
                Json::List(vec![record(vec![("steamid64", text("1")), ("name", text(nasty))])]),
            ),
        ])
    };
    for cmd in ["load_match", "load_backup", "roster_edit", "exec", "status", "end_match", nasty] {
        for step in script(cmd, Some(args())) {
            if let Ok(command) = step {
                assert!(!command.contains(';') && !command.contains('\n'), "{command}");
            }
        }
    }
}

#[test]
fn json_fields_are_found_by_name() {
    let value = record(vec![("a", text("1")), ("b", Json::Other)]);
    assert_eq!(value.text_field("a"), Some("1"));
    assert_eq!(value.text_field("b"), None);
    assert_eq!(value.text_field("c"), None);
    assert!(value.field("b").is_some());
    assert!(text("a").field("a").is_none());
    assert_eq!(value.text_field_or("c", "d"), "d");
    assert_eq!(text("a").as_text(), Some("a"));
    assert_eq!(Json::Other.as_text(), None);
}
