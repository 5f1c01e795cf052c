use portal_server_agent::command::{CommandFrame, Json};
use portal_server_agent::execution::{command_label, Action, Execution, Reply};
use portal_server_agent::protocol::Field;

fn frame(cmd: &str, args: Option<Json>) -> CommandFrame {
    CommandFrame { id: "42".to_string(), cmd: cmd.to_string(), args }
}

fn roster(remove: Vec<&str>) -> Option<Json> {
    let items = remove.into_iter().map(|s| Json::Text(s.to_string())).collect();
    Some(Json::Record(vec![("remove".to_string(), Json::List(items))]))
}

fn raw(command: &str) -> Option<Json> {
    Some(Json::Record(vec![("command".to_string(), Json::Text(command.to_string()))]))
}

fn command_of(e: &Execution) -> String {
    match e.next() {
        Action::Rcon(command) => command,
        Action::Reply(reply) => panic!("{reply:?}"),
    }
}

fn reply_of(e: &Execution) -> Reply {
    match e.next() {
        Action::Rcon(command) => panic!("{command}"),
        Action::Reply(reply) => reply,
    }
}

fn shown(fields: Vec<(String, Field)>) -> Vec<(String, String)> {
    fields
        .into_iter()
        .map(|(name, value)| {
            let value = match value {
                Field::Null => "null".to_string(),
                Field::Flag(b) => b.to_string(),
                Field::Text(s) => format!("{s:?}"),
                Field::Json(v) => v.to_string(),
            };
            (name, value)
        })
        .collect()
}

fn pairs(expected: &[(&str, &str)]) -> Vec<(String, String)> {
    expected.iter().map(|(k, v)| (k.to_string(), v.to_string())).collect()
}

#[test]
fn scripts_are_run_in_order_and_answered_once() {
    let mut e = Execution::start(&frame("roster_edit", roster(vec!["1", "2"])));
    assert_eq!(command_of(&e), "matchzy_removeplayer 1");
    assert_eq!(command_of(&e), "matchzy_removeplayer 1");
    e.resume(Ok("gone".to_string()));
    assert_eq!(command_of(&e), "matchzy_removeplayer 2");
    e.resume(Ok("gone too".to_string()));
    let reply = reply_of(&e);
    assert_eq!(reply.id, "42");
    assert_eq!(reply.result, Ok("gone\ngone too".to_string()));
    // The answer stays, whatever comes late.
    e.resume(Ok("late".to_string()));
    e.resume(Err("late".to_string()));
    assert_eq!(reply_of(&e).result, Ok("gone\ngone too".to_string()));
}

#[test]
fn empty_scripts_are_answered_at_once() {
    let e = Execution::start(&frame("roster_edit", roster(Vec::new())));
    assert_eq!(reply_of(&e).result, Ok(String::new()));
}

#[test]
fn failing_steps_end_the_script() {
    let mut e = Execution::start(&frame("roster_edit", roster(vec!["1", "x", "3"])));
    assert_eq!(command_of(&e), "matchzy_removeplayer 1");
    e.resume(Ok("gone".to_string()));
    assert_eq!(reply_of(&e).result, Err("invalid steamid64 in remove list".to_string()));
}

#[test]
fn rcon_errors_end_the_script() {
    let mut e = Execution::start(&frame("roster_edit", roster(vec!["1", "2"])));
    e.resume(Err("rcon read timeout".to_string()));
    assert_eq!(reply_of(&e).result, Err("rcon read timeout".to_string()));
}

#[test]
fn refused_commands_are_answered_with_the_refusal() {
    let e = Execution::start(&frame("exec", raw("sv_password x")));
    let reply = reply_of(&e);
    assert_eq!(reply.outcome_label(), "error");
    assert_eq!(
        shown(reply.into_fields()),
        pairs(&[
            ("id", "\"42\""),
            ("ok", "false"),
            ("error", "\"refused: sv_password is portal-owned\""),
        ])
    );
}

#[test]
fn accepted_commands_are_answered_with_their_output() {
    let mut e = Execution::start(&frame("exec", raw("status")));
    assert_eq!(command_of(&e), "status");
    e.resume(Ok("hostname: x".to_string()));
    let reply = reply_of(&e);
    assert_eq!(reply.outcome_label(), "ok");
    assert_eq!(
        shown(reply.into_fields()),
        pairs(&[("id", "\"42\""), ("ok", "true"), ("output", "\"hostname: x\"")])
    );
}

#[test]
fn labels_are_the_known_verbs_only() {
    for cmd in ["load_match", "end_match", "status", "load_backup", "roster_edit", "exec"] {
        assert_eq!(command_label(cmd), cmd);
    }
    for cmd in ["", "Exec", "exec ", "x"] {
        assert_eq!(command_label(cmd), "unknown");
    }
}

#[test]
fn every_frame_is_answered_whatever_comes_back() {
    for failing in 0..4 {
        let mut e = Execution::start(&frame("roster_edit", roster(vec!["1", "2", "3"])));
        for i in 0..3 {
            let result = if i == failing { Err("lost".to_string()) } else { Ok(i.to_string()) };
            e.resume(result);
        }
        let expected = if failing < 3 { Err("lost".to_string()) } else { Ok("0\n1\n2".to_string()) };
        assert_eq!(reply_of(&e).result, expected);
    }
}
