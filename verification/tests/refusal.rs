use portal_server_agent::refusal::exec_refusal;

#[test]
fn plain_console_commands_pass() {
    for c in [
        "status",
        "mp_warmuptime 60",
        "changelevel de_mirage",
        "host_workshop_map 3070284539",
        "say \"gl hf\"",
    ] {
        assert_eq!(exec_refusal(c), None, "{c}");
    }
}

#[test]
fn portal_owned_cvars_are_refused_whatever_the_case() {
    for c in [
        "rcon_password hunter2",
        "RCON_PASSWORD x",
        "sv_password x",
        "tv_password x",
        "sv_rcon_whitelist_address 1.2.3.4",
        "matchzy_remote_log_url https://evil",
        "matchzy_demo_upload_url https://evil",
        "matchzy_loadmatch_url https://evil",
        "logaddress_add 1.2.3.4:1234",
    ] {
        assert!(
            exec_refusal(c).is_some_and(|r| r.contains("portal-owned")),
            "{c}"
        );
    }
}

#[test]
fn escapes_and_process_commands_are_refused() {
    assert!(exec_refusal("alias x rcon_password y").is_some());
    assert!(exec_refusal("exec server.cfg").is_some());
    assert!(exec_refusal("quit").is_some());
    assert!(exec_refusal("_restart").is_some());
    assert!(exec_refusal("mp_warmuptime 60; rcon_password x").is_some());
    assert!(exec_refusal("status\r").is_some());
    assert!(exec_refusal("   ").is_some());
}

#[test]
fn every_listed_verb_is_refused_with_its_reason() {
    for verb in [
        "rcon_password",
        "sv_password",
        "tv_password",
        "sv_rcon_minfailures",
        "matchzy_remote_log_url",
        "matchzy_remote_log_header_key",
        "matchzy_demo_upload_header_value",
        "matchzy_loadmatch",
        "matchzy_loadmatch_url",
        "matchzy_loadmatch_anything",
        "matchzy_loadbackup_url",
        "logaddress_add",
        "logaddress_del",
        "sv_downloadurl",
        "host_writeconfig",
    ] {
        assert_eq!(
            exec_refusal(&format!("{verb} x")),
            Some(format!("{verb} is portal-owned"))
        );
    }
    for verb in ["alias", "exec"] {
        assert_eq!(
            exec_refusal(verb),
            Some(format!("{verb} could run commands the check cannot see"))
        );
    }
    for verb in ["quit", "exit", "_restart", "killserver", "crash"] {
        assert_eq!(
            exec_refusal(verb),
            Some(format!("{verb} would end the server process"))
        );
    }
}

#[test]
fn refusals_name_what_is_wrong() {
    assert_eq!(
        exec_refusal("say hi\n"),
        Some("control characters are not allowed".to_string())
    );
    assert_eq!(
        exec_refusal("say\u{85}hi"),
        Some("control characters are not allowed".to_string())
    );
    assert_eq!(
        exec_refusal("\t;"),
        Some("control characters are not allowed".to_string())
    );
    assert_eq!(
        exec_refusal("say a;say b"),
        Some("one command per request; ';' is not allowed".to_string())
    );
    assert_eq!(exec_refusal(""), Some("empty command".to_string()));
    assert_eq!(exec_refusal("  \u{3000}"), Some("empty command".to_string()));
}

#[test]
fn refusals_ignore_the_case_of_the_letters() {
    assert_eq!(exec_refusal("QuIt"), exec_refusal("quit"));
    assert_eq!(
        exec_refusal("SV_Rcon_X 1"),
        Some("sv_rcon_x is portal-owned".to_string())
    );
    assert_eq!(exec_refusal("Say QUIT"), None);
    // Only ASCII letters have a case here.
    assert_eq!(exec_refusal("QUİT"), None);
}

#[test]
fn leading_blanks_do_not_hide_the_verb() {
    assert_eq!(exec_refusal("   quit now"), exec_refusal("quit now"));
    assert_eq!(exec_refusal("\u{a0}\u{2003}exit"), exec_refusal("exit"));
    assert_eq!(exec_refusal("quit\u{a0}now"), exec_refusal("quit"));
}

#[test]
fn verbs_that_only_resemble_forbidden_ones_pass() {
    for c in ["quitter", "aliases", "sv_rcon", "rcon_passwords", "matchzy_loadbackup", "execute"] {
        assert_eq!(exec_refusal(c), None, "{c}");
    }
}
