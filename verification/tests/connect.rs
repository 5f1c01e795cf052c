use portal_server_agent::connect::{credentials, dial, Credentials, DialError};
use portal_server_agent::run::RunConfig;

fn config(url: &str, dev_id: Option<&str>, files: [Option<&str>; 3]) -> RunConfig {
    let [cert, key, ca] = files.map(|f| f.map(|s| s.to_string()));
    RunConfig {
        portal_url: url.to_string(),
        cert_path: cert,
        key_path: key,
        ca_path: ca,
        rcon_addr: "127.0.0.1:27015".to_string(),
        rcon_password: "p".to_string(),
        heartbeat_secs: 30,
        dev_server_id: dev_id.map(|s| s.to_string()),
    }
}

const FILES: [Option<&str>; 3] = [Some("c.pem"), Some("c.key"), Some("ca.pem")];

fn error_of(config: &RunConfig) -> DialError {
    match dial(config) {
        Ok(_) => panic!("dialled"),
        Err(e) => e,
    }
}

#[test]
fn dev_mode_sends_its_id_and_no_certificate() {
    let d = dial(&config("ws://localhost:3000/agent/ws", Some("server-1"), FILES))
        .unwrap_or_else(|e| panic!("{e:?}"));
    assert!(d.certificate.is_none());
    assert_eq!(d.request.uri().to_string(), "ws://localhost:3000/agent/ws");
    let values: Vec<_> = d.request.headers().get_all("x-dev-server-id").iter().collect();
    assert_eq!(values.len(), 1);
    assert_eq!(values[0].as_bytes(), b"server-1");
    assert_eq!(d.request.headers()["host"].as_bytes(), b"localhost:3000");
    assert_eq!(d.request.headers().len(), 6);
}

#[test]
fn certificates_are_shown_otherwise() {
    let d = dial(&config("wss://agents.example.com/ws", None, FILES))
        .unwrap_or_else(|e| panic!("{e:?}"));
    let paths = d.certificate.unwrap();
    assert_eq!(paths.cert, "c.pem");
    assert_eq!(paths.key, "c.key");
    assert_eq!(paths.ca, "ca.pem");
    assert!(d.request.headers().get("x-dev-server-id").is_none());
    assert_eq!(d.request.headers().len(), 5);
}

#[test]
fn missing_files_are_an_error_outside_dev_mode() {
    for i in 0..3 {
        let mut files = FILES;
        files[i] = None;
        let e = error_of(&config("wss://x/ws", None, files));
        assert_eq!(e, DialError::MissingCertificate);
        assert_eq!(
            e.message(),
            "PORTAL_AGENT_CERT/KEY/CA are required (or --dev-server-id for dev mode)"
        );
        assert!(credentials(&config("wss://x/ws", None, files)).is_err());
        assert!(matches!(
            credentials(&config("", Some("d"), files)),
            Ok(Credentials::DevId(id)) if id == "d"
        ));
    }
}

#[test]
fn unusable_urls_are_an_error() {
    for url in ["", "not a url", "/only/a/path", "ws://"] {
        let e = error_of(&config(url, Some("d"), FILES));
        assert_eq!(e, DialError::InvalidUrl);
        assert_eq!(e.message(), "invalid portal URL");
    }
}

#[test]
fn unusable_dev_ids_are_an_error() {
    for id in ["a\nb", "\u{7f}", "\0"] {
        let e = error_of(&config("ws://x/ws", Some(id), FILES));
        assert_eq!(e, DialError::InvalidDevId);
        assert_eq!(e.message(), "invalid dev id");
    }
    for id in ["", "a\tb", "é", " ~"] {
        let d = dial(&config("ws://x/ws", Some(id), FILES)).unwrap_or_else(|e| panic!("{e:?}"));
        assert_eq!(d.request.headers()["x-dev-server-id"].as_bytes(), id.as_bytes());
    }
}
