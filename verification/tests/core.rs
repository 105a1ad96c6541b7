use redisbrute::commands::auth_command;
use redisbrute::commands::auth_command_acl;
use redisbrute::commands::ping_command;
use redisbrute::escape::escape_lines;
use redisbrute::escape::escape_quotes;
use redisbrute::probe::acl_auth_supported;
use redisbrute::probe::classify_probe_reply;
use redisbrute::probe::ProbeOutcome;
use redisbrute::record::FoundCredential;
use redisbrute::reply_is_success;
use redisbrute::session::ExchangeEvent;
use redisbrute::session::SessionAction;
use redisbrute::session::session_step;
use redisbrute::target::make_addr;
use redisbrute::target::parse_target;

#[test]
fn parse_target_with_port() {
    let (host, port) = parse_target(&String::from("10.0.0.1:6380"));
    assert_eq!(host, "10.0.0.1");
    assert_eq!(port, "6380");
}

#[test]
fn parse_target_without_port_defaults() {
    let (host, port) = parse_target(&String::from("example.com"));
    assert_eq!(host, "example.com");
    assert_eq!(port, "6379");
}

#[test]
fn parse_target_extra_colon_keeps_middle_segment() {
    let (host, port) = parse_target(&String::from("a:b:c"));
    assert_eq!(host, "a");
    assert_eq!(port, "b");
}

#[test]
fn parse_target_empty_host() {
    let (host, port) = parse_target(&String::from(":7000"));
    assert_eq!(host, "");
    assert_eq!(port, "7000");
}

#[test]
fn make_addr_joins_host_and_port() {
    let addr = make_addr(&String::from("127.0.0.1"), &String::from("6379"));
    assert_eq!(addr, "127.0.0.1:6379");
}

#[test]
fn escape_quotes_single_quote() {
    let escaped = escape_quotes(&String::from("pa'ss"));
    assert_eq!(escaped, "pa\\'ss");
}

#[test]
fn escape_quotes_without_quote_is_identity() {
    let escaped = escape_quotes(&String::from("hunter2"));
    assert_eq!(escaped, "hunter2");
}

#[test]
fn escape_quotes_several_quotes() {
    let escaped = escape_quotes(&String::from("''"));
    assert_eq!(escaped, "\\'\\'");
}

#[test]
fn escape_quotes_empty() {
    let escaped = escape_quotes(&String::from(""));
    assert_eq!(escaped, "");
}

#[test]
fn escape_lines_escapes_each_line_once() {
    let lines = vec![String::from("pa'ss"), String::from("plain")];
    let escaped = escape_lines(&lines);
    assert_eq!(escaped, vec![String::from("pa\\'ss"), String::from("plain")]);
}

#[test]
fn ping_command_text() {
    assert_eq!(ping_command(), "PING\r\n");
}

#[test]
fn auth_command_text() {
    assert_eq!(auth_command(&String::from("secret")), "AUTH 'secret'\r\n");
}

#[test]
fn auth_command_acl_text() {
    assert_eq!(
        auth_command_acl(&String::from("bob"), &String::from("pw1")),
        "AUTH 'bob' 'pw1'\r\n"
    );
}

#[test]
fn auth_command_with_escaped_password() {
    let escaped = escape_quotes(&String::from("pa'ss"));
    assert_eq!(auth_command(&escaped), "AUTH 'pa\\'ss'\r\n");
}

#[test]
fn classify_noauth_reply() {
    let reply = b"-NOAUTH Authentication required.\r\n".to_vec();
    assert_eq!(classify_probe_reply(&reply), ProbeOutcome::AuthRequired);
}

#[test]
fn classify_pong_reply() {
    let reply = b"+PONG\r\n".to_vec();
    assert_eq!(classify_probe_reply(&reply), ProbeOutcome::NoAuth);
}

#[test]
fn classify_other_reply_is_ambiguous() {
    let reply = b"-ERR unknown command\r\n".to_vec();
    assert_eq!(classify_probe_reply(&reply), ProbeOutcome::Ambiguous);
}

#[test]
fn classify_empty_reply_is_ambiguous() {
    let reply: Vec<u8> = Vec::new();
    assert_eq!(classify_probe_reply(&reply), ProbeOutcome::Ambiguous);
}

#[test]
fn classify_short_reply_is_ambiguous() {
    let reply = b"+P".to_vec();
    assert_eq!(classify_probe_reply(&reply), ProbeOutcome::Ambiguous);
}

#[test]
fn wrong_argument_count_means_no_acl_support() {
    let reply = b"-ERR wrong number of arguments for 'auth' command\r\n".to_vec();
    assert!(!acl_auth_supported(&reply));
}

#[test]
fn other_error_replies_keep_acl_support() {
    assert!(acl_auth_supported(&b"-ERR invalid password\r\n".to_vec()));
    assert!(acl_auth_supported(&b"+OK\r\n".to_vec()));
    assert!(acl_auth_supported(&Vec::new()));
}

#[test]
fn success_reply_is_first_byte_plus() {
    assert!(reply_is_success(&b"+OK\r\n".to_vec()));
    assert!(reply_is_success(&b"+".to_vec()));
    assert!(!reply_is_success(&b"-ERR invalid password\r\n".to_vec()));
    assert!(!reply_is_success(&Vec::new()));
}

#[test]
fn record_line_has_fixed_field_order() {
    let rec = FoundCredential {
        timestamp: String::from("2024-05-01 12:00:00"),
        ip: String::from("10.0.0.1"),
        port: String::from("6379"),
        username: String::from("n/a"),
        password: String::from("correct"),
    };
    assert_eq!(
        rec.format_record(),
        "{\"timestamp\":\"2024-05-01 12:00:00\",\"ip\":\"10.0.0.1\",\"port\":\"6379\",\"username\":\"n/a\",\"password\":\"correct\"}"
    );
}

#[test]
fn found_credential_carries_its_fields() {
    let rec = FoundCredential::new(
        &String::from("10.0.0.1"),
        &String::from("6379"),
        &String::from("bob"),
        &String::from("pw1"),
    );
    assert_eq!(rec.ip, "10.0.0.1");
    assert_eq!(rec.port, "6379");
    assert_eq!(rec.username, "bob");
    assert_eq!(rec.password, "pw1");
}

#[test]
fn session_send_failure_reconnects() {
    assert!(matches!(
        session_step(ExchangeEvent::SendFailed),
        SessionAction::Reconnect
    ));
}

#[test]
fn session_empty_read_reconnects() {
    assert!(matches!(
        session_step(ExchangeEvent::Received(Vec::new())),
        SessionAction::Reconnect
    ));
}

#[test]
fn session_delivers_nonempty_reply() {
    match session_step(ExchangeEvent::Received(b"+PONG\r\n".to_vec())) {
        SessionAction::Deliver(bytes) => assert_eq!(bytes, b"+PONG\r\n".to_vec()),
        SessionAction::Reconnect => panic!("a non-empty reply must be delivered"),
    }
}
