use pg_dispatcher::pg_source::{listen_statement, validate_channel_name};
use pg_dispatcher::Error;

#[test]
fn valid_channel() {
    assert!(validate_channel_name("events").is_ok());
}

#[test]
fn valid_channel_with_underscore() {
    assert!(validate_channel_name("_my_channel_2").is_ok());
}

#[test]
fn reject_empty() {
    assert!(matches!(
        validate_channel_name(""),
        Err(Error::InvalidChannel(_))
    ));
}

#[test]
fn reject_numeric_start() {
    assert!(matches!(
        validate_channel_name("9events"),
        Err(Error::InvalidChannel(_))
    ));
}

#[test]
fn reject_semicolon() {
    assert!(matches!(
        validate_channel_name("ev;DROP TABLE"),
        Err(Error::InvalidChannel(_))
    ));
}

#[test]
fn reject_hyphen() {
    assert!(matches!(
        validate_channel_name("my-channel"),
        Err(Error::InvalidChannel(_))
    ));
}

#[test]
fn reject_non_ascii_letter() {
    assert!(matches!(
        validate_channel_name("événements"),
        Err(Error::InvalidChannel(_))
    ));
}

#[test]
fn listen_statement_for_valid_channel() {
    assert_eq!(listen_statement("events").unwrap(), "LISTEN events");
    assert_eq!(listen_statement("_a1").unwrap(), "LISTEN _a1");
}

#[test]
fn listen_statement_refuses_injection() {
    match listen_statement("ev;DROP TABLE") {
        Err(Error::InvalidChannel(m)) => assert_eq!(
            m,
            "channel name must contain only alphanumeric characters and underscores, got: \"ev;DROP TABLE\""
        ),
        other => panic!("unexpected result: {:?}", other),
    }
}
