use cde::protocol::channel::{EnvironmentChannel, TransportError, WriteOutcome, BAD_DESCRIPTOR, PARENT_FD};
use cde::protocol::command::{DecodeError, ShellCommand};

#[test]
fn test_serialize_set_env() {
    let cmd = ShellCommand::set_env("AWS_PROFILE", "production");
    let json = cmd.encode().unwrap();
    assert_eq!(
        json,
        r#"{"action":"set_env","key":"AWS_PROFILE","value":"production"}"#
    );
}

#[test]
fn test_serialize_unset_env() {
    let cmd = ShellCommand::unset_env("AWS_PROFILE");
    let json = cmd.encode().unwrap();
    assert_eq!(json, r#"{"action":"unset_env","key":"AWS_PROFILE"}"#);
}

#[test]
fn test_deserialize_set_env() {
    let json = r#"{"action":"set_env","key":"FOO","value":"bar"}"#;
    let cmd: ShellCommand = ShellCommand::decode(json).unwrap();
    match cmd {
        ShellCommand::SetEnv { key, value } => {
            assert_eq!(key, "FOO");
            assert_eq!(value, "bar");
        }
        _ => panic!("Wrong variant"),
    }
}

#[test]
fn decode_unset_env() {
    let cmd = ShellCommand::decode(r#"{"action":"unset_env","key":"AWS_REGION"}"#).unwrap();
    match cmd {
        ShellCommand::UnsetEnv { key } => assert_eq!(key, "AWS_REGION"),
        _ => panic!("Wrong variant"),
    }
}

#[test]
fn decode_fields_in_any_order_and_extra_fields() {
    let cmd = ShellCommand::decode(r#"{"value":"v","note":"x","key":"K","action":"set_env"}"#)
        .unwrap();
    match cmd {
        ShellCommand::SetEnv { key, value } => {
            assert_eq!(key, "K");
            assert_eq!(value, "v");
        }
        _ => panic!("Wrong variant"),
    }
}

#[test]
fn decode_missing_action() {
    let r = ShellCommand::decode(r#"{"key":"FOO","value":"bar"}"#);
    assert!(matches!(r, Err(DecodeError::MissingAction)));
}

#[test]
fn decode_unknown_action() {
    let r = ShellCommand::decode(r#"{"action":"export","key":"FOO","value":"bar"}"#);
    assert!(matches!(r, Err(DecodeError::UnknownAction)));
}

#[test]
fn decode_missing_value() {
    let r = ShellCommand::decode(r#"{"action":"set_env","key":"FOO"}"#);
    assert!(matches!(r, Err(DecodeError::MissingField)));
    let r = ShellCommand::decode(r#"{"action":"unset_env"}"#);
    assert!(matches!(r, Err(DecodeError::MissingField)));
}

#[test]
fn decode_malformed() {
    for text in ["", "[]", r#"{"action":"set_env""#, r#"{"a":tru}"#, r#"{"a":[1,}"#, r#"{"a":"b"} x"#, r#"{"a":"b",}"#] {
        assert!(matches!(ShellCommand::decode(text), Err(DecodeError::Malformed)), "{}", text);
    }
}

#[test]
fn decode_allows_whitespace_between_tokens() {
    let cmd = ShellCommand::decode(" {\"action\": \"set_env\",\n \"key\" : \"A\", \"value\": \"b\"}\r\n")
        .unwrap();
    match cmd {
        ShellCommand::SetEnv { key, value } => {
            assert_eq!(key, "A");
            assert_eq!(value, "b");
        }
        _ => panic!("Wrong variant"),
    }
    assert!(matches!(ShellCommand::decode(" { } "), Err(DecodeError::MissingAction)));
}

#[test]
fn decode_skips_fields_that_are_not_strings() {
    let text = r#"{"action": "set_env", "n": [1, {"x": "}"}], "key": "A", "f": null, "value": "b", "t": 2.5e3}"#;
    match ShellCommand::decode(text).unwrap() {
        ShellCommand::SetEnv { key, value } => {
            assert_eq!(key, "A");
            assert_eq!(value, "b");
        }
        _ => panic!("Wrong variant"),
    }
    assert!(matches!(ShellCommand::decode(r#"{"action":1}"#), Err(DecodeError::MissingAction)));
    assert!(matches!(
        ShellCommand::decode(r#"{"action":"unset_env","key":true}"#),
        Err(DecodeError::MissingField)
    ));
}

#[test]
fn decode_reads_escapes() {
    let cmd = ShellCommand::decode(r#"{"action":"set_env","key":"K","value":"a\"bC"}"#)
        .unwrap();
    match cmd {
        ShellCommand::SetEnv { value, .. } => assert_eq!(value, "a\"bC"),
        _ => panic!("Wrong variant"),
    }
}

#[test]
fn encode_escapes_special_characters() {
    let cmd = ShellCommand::set_env("K", "say \"hi\"\\\n");
    assert_eq!(
        cmd.encode().unwrap(),
        r#"{"action":"set_env","key":"K","value":"say \"hi\"\\\n"}"#
    );
}

#[test]
fn round_trip_keeps_the_command() {
    let values = ["", "plain", "with \"quotes\"", "back\\slash", "tab\tand\nnewline", "ünï\u{1}"];
    for v in values {
        let cmd = ShellCommand::set_env("SOME_KEY", v);
        let back = ShellCommand::decode(&cmd.encode().unwrap()).unwrap();
        match back {
            ShellCommand::SetEnv { key, value } => {
                assert_eq!(key, "SOME_KEY");
                assert_eq!(value, v);
            }
            _ => panic!("Wrong variant"),
        }
        let k = format!("K{}", v);
        let cmd = ShellCommand::unset_env(&k);
        match ShellCommand::decode(&cmd.encode().unwrap()).unwrap() {
            ShellCommand::UnsetEnv { key } => assert_eq!(key, k),
            _ => panic!("Wrong variant"),
        }
    }
}

#[test]
fn channel_queues_lines_in_order() {
    let mut ch = EnvironmentChannel::default();
    assert_eq!(ch.fd(), PARENT_FD);
    ch.set_env("AWS_PROFILE", "dev").unwrap();
    ch.unset_env("AWS_SESSION_TOKEN").unwrap();
    let lines = ch.take_pending();
    assert_eq!(
        lines,
        vec![
            "{\"action\":\"set_env\",\"key\":\"AWS_PROFILE\",\"value\":\"dev\"}\n".to_string(),
            "{\"action\":\"unset_env\",\"key\":\"AWS_SESSION_TOKEN\"}\n".to_string(),
        ]
    );
    assert!(ch.take_pending().is_empty());
}

#[test]
fn channel_send_queues_a_command() {
    let mut ch = EnvironmentChannel::new(7);
    assert_eq!(ch.fd(), 7);
    ch.send(&ShellCommand::unset_env("X")).unwrap();
    assert_eq!(ch.take_pending(), vec!["{\"action\":\"unset_env\",\"key\":\"X\"}\n".to_string()]);
}

#[test]
fn missing_listener_is_not_an_error() {
    for cmd in [ShellCommand::set_env("A", "b"), ShellCommand::unset_env("A")] {
        let mut ch = EnvironmentChannel::default();
        assert_eq!(ch.send(&cmd), Ok(()));
        for _line in ch.take_pending() {
            let out = ch.settle(WriteOutcome::Failed { os_code: Some(BAD_DESCRIPTOR) });
            assert_eq!(out, Ok(()));
        }
        assert_eq!(ch.settle(WriteOutcome::Written), Ok(()));
    }
}

#[test]
fn other_write_failures_are_errors() {
    let ch = EnvironmentChannel::default();
    assert_eq!(
        ch.settle(WriteOutcome::Failed { os_code: Some(32) }),
        Err(TransportError::Io { os_code: Some(32) })
    );
    assert_eq!(
        ch.settle(WriteOutcome::Failed { os_code: None }),
        Err(TransportError::Io { os_code: None })
    );
}
