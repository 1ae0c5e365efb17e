use chat_session::codec::{encode_handshake, encode_outbound, server_addr};
use chat_session::commands::ChatCommands;

#[test]
fn decode_message_short_tag() {
    let cmd = ChatCommands::from_str("m bob hi there").unwrap();
    assert_eq!(
        cmd,
        ChatCommands::Message { sender: "bob".to_string(), message: "hi there".to_string() }
    );
}

#[test]
fn decode_message_long_tag() {
    let cmd = ChatCommands::from_str("msg alice hello").unwrap();
    assert_eq!(
        cmd,
        ChatCommands::Message { sender: "alice".to_string(), message: "hello".to_string() }
    );
}

#[test]
fn decode_message_keeps_embedded_spaces() {
    let cmd = ChatCommands::from_str("m bob one two  three").unwrap();
    assert_eq!(
        cmd,
        ChatCommands::Message { sender: "bob".to_string(), message: "one two  three".to_string() }
    );
}

#[test]
fn decode_connect_short_tag() {
    let cmd = ChatCommands::from_str("c carol").unwrap();
    assert_eq!(cmd, ChatCommands::UserConnected { name: "carol".to_string() });
}

#[test]
fn decode_connect_long_tag() {
    let cmd = ChatCommands::from_str("connect dave").unwrap();
    assert_eq!(cmd, ChatCommands::UserConnected { name: "dave".to_string() });
}

#[test]
fn decode_disconnect_short_tag() {
    let cmd = ChatCommands::from_str("d carol").unwrap();
    assert_eq!(cmd, ChatCommands::UserDisconnected { name: "carol".to_string() });
}

#[test]
fn decode_disconnect_long_tag_name_keeps_spaces() {
    let cmd = ChatCommands::from_str("disconnect x y").unwrap();
    assert_eq!(cmd, ChatCommands::UserDisconnected { name: "x y".to_string() });
}

#[test]
fn decode_rename_short_tag() {
    let cmd = ChatCommands::from_str("r old new").unwrap();
    assert_eq!(
        cmd,
        ChatCommands::UserRenamed { oldname: "old".to_string(), newname: "new".to_string() }
    );
}

#[test]
fn decode_rename_long_tag_new_name_keeps_spaces() {
    let cmd = ChatCommands::from_str("rename a b c").unwrap();
    assert_eq!(
        cmd,
        ChatCommands::UserRenamed { oldname: "a".to_string(), newname: "b c".to_string() }
    );
}

#[test]
fn decode_fails_without_space() {
    assert!(ChatCommands::from_str("bogus").is_err());
}

#[test]
fn decode_fails_on_empty_line() {
    assert!(ChatCommands::from_str("").is_err());
}

#[test]
fn decode_fails_on_unknown_tag() {
    assert!(ChatCommands::from_str("x y").is_err());
    assert!(ChatCommands::from_str("message bob hi").is_err());
}

#[test]
fn decode_fails_when_message_lacks_body() {
    assert!(ChatCommands::from_str("m bob").is_err());
    assert!(ChatCommands::from_str("msg bob").is_err());
}

#[test]
fn decode_fails_when_rename_lacks_new_name() {
    assert!(ChatCommands::from_str("r bob").is_err());
}

#[test]
fn encode_outbound_strips_slash() {
    assert_eq!(encode_outbound("/foo bar"), "foo bar\n");
}

#[test]
fn encode_outbound_wraps_plain_text() {
    assert_eq!(encode_outbound("hello"), "m hello\n");
}

#[test]
fn encode_outbound_lone_slash_is_empty_command() {
    assert_eq!(encode_outbound("/"), "\n");
}

#[test]
fn encode_outbound_empty_text_is_empty_message() {
    assert_eq!(encode_outbound(""), "m \n");
}

#[test]
fn encode_handshake_appends_terminator() {
    assert_eq!(encode_handshake("alice"), "alice\n");
}

#[test]
fn server_addr_appends_default_port() {
    assert_eq!(server_addr("example.com"), "example.com:6078");
}

#[test]
fn server_addr_keeps_explicit_port() {
    assert_eq!(server_addr("example.com:99"), "example.com:99");
    assert_eq!(server_addr("127.0.0.1:6078"), "127.0.0.1:6078");
}
