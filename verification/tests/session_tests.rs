use chat_session::commands::{ChatCommands, ConnectState};
use chat_session::connection::{initial_connections, ConnectionData};
use chat_session::session::{Session, SessionSupervisor};

fn config() -> ConnectionData {
    ConnectionData::new("127.0.0.1", "alice")
}

#[test]
fn fresh_session_is_loading_and_idle() {
    let mut session = Session::new(&config());
    assert_eq!(session.current_state(), ConnectState::Loading);
    assert!(session.poll().is_empty());
}

#[test]
fn handshake_is_written_first() {
    let mut session = Session::new(&config());
    session.send("hello".to_string());
    assert_eq!(session.next_outbound_line(), Some("alice\n".to_string()));
    assert_eq!(session.next_outbound_line(), Some("m hello\n".to_string()));
    assert_eq!(session.next_outbound_line(), None);
}

#[test]
fn outbound_strings_are_written_in_order() {
    let mut session = Session::new(&config());
    session.send("a".to_string());
    session.send("b".to_string());
    session.send("c".to_string());
    assert_eq!(session.next_outbound_line(), Some("alice\n".to_string()));
    assert_eq!(session.next_outbound_line(), Some("m a\n".to_string()));
    assert_eq!(session.next_outbound_line(), Some("m b\n".to_string()));
    assert_eq!(session.next_outbound_line(), Some("m c\n".to_string()));
    assert_eq!(session.next_outbound_line(), None);
}

#[test]
fn slash_command_passes_through_writer() {
    let mut session = Session::new(&config());
    session.send("/nick bob".to_string());
    assert_eq!(session.next_outbound_line(), Some("alice\n".to_string()));
    assert_eq!(session.next_outbound_line(), Some("nick bob\n".to_string()));
}

#[test]
fn session_without_any_line_ends_failed() {
    let mut session = Session::new(&config());
    session.on_socket_closed();
    assert_eq!(session.current_state(), ConnectState::Failed);
}

#[test]
fn session_with_decoded_line_ends_disconnected() {
    let mut session = Session::new(&config());
    assert!(session.on_line("m bob hi"));
    assert_eq!(session.current_state(), ConnectState::Connected);
    session.on_socket_closed();
    assert_eq!(session.current_state(), ConnectState::Disconnect);
}

#[test]
fn decode_failure_before_connected_fails() {
    let mut session = Session::new(&config());
    assert!(!session.on_line("bogus"));
    assert_eq!(session.current_state(), ConnectState::Failed);
}

#[test]
fn connect_failure_is_immediate_failed_state() {
    let mut session = Session::new(&config());
    session.on_connect_failed();
    assert_eq!(session.current_state(), ConnectState::Failed);
    assert!(!session.on_line("m bob hi"));
    assert_eq!(session.current_state(), ConnectState::Failed);
    assert!(session.poll().is_empty());
}

#[test]
fn end_to_end_lines_become_events_then_bad_line_disconnects() {
    let mut session = Session::new(&config());

    assert!(session.on_line("m bob hi there"));
    let events = session.poll();
    assert_eq!(events.len(), 1);
    assert_eq!(
        events[0],
        ChatCommands::Message { sender: "bob".to_string(), message: "hi there".to_string() }
    );

    assert!(session.on_line("c carol"));
    let events = session.poll();
    assert_eq!(events.len(), 1);
    assert_eq!(events[0], ChatCommands::UserConnected { name: "carol".to_string() });

    assert!(!session.on_line("bogus"));
    assert_eq!(session.current_state(), ConnectState::Disconnect);
    assert!(session.poll().is_empty());
}

#[test]
fn events_are_polled_in_arrival_order() {
    let mut session = Session::new(&config());
    assert!(session.on_line("c carol"));
    assert!(session.on_line("m carol hi"));
    assert!(session.on_line("d carol"));
    let events = session.poll();
    assert_eq!(events.len(), 3);
    assert_eq!(events[0], ChatCommands::UserConnected { name: "carol".to_string() });
    assert_eq!(
        events[1],
        ChatCommands::Message { sender: "carol".to_string(), message: "hi".to_string() }
    );
    assert_eq!(events[2], ChatCommands::UserDisconnected { name: "carol".to_string() });
}

#[test]
fn supervisor_forwards_to_current_session() {
    let mut sup = SessionSupervisor::create_session(config());
    assert_eq!(sup.current_state(), ConnectState::Loading);
    assert!(sup.on_line("m bob hi"));
    assert_eq!(sup.current_state(), ConnectState::Connected);
    let events = sup.poll();
    assert_eq!(events.len(), 1);
    sup.send("yo".to_string());
    assert_eq!(sup.next_outbound_line(), Some("alice\n".to_string()));
    assert_eq!(sup.next_outbound_line(), Some("m yo\n".to_string()));
}

#[test]
fn reconnect_starts_fresh_and_old_events_no_longer_deliver() {
    let mut sup = SessionSupervisor::create_session(config());
    assert!(sup.on_line("m bob pending"));
    assert_eq!(sup.current_state(), ConnectState::Connected);

    let new_config = ConnectionData::new("example.com", "bob");
    let mut replaced = sup.reconnect(new_config);

    // The new handle starts in `Loading` with nothing pending.
    assert_eq!(sup.current_state(), ConnectState::Loading);
    assert!(sup.poll().is_empty());
    assert_eq!(sup.connection().server(), "example.com");
    assert_eq!(sup.connection().name(), "bob");

    // The replaced session keeps its own queues; they no longer reach
    // the supervisor's consumer.
    assert_eq!(replaced.current_state(), ConnectState::Connected);
    let old_events = replaced.poll();
    assert_eq!(old_events.len(), 1);
    assert!(sup.poll().is_empty());

    // The new session's handshake carries the new display name.
    assert_eq!(sup.next_outbound_line(), Some("bob\n".to_string()));
}

#[test]
fn connection_data_accessors() {
    let c = ConnectionData::new("example.com:99", "eve");
    assert_eq!(c.server(), "example.com:99");
    assert_eq!(c.name(), "eve");
}

#[test]
fn connection_data_default_is_local_host() {
    let c = ConnectionData::default();
    assert_eq!(c.server(), "127.0.0.1:6078");
    assert_eq!(c.name(), "nobody");
}

#[test]
fn initial_connections_appends_named_server_and_selects_it() {
    let saved = vec![ConnectionData::new("one", "a"), ConnectionData::new("two", "b")];
    let server = "three".to_string();
    let (conns, start) = initial_connections(saved, Some(&server));
    assert_eq!(conns.len(), 3);
    assert_eq!(start, 2);
    assert_eq!(conns[2].server(), "three");
    assert_eq!(conns[2].name(), "nobody");
}

#[test]
fn initial_connections_falls_back_to_default() {
    let (conns, start) = initial_connections(Vec::new(), None);
    assert_eq!(conns.len(), 1);
    assert_eq!(start, 0);
    assert_eq!(conns[0].server(), "127.0.0.1:6078");
    assert_eq!(conns[0].name(), "nobody");
}

#[test]
fn initial_connections_keeps_saved_list() {
    let saved = vec![ConnectionData::new("one", "a")];
    let (conns, start) = initial_connections(saved, None);
    assert_eq!(conns.len(), 1);
    assert_eq!(start, 0);
    assert_eq!(conns[0].server(), "one");
}
