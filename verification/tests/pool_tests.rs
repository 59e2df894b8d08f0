use session_pool::channel::ChannelMsg;
use session_pool::connection::Connection;
use session_pool::device::Device;
use session_pool::error::{ErrorKind, OpenChannelError};
use session_pool::error::Error;
use session_pool::exec::exec;
use session_pool::pool::Pool;

fn device(name: &str) -> Device {
    Device {
        name: name.to_string(),
        address: format!("{name}.example:22"),
        credentials: "swordfish".to_string(),
    }
}

fn bytes(s: &str) -> Vec<u8> {
    s.as_bytes().to_vec()
}

#[test]
fn pool_miss_then_insert_then_hit() {
    let mut pool: Pool<u32> = Pool::new();
    assert!(pool.get(&"router1".to_string()).is_none());

    let conn = Connection::new(device("router1"), 11u32);
    pool.insert(conn);

    let got = pool.get(&"router1".to_string()).expect("entry must exist");
    assert_eq!(got.device.name, "router1");
    assert_eq!(got.session, 11u32);
    assert!(pool.get(&"router2".to_string()).is_none());
}

#[test]
fn insert_replaces_the_entry_for_the_same_name() {
    let mut pool: Pool<u32> = Pool::new();
    pool.insert(Connection::new(device("router1"), 1u32));
    pool.insert(Connection::new(device("router1"), 2u32));
    let got = pool.get(&"router1".to_string()).expect("entry must exist");
    assert_eq!(got.session, 2u32);
}

#[test]
fn evict_removes_only_the_named_entry_and_is_idempotent() {
    let mut pool: Pool<u32> = Pool::new();
    pool.insert(Connection::new(device("router1"), 1u32));
    pool.insert(Connection::new(device("router2"), 2u32));

    pool.evict(&"router1".to_string());
    assert!(pool.get(&"router1".to_string()).is_none());
    assert!(pool.get(&"router2".to_string()).is_some());

    pool.evict(&"router1".to_string());
    assert!(pool.get(&"router1".to_string()).is_none());
    assert!(pool.get(&"router2".to_string()).is_some());
}

#[test]
fn channel_refusal_evicts_and_signals_reconnect() {
    let mut pool: Pool<u32> = Pool::new();
    pool.insert(Connection::new(device("router1"), 1u32));

    let e = pool.handle_open_failure(&"router1".to_string(), OpenChannelError::Refused);
    assert!(matches!(e.kind, ErrorKind::Reconnect));
    assert!(pool.get(&"router1".to_string()).is_none());

    // The caller retries from the pool and a brand-new session goes in.
    pool.insert(Connection::new(device("router1"), 2u32));
    let got = pool.get(&"router1".to_string()).expect("fresh entry must exist");
    assert_eq!(got.session, 2u32);
}

#[test]
fn transport_failure_evicts_and_propagates_the_error() {
    let mut pool: Pool<u32> = Pool::new();
    pool.insert(Connection::new(device("router1"), 1u32));

    let cause = Error::new("connection reset");
    let e = pool.handle_open_failure(
        &"router1".to_string(),
        OpenChannelError::Transport(cause),
    );
    assert!(matches!(e.kind, ErrorKind::Message));
    assert_eq!(e.message, "connection reset");
    assert!(pool.get(&"router1".to_string()).is_none());
}

#[test]
fn open_failure_on_absent_entry_still_classifies() {
    let mut pool: Pool<u32> = Pool::new();
    let e = pool.handle_open_failure(&"ghost".to_string(), OpenChannelError::Refused);
    assert!(matches!(e.kind, ErrorKind::Reconnect));
    assert!(pool.get(&"ghost".to_string()).is_none());
}

#[test]
fn fresh_session_then_buffered_exec_succeeds() {
    // Device "router1" absent from the pool: the caller establishes a
    // session, pools it, opens a channel and runs "uptime"; the server
    // answers with stdout, a zero status and end-of-stream.
    let mut pool: Pool<u32> = Pool::new();
    assert!(pool.get(&"router1".to_string()).is_none());
    pool.insert(Connection::new(device("router1"), 1u32));
    let conn = pool.get(&"router1".to_string()).expect("just inserted");
    assert_eq!(conn.device.name, "router1");

    let transcript = vec![
        ChannelMsg::Data { data: bytes("up 3 days") },
        ChannelMsg::ExitStatus { status: 0 },
        ChannelMsg::Eof,
    ];
    assert_eq!(exec(&transcript).unwrap(), bytes("up 3 days"));
}

#[test]
fn same_connection_failing_command_reports_status_one() {
    // On the pooled connection, "false" produces exit status 1,
    // end-of-stream and no stdout.
    let mut pool: Pool<u32> = Pool::new();
    pool.insert(Connection::new(device("router1"), 1u32));
    assert!(pool.get(&"router1".to_string()).is_some());

    let transcript = vec![ChannelMsg::ExitStatus { status: 1 }, ChannelMsg::Eof];
    let e = exec(&transcript).unwrap_err();
    match e.kind {
        ErrorKind::ExitStatus { status, output } => {
            assert_eq!(status, 1);
            assert_eq!(output, Vec::<u8>::new());
        },
        _ => panic!("expected an exit-status error"),
    }
}

#[test]
fn connection_binds_device_and_session() {
    let c = Connection::new(device("sw0"), 42u32);
    assert_eq!(c.device.name, "sw0");
    assert_eq!(c.session, 42u32);
}

#[test]
fn open_wraps_command_and_channel() {
    let c = Connection::new(device("sw0"), 0u32);
    let mut p = c.open("tail -f log", 99u32);
    assert_eq!(p.command, "tail -f log");
    assert_eq!(p.interrupt(), Some(99u32));
}

#[test]
fn error_constructors() {
    let e = Error::new("oh no");
    assert_eq!(e.message, "oh no");
    assert!(matches!(e.kind, ErrorKind::Message));
    let r = Error::reconnect();
    assert!(matches!(r.kind, ErrorKind::Reconnect));
}
