use session_pool::channel::ChannelMsg;
use session_pool::error::ErrorKind;
use session_pool::proc::{Proc, ProcEvent};

fn bytes(s: &str) -> Vec<u8> {
    s.as_bytes().to_vec()
}

fn data(s: &str) -> ProcEvent {
    ProcEvent::Msg(ChannelMsg::Data { data: bytes(s) })
}

#[test]
fn run_delivers_chunks_with_increasing_indices() {
    let mut p = Proc::new("cat log".to_string(), 7u32);
    let events = vec![
        data("one"),
        data("two"),
        data("three"),
        ProcEvent::Msg(ChannelMsg::ExitStatus { status: 0 }),
        ProcEvent::Msg(ChannelMsg::Eof),
    ];
    let (chunks, outcome) = p.run(&events);
    assert!(outcome.is_ok());
    assert_eq!(
        chunks,
        vec![(0u64, bytes("one")), (1u64, bytes("two")), (2u64, bytes("three"))]
    );
}

#[test]
fn run_never_delivers_stderr_to_the_sink() {
    let mut p = Proc::new("noisy".to_string(), 7u32);
    let events = vec![
        data("a"),
        ProcEvent::Msg(ChannelMsg::ExtendedData { data: bytes("err"), ext: 1 }),
        data("b"),
        ProcEvent::Msg(ChannelMsg::Eof),
        ProcEvent::Msg(ChannelMsg::ExitStatus { status: 0 }),
    ];
    let (chunks, outcome) = p.run(&events);
    assert!(outcome.is_ok());
    assert_eq!(chunks, vec![(0u64, bytes("a")), (1u64, bytes("b"))]);
}

#[test]
fn interrupt_mid_stream_is_success_with_chunks_so_far() {
    // Streaming "tail -f log": chunks 0 and 1 arrive, then the interrupt
    // wins the race before any exit status.
    let mut p = Proc::new("tail -f log".to_string(), 7u32);
    let events = vec![data("chunk0"), data("chunk1"), ProcEvent::Interrupted];
    let (chunks, outcome) = p.run(&events);
    assert!(outcome.is_ok());
    assert_eq!(chunks, vec![(0u64, bytes("chunk0")), (1u64, bytes("chunk1"))]);
    // The interrupter took the channel; a later interrupt closes nothing.
    assert_eq!(p.interrupt(), None);
}

#[test]
fn interrupt_after_natural_completion_is_a_noop() {
    let mut p = Proc::new("true".to_string(), 7u32);
    let events = vec![
        ProcEvent::Msg(ChannelMsg::ExitStatus { status: 0 }),
        ProcEvent::Msg(ChannelMsg::Eof),
    ];
    let (chunks, outcome) = p.run(&events);
    assert!(outcome.is_ok());
    assert!(chunks.is_empty());
    // Natural completion already emptied the slot: nothing to close.
    assert_eq!(p.interrupt(), None);
    assert_eq!(p.interrupt(), None);
}

#[test]
fn run_after_interrupt_returns_success_immediately() {
    let mut p = Proc::new("sleep 100".to_string(), 9u32);
    assert_eq!(p.interrupt(), Some(9u32));
    let events = vec![data("never")];
    let (chunks, outcome) = p.run(&events);
    assert!(outcome.is_ok());
    assert!(chunks.is_empty());
}

#[test]
fn run_nonzero_status_fails_with_status_and_stderr() {
    let mut p = Proc::new("false".to_string(), 7u32);
    let events = vec![
        ProcEvent::Msg(ChannelMsg::ExtendedData { data: bytes("oops"), ext: 1 }),
        ProcEvent::Msg(ChannelMsg::ExitStatus { status: 3 }),
        ProcEvent::Msg(ChannelMsg::Eof),
    ];
    let (chunks, outcome) = p.run(&events);
    assert!(chunks.is_empty());
    let e = outcome.unwrap_err();
    match e.kind {
        ErrorKind::ExitStatus { status, output } => {
            assert_eq!(status, 3);
            assert_eq!(output, bytes("oops"));
        },
        _ => panic!("expected an exit-status error"),
    }
}

#[test]
fn interrupt_after_status_but_before_eof_applies_the_status() {
    let mut p = Proc::new("almost done".to_string(), 7u32);
    let events = vec![
        ProcEvent::Msg(ChannelMsg::ExitStatus { status: 2 }),
        ProcEvent::Interrupted,
    ];
    let (chunks, outcome) = p.run(&events);
    assert!(chunks.is_empty());
    let e = outcome.unwrap_err();
    assert!(matches!(e.kind, ErrorKind::ExitStatus { status: 2, .. }));
}

#[test]
fn run_stream_ending_early_is_malformed_and_keeps_the_channel() {
    let mut p = Proc::new("cut off".to_string(), 5u32);
    let events = vec![data("x")];
    let (chunks, outcome) = p.run(&events);
    assert_eq!(chunks, vec![(0u64, bytes("x"))]);
    let e = outcome.unwrap_err();
    assert!(matches!(e.kind, ErrorKind::Message));
    assert_eq!(e.message, "malformed end of stream");
    // The slot still holds the channel; interrupt can take and close it.
    assert_eq!(p.interrupt(), Some(5u32));
}

#[test]
fn run_keeps_the_command() {
    let mut p = Proc::new("tail -f log".to_string(), 1u32);
    let events = vec![ProcEvent::Interrupted];
    let _ = p.run(&events);
    assert_eq!(p.command, "tail -f log");
}
