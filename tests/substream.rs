use p2p_chat::substream::{CloseError, CloseStep, OutboundSubstream, SubstreamState};

#[test]
fn new_substream_is_open() {
    assert_eq!(OutboundSubstream::new().state(), SubstreamState::Open);
}

#[test]
fn close_twice_after_failure_reports_once() {
    let mut s = OutboundSubstream::new();
    assert_eq!(s.begin_close(), CloseStep::Perform);
    assert_eq!(s.state(), SubstreamState::Closing);
    assert_eq!(s.finish_close(false), Err(CloseError::Io));
    assert_eq!(s.state(), SubstreamState::Closed);
    assert_eq!(s.begin_close(), CloseStep::AlreadyClosed);
    assert_eq!(s.finish_close(false), Ok(()));
    assert_eq!(s.state(), SubstreamState::Closed);
}

#[test]
fn close_twice_after_success_reports_nothing() {
    let mut s = OutboundSubstream::new();
    assert_eq!(s.begin_close(), CloseStep::Perform);
    assert_eq!(s.finish_close(true), Ok(()));
    assert_eq!(s.begin_close(), CloseStep::AlreadyClosed);
    assert_eq!(s.begin_close(), CloseStep::AlreadyClosed);
    assert_eq!(s.state(), SubstreamState::Closed);
}

#[test]
fn second_request_while_closing_does_nothing() {
    let mut s = OutboundSubstream::new();
    assert_eq!(s.begin_close(), CloseStep::Perform);
    assert_eq!(s.begin_close(), CloseStep::AlreadyClosed);
    assert_eq!(s.state(), SubstreamState::Closing);
}

#[test]
fn report_without_close_changes_nothing() {
    let mut s = OutboundSubstream::new();
    assert_eq!(s.finish_close(false), Ok(()));
    assert_eq!(s.state(), SubstreamState::Open);
}
