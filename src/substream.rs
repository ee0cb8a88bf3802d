//! Lifecycle of a short-lived outbound substream: it carries one frame and is
//! then closed. The caller performs the close itself; this type decides
//! whether a close is due and which outcome is reported, so that closing a
//! second time does nothing and reports nothing.

use vstd::prelude::*;

verus! {

/// Where an outbound substream is in its life.
#[derive(Debug, Clone, Copy, PartialEq, Eq, Structural)]
pub enum SubstreamState {
    /// Open for writing.
    Open,
    /// A close has been started and its outcome is awaited.
    Closing,
    /// Closed; nothing more is done on it.
    Closed,
}

/// What the caller is to do after asking to close.
#[derive(Debug, Clone, Copy, PartialEq, Eq, Structural)]
pub enum CloseStep {
    /// Close the write side now, then report the outcome with `finish_close`.
    Perform,
    /// A close was already started or done: do nothing.
    AlreadyClosed,
}

/// A close of the write side that failed.
#[derive(Debug, Clone, Copy, PartialEq, Eq, Structural)]
pub enum CloseError {
    Io,
}

/// What asking to close does in state `s`.
pub open spec fn close_step(s: SubstreamState) -> (CloseStep, SubstreamState) {
    match s {
        SubstreamState::Open => (CloseStep::Perform, SubstreamState::Closing),
        _ => (CloseStep::AlreadyClosed, s),
    }
}

/// What reporting the outcome `io_ok` of a performed close does in state `s`.
/// Only a close in progress can fail; any other report changes nothing.
pub open spec fn finish_step(s: SubstreamState, io_ok: bool) -> (Result<(), CloseError>, SubstreamState) {
    match s {
        SubstreamState::Closing => (
            if io_ok {
                Ok(())
            } else {
                Err(CloseError::Io)
            },
            SubstreamState::Closed,
        ),
        _ => (Ok(()), s),
    }
}

/// One whole close operation in state `s`: ask, perform the close if told to
/// (with outcome `io_ok`), and report.
pub open spec fn close_once(s: SubstreamState, io_ok: bool) -> (Result<(), CloseError>, SubstreamState) {
    let (step, s1) = close_step(s);
    match step {
        CloseStep::Perform => finish_step(s1, io_ok),
        CloseStep::AlreadyClosed => (Ok(()), s1),
    }
}

/// An outbound substream's place in its lifecycle.
pub struct OutboundSubstream {
    state: SubstreamState,
}

impl OutboundSubstream {
    /// A freshly negotiated substream, open for writing.
    pub fn new() -> (r: Self)
        ensures
            r.state_spec() == SubstreamState::Open,
    {
        OutboundSubstream { state: SubstreamState::Open }
    }

    pub closed spec fn state_spec(&self) -> SubstreamState {
        self.state
    }

    /// The current state.
    pub fn state(&self) -> (r: SubstreamState)
        ensures
            r == self.state_spec(),
    {
        self.state
    }

    /// Asks to close the write side. Only the first request of a substream
    /// is answered with `Perform`.
    pub fn begin_close(&mut self) -> (r: CloseStep)
        ensures
            (r, final(self).state_spec()) == close_step(old(self).state_spec()),
    {
        match self.state {
            SubstreamState::Open => {
                self.state = SubstreamState::Closing;
                CloseStep::Perform
            },
            _ => CloseStep::AlreadyClosed,
        }
    }

    /// Reports whether the close that `begin_close` asked for succeeded.
    pub fn finish_close(&mut self, io_ok: bool) -> (r: Result<(), CloseError>)
        ensures
            (r, final(self).state_spec()) == finish_step(old(self).state_spec(), io_ok),
    {
        match self.state {
            SubstreamState::Closing => {
                self.state = SubstreamState::Closed;
                if io_ok {
                    Ok(())
                } else {
                    Err(CloseError::Io)
                }
            },
            _ => Ok(()),
        }
    }
}

/// Closing twice reports at most one error: whatever the state and the
/// outcomes of the underlying closes, the second close reports success and
/// leaves the state as the first one left it.
pub proof fn lemma_close_idempotent(s: SubstreamState, ok1: bool, ok2: bool)
    ensures
        ({
            let (r1, s1) = close_once(s, ok1);
            let (r2, s2) = close_once(s1, ok2);
            &&& r2 is Ok
            &&& s2 == s1
            &&& s1 != SubstreamState::Open
        }),
        s == SubstreamState::Closed ==> close_once(s, ok1) == (
        Ok::<(), CloseError>(()),
        SubstreamState::Closed,
        ),
{
}

} // verus!
