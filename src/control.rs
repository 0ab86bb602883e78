//! Decisions of the per-connection control loop. The caller waits for
//! whichever comes first, the heartbeat timer or inbound bytes, reports it
//! as an event, and performs the action handed back.

use vstd::prelude::*;
use vstd::utf8::*;
use crate::token::{trim_of, trim_str};

verus! {

/// What woke the control loop.
#[derive(Debug)]
pub enum ControlEvent {
    /// The heartbeat timer fired.
    Tick,
    /// Bytes arrived on the control stream.
    Data(Vec<u8>),
    /// The peer closed its side.
    Closed,
    /// Reading failed.
    ReadFailed,
    /// Writing a heartbeat or a response failed.
    WriteFailed,
}

/// What the control loop does next.
#[derive(Debug)]
pub enum ControlAction {
    /// Write a heartbeat.
    SendHeartbeat,
    /// Dispatch this request text and write the answer.
    Handle(String),
    /// Ignore the bytes and keep going.
    Skip,
    /// End the loop and tear the connection down.
    Close,
}

/// Relies on `std::str::from_utf8`: succeeds exactly on valid UTF-8, and
/// then yields the characters it encodes.
#[verifier::external_body]
fn decode_text(b: &[u8]) -> (r: Option<String>)
    ensures
        r is Some <==> valid_utf8(b@),
        r matches Some(s) ==> s@ == decode_utf8(b@),
{
    match std::str::from_utf8(b) {
        Ok(s) => Some(s.to_string()),
        Err(_) => None,
    }
}

/// The control loop: open until an event ends it.
pub struct ControlLoop {
    pub open: bool,
}

impl ControlLoop {
    pub fn new() -> (r: Self)
        ensures
            r.open,
    {
        ControlLoop { open: true }
    }

    /// The action for `event`. A timer tick asks for a heartbeat; a
    /// zero-length read, a close, or a read or write failure ends the loop;
    /// bytes that are not UTF-8 are skipped; other bytes are a request, with
    /// surrounding whitespace trimmed. Once closed the loop stays closed.
    pub fn step(&mut self, event: &ControlEvent) -> (r: ControlAction)
        ensures
            !old(self).open ==> r is Close,
            old(self).open ==> match event {
                ControlEvent::Tick => r is SendHeartbeat,
                ControlEvent::Data(b) => if b@.len() == 0 {
                    r is Close
                } else if !valid_utf8(b@) {
                    r is Skip
                } else {
                    r matches ControlAction::Handle(t) && t@ == trim_of(decode_utf8(b@))
                },
                _ => r is Close,
            },
            final(self).open == !(r is Close),
    {
        if !self.open {
            return ControlAction::Close;
        }
        let action = match event {
            ControlEvent::Tick => ControlAction::SendHeartbeat,
            ControlEvent::Data(b) => {
                if b.len() == 0 {
                    ControlAction::Close
                } else {
                    match decode_text(b.as_slice()) {
                        Some(text) => ControlAction::Handle(trim_str(text.as_str()).to_string()),
                        None => ControlAction::Skip,
                    }
                }
            },
            _ => ControlAction::Close,
        };
        self.open = !matches!(action, ControlAction::Close);
        action
    }
}

} // verus!
