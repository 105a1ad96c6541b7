use vstd::prelude::*;

verus! {

/// What one attempted exchange over the transport came to.
pub enum ExchangeEvent {
    /// The write or the flush failed.
    SendFailed,
    /// A read returned these bytes (possibly none).
    Received(Vec<u8>),
}

/// What the session does next with that event.
pub enum SessionAction {
    /// The session is broken: reconnect to the same address with the same
    /// timeout and retry the same exchange.
    Reconnect,
    /// A complete reply: hand it to the caller.
    Deliver(Vec<u8>),
}

/// The session's reconnect rule, decided per event: a failed write, or a
/// read that yielded zero bytes, marks the session broken and asks for a
/// reconnect-and-retry; any non-empty reply is delivered as is.
pub fn session_step(event: ExchangeEvent) -> (a: SessionAction)
    ensures
        match event {
            ExchangeEvent::SendFailed => a is Reconnect,
            ExchangeEvent::Received(bytes) => if bytes@.len() == 0 {
                a is Reconnect
            } else {
                a == SessionAction::Deliver(bytes)
            },
        },
{
    match event {
        ExchangeEvent::SendFailed => SessionAction::Reconnect,
        ExchangeEvent::Received(bytes) => {
            if bytes.len() == 0 {
                SessionAction::Reconnect
            } else {
                SessionAction::Deliver(bytes)
            }
        },
    }
}

} // verus!
