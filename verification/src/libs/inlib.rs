//! The library side of the exchange with a script: messages that wait for a
//! response, and what to do after each message read.
use vstd::prelude::*;

verus! {

/// A message together with the id its response must carry.
pub struct Respondable<M> {
    id: u128,
    pub msg: M,
}

impl<M> Respondable<M> {
    /// The id the response must carry.
    pub closed spec fn id_spec(&self) -> u128 {
        self.id
    }

    /// The message.
    pub closed spec fn msg_spec(&self) -> M {
        self.msg
    }

    /// The message `msg`, to be answered under `id`.
    pub fn new(id: u128, msg: M) -> (r: Self)
        ensures
            r.id_spec() == id,
            r.msg_spec() == msg,
    {
        Respondable { id, msg }
    }

    /// The id the response must carry.
    pub fn id(&self) -> (r: u128)
        ensures
            r == self.id_spec(),
    {
        self.id
    }
}

/// What reading and dispatching one message gave.
pub enum MessageOutcome<M> {
    /// A callback handled it.
    Handled,
    /// No callback handled it.
    Unhandled(M),
    /// Reading failed, most likely because the script has exited.
    ReadFailed,
}

/// What waiting for an unhandled message does after one message: `None` to
/// read the next one; an unhandled message is given back; a failed read ends
/// the wait without error.
pub fn after_message<M>(o: MessageOutcome<M>) -> (r: Option<Result<(), M>>)
    ensures
        match o {
            MessageOutcome::Handled => r is None,
            MessageOutcome::Unhandled(m) => r == Some(Err::<(), M>(m)),
            MessageOutcome::ReadFailed => r == Some(Ok::<(), M>(())),
        },
{
    match o {
        MessageOutcome::Handled => None,
        MessageOutcome::Unhandled(m) => Some(Err(m)),
        MessageOutcome::ReadFailed => Some(Ok(())),
    }
}

} // verus!
