use vstd::prelude::*;

verus! {

/// Message represents the packets sent from the sender to the receiver.
#[derive(Clone, Copy, Debug, PartialEq, Eq, Structural)]
pub enum Message {
    OpenIn { id: u16 },
    OpenOut { id: u16 },
    RequestIn { id: u16 },
    SetOut { id: u16, val: bool },
}

/// Response represents the packets the receiver sends to the sender.
#[derive(Clone, Copy, Debug, PartialEq, Eq, Structural)]
pub enum Response {
    InValue { id: u16, val: bool },
}

} // verus!
