//! The audio server connection's state, as its C API numbers it. The
//! connection itself lives in the embedding; the state codes and what
//! they mean to the bar live here.

use vstd::prelude::*;

verus! {

/// The audio server context's connection state.
#[derive(Debug, PartialEq, Eq, Clone, Copy, Structural)]
pub enum ContextState {
    Unconnected,
    Connecting,
    Authorizing,
    SettingName,
    Ready,
    Failed,
    Terminated,
    Unknown,
}

impl ContextState {
    /// Maps the C API's state code: `0` unconnected through `6`
    /// terminated, anything else unknown.
    pub fn from_code(code: i32) -> (r: ContextState)
        ensures
            r == (if code == 0 {
                ContextState::Unconnected
            } else if code == 1 {
                ContextState::Connecting
            } else if code == 2 {
                ContextState::Authorizing
            } else if code == 3 {
                ContextState::SettingName
            } else if code == 4 {
                ContextState::Ready
            } else if code == 5 {
                ContextState::Failed
            } else if code == 6 {
                ContextState::Terminated
            } else {
                ContextState::Unknown
            }),
    {
        if code == 0 {
            ContextState::Unconnected
        } else if code == 1 {
            ContextState::Connecting
        } else if code == 2 {
            ContextState::Authorizing
        } else if code == 3 {
            ContextState::SettingName
        } else if code == 4 {
            ContextState::Ready
        } else if code == 5 {
            ContextState::Failed
        } else if code == 6 {
            ContextState::Terminated
        } else {
            ContextState::Unknown
        }
    }

    /// Whether waiting for the connection is over: it is usable or
    /// will never be.
    pub fn is_settled(&self) -> (r: bool)
        ensures
            r == (self is Ready || self is Failed || self is Terminated),
    {
        match self {
            ContextState::Ready => true,
            ContextState::Failed => true,
            ContextState::Terminated => true,
            _ => false,
        }
    }
}

} // verus!
