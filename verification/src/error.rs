//! Error categories, so that callers can decide what to show a client and
//! what only to log.

use vstd::prelude::*;

verus! {

/// What went wrong, by cause. Each variant carries a human-readable message.
#[derive(Debug, Clone, PartialEq, Eq)]
pub enum WebtilesError {
    Config(String),
    Auth(String),
    Protocol(String),
    Game(String),
    Process(String),
    Internal(String),
}

} // verus!
