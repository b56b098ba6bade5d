//! The library's error kinds.
use vstd::prelude::*;
use vstd::string::StringExecFns;

verus! {

/// Errors raised by the components; outside errors are carried as text.
#[derive(Debug, Clone)]
pub enum TetradError {
    Config(String),
    Io(String),
    Json(String),
    ExecutorNotFound(String),
    ExecutorFailed(String, String),
    ExecutorTimeout(String),
    ConsensusNotReached(String),
    ReasoningBank(String),
    McpServer(String),
    ConfigNotFound(String),
    Other(String),
}

impl TetradError {
    pub fn other(msg: &str) -> (r: TetradError)
        ensures
            r matches TetradError::Other(m) && m@ == msg@,
    {
        TetradError::Other(String::from_str(msg))
    }

    pub fn config(msg: &str) -> (r: TetradError)
        ensures
            r matches TetradError::Config(m) && m@ == msg@,
    {
        TetradError::Config(String::from_str(msg))
    }
}

} // verus!
