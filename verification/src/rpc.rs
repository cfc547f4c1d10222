//! The outcome that RPC handlers return: a value plus the log lines gathered
//! while computing it.
use vstd::prelude::*;
use crate::json::{apply_log_envelope, is_log_envelope, JsonValue};
use crate::text::owned;

verus! {

/// Successful RPC handler result: the value plus optional log lines.
#[derive(Debug)]
pub struct RpcOutcome<T> {
    /// The data returned by the call.
    pub value: T,
    /// Log messages for auditing or debugging.
    pub logs: Vec<String>,
}

impl<T> RpcOutcome<T> {
    /// An outcome with a value and a list of logs.
    pub fn new(value: T, logs: Vec<String>) -> (r: Self)
        ensures
            r.value == value,
            r.logs@ == logs@,
    {
        RpcOutcome { value, logs }
    }

    /// An outcome with a value and exactly one log line.
    pub fn single_log(value: T, log: &str) -> (r: Self)
        ensures
            r.value == value,
            r.logs@.len() == 1,
            r.logs@[0]@ == log@,
    {
        let mut logs: Vec<String> = Vec::new();
        logs.push(owned(log));
        RpcOutcome { value, logs }
    }
}

impl RpcOutcome<JsonValue> {
    /// The CLI-compatible JSON of an outcome whose value is already
    /// serialized: the log envelope of the value under the outcome's logs.
    pub fn into_cli_compatible_json(self) -> (r: JsonValue)
        ensures
            is_log_envelope(r, self.value, self.logs@),
    {
        let RpcOutcome { value, logs } = self;
        apply_log_envelope(value, logs)
    }
}

} // verus!
