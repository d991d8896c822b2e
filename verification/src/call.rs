//! One request to run a submission, and the response to it.

use vstd::prelude::*;
use crate::json::{json_string, quote};
use crate::manifest::table_entries;
use crate::parse::{extract_manifest, reading, Reading};
use crate::script::{outcome, Error, Failure, INTERNAL_STATUS, REJECTED_STATUS};

verus! {

/// One request, with owned copies of all that the worker needs.
#[derive(Debug)]
pub struct Call {
    /// The credential, handed on to the program and never looked at.
    pub jwt: Option<String>,
    /// The submission: its manifest, if it has one, and its body.
    pub code: (Option<toml::Table>, String),
    /// The payload, as raw JSON text.
    pub data: String,
}

/// The payload of a request that names none: the JSON value `null`.
pub fn raw_null() -> (data: String)
    ensures
        data@ == "null"@,
{
    String::from_str("null")
}

/// The `code` field of a request by what it holds.
pub open spec fn read_code(r: Result<(Option<toml::Table>, String), crate::parse::Error>) -> Reading {
    match r {
        Ok((Some(t), body)) => Ok((Some(table_entries(t)), body@)),
        Ok((None, body)) => Ok((None, body@)),
        Err(e) => Err(e@),
    }
}

/// Reads the `code` field of a request: splits it into manifest and body
/// and gives the body as an owned string.
pub fn manifesty(code: &str) -> (r: Result<(Option<toml::Table>, String), crate::parse::Error>)
    ensures
        read_code(r) == reading(code@),
{
    match extract_manifest(code) {
        Ok((manifest, body)) => Ok((manifest, body.to_owned())),
        Err(e) => Err(e),
    }
}

/// The text of an error.
pub fn eat_str(me: Error) -> (text: String)
    ensures
        text@ == me@.text(),
{
    me.message()
}

/// The status of a response that carries a program's output.
pub const OK_STATUS: u16 = 200;

/// The body that tells the caller why the submission was rejected.
pub open spec fn rejection(message: Seq<char>) -> Seq<char> {
    "{\"rejected\": "@ + json_string(message) + "}"@
}

/// The response to a job: the output as it is with status 200, the reason
/// as a JSON object with status 422 where the submission failed, and status
/// 500 with an empty body where the host did.
pub open spec fn response(out: Result<Seq<char>, Failure>) -> (int, Seq<char>) {
    match out {
        Ok(text) => (OK_STATUS as int, text),
        Err(Failure::Compiler(message)) => (REJECTED_STATUS as int, rejection(message)),
        Err(Failure::Internal(_)) => (INTERNAL_STATUS as int, Seq::empty()),
    }
}

/// Turns the result of a job into the status and body of the response.
pub fn respond(out: Result<String, Error>) -> (r: (u16, String))
    ensures
        (r.0 as int, r.1@) == response(outcome(out)),
{
    match out {
        Ok(text) => (OK_STATUS, text),
        Err(Error::Compiler(message)) => {
            let mut body = String::from_str("{\"rejected\": ");
            let reason = quote(message.as_str());
            body.append(reason.as_str());
            body.append("}");
            (REJECTED_STATUS, body)
        },
        Err(Error::Internal(_)) => (INTERNAL_STATUS, String::new()),
    }
}

} // verus!
