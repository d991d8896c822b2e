//! The request of the plain interface: a program and its arguments.

use vstd::prelude::*;

verus! {

/// A program to run, with the arguments to run it on.
#[derive(Debug)]
pub struct CodeExecutionRequest {
    code: String,
    args: Vec<String>,
}

impl CodeExecutionRequest {
    /// The text of the program's source.
    pub closed spec fn code_text(self) -> Seq<char> {
        self.code@
    }

    /// The texts of the arguments, in order.
    pub closed spec fn arg_texts(self) -> Seq<Seq<char>> {
        self.args.deep_view()
    }

    /// A request to run `code` on `args`.
    pub fn new(code: String, args: Vec<String>) -> (request: Self)
        ensures
            request.code_text() == code@,
            request.arg_texts() == args.deep_view(),
    {
        CodeExecutionRequest { code, args }
    }

    /// The program's source.
    pub fn code(&self) -> (code: &String)
        ensures
            code@ == self.code_text(),
    {
        &self.code
    }

    /// The arguments, in order.
    pub fn args(&self) -> (args: &Vec<String>)
        ensures
            args.deep_view() == self.arg_texts(),
    {
        &self.args
    }
}

} // verus!
