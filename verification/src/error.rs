//! The errors of the application.
use vstd::prelude::*;
use crate::text::{owned, push_str};

verus! {

/// What can go wrong: the terminal's input or output, the terminal itself,
/// or AWS; each with its description.
#[derive(Debug)]
pub enum AwsmError {
    Io(String),
    Terminal(String),
    Aws(String),
}

/// The message of an error: `IO error: …`, `Terminal error: …` or
/// `AWS error: …`.
pub open spec fn error_message(e: AwsmError) -> Seq<char> {
    match e {
        AwsmError::Io(m) => "IO error: "@ + m@,
        AwsmError::Terminal(m) => "Terminal error: "@ + m@,
        AwsmError::Aws(m) => "AWS error: "@ + m@,
    }
}

impl AwsmError {
    /// The message of the error (see `error_message`).
    pub fn message(&self) -> (r: String)
        ensures
            r@ == error_message(*self),
    {
        let (head, m) = match self {
            AwsmError::Io(m) => ("IO error: ", m),
            AwsmError::Terminal(m) => ("Terminal error: ", m),
            AwsmError::Aws(m) => ("AWS error: ", m),
        };
        let mut r = owned(head);
        push_str(&mut r, m.as_str());
        r
    }
}

} // verus!
