//! The error type reported by every command.
use vstd::prelude::*;

verus! {

/// An error message, together with whether it is shown behind the `wt: ` prefix.
#[derive(Debug)]
pub struct Error {
    message: String,
    prefixed: bool,
}

impl View for Error {
    type V = (Seq<char>, bool);

    closed spec fn view(&self) -> (Seq<char>, bool) {
        (self.message@, self.prefixed)
    }
}

/// The line printed for an error.
pub open spec fn printed(e: (Seq<char>, bool)) -> Seq<char> {
    if e.1 {
        "wt: "@ + e.0
    } else {
        e.0
    }
}

impl Error {
    /// An error that is printed as `wt: <message>`.
    pub fn msg(message: String) -> (e: Self)
        ensures
            e@ == (message@, true),
    {
        Error { message, prefixed: true }
    }

    /// An error that is printed exactly as given.
    pub fn raw(message: String) -> (e: Self)
        ensures
            e@ == (message@, false),
    {
        Error { message, prefixed: false }
    }

    /// The message, without any prefix.
    pub fn message(&self) -> (s: String)
        ensures
            s@ == self@.0,
    {
        self.message.clone()
    }

    /// The line printed for this error on standard error: `wt: <message>`
    /// for a prefixed error, the bare message otherwise.
    pub fn print_line(&self) -> (s: String)
        ensures
            s@ == printed(self@),
    {
        if self.prefixed {
            let mut s = String::from_str("wt: ");
            s.append(self.message.as_str());
            s
        } else {
            self.message.clone()
        }
    }

    /// The process exit status after this error: always 1.
    pub fn exit_code(&self) -> (code: u8)
        ensures
            code == 1,
    {
        1
    }

    /// Whether the message is shown behind the `wt: ` prefix.
    pub fn is_prefixed(&self) -> (b: bool)
        ensures
            b == self@.1,
    {
        self.prefixed
    }
}

} // verus!
