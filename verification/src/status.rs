//! The status that comes with an answer of the service.

use vstd::prelude::*;

verus! {

/// Whether `code` can be the status code of an answer: a number of three
/// digits.
pub open spec fn is_status_code(code: u16) -> bool {
    100 <= code <= 999
}

/// The line that stands for a status code: the code and the reason phrase
/// that goes with it, as `reqwest::StatusCode` displays them.
pub uninterp spec fn status_line(code: u16) -> Seq<char>;

/// `reqwest::StatusCode::from_u16`, and `Display` for the status code that
/// it gives: a code from 100 to 999 is accepted and displayed as its status
/// line, which depends on the code alone; any other code is refused.
#[verifier::external_body]
fn display_status(code: u16) -> (line: Option<String>)
    ensures
        match line {
            Some(text) => is_status_code(code) && text@ == status_line(code),
            None => !is_status_code(code),
        },
{
    match reqwest::StatusCode::from_u16(code) {
        Ok(status) => Some(status.to_string()),
        Err(_) => None,
    }
}

/// The status code of an answer.
#[derive(Clone, Copy, Debug)]
pub struct Status {
    code: u16,
}

impl View for Status {
    type V = u16;

    closed spec fn view(&self) -> u16 {
        self.code
    }
}

impl Status {
    #[verifier::type_invariant]
    spec fn valid(&self) -> bool {
        is_status_code(self.code)
    }

    /// The status with this code, if it is a status code.
    pub fn new(code: u16) -> (status: Option<Status>)
        ensures
            match status {
                Some(status) => is_status_code(code) && status@ == code,
                None => !is_status_code(code),
            },
    {
        if 100 <= code && code <= 999 {
            Some(Status { code })
        } else {
            None
        }
    }

    /// The code.
    pub fn code(&self) -> (code: u16)
        ensures
            code == self@,
            is_status_code(code),
    {
        proof {
            use_type_invariant(self);
        }
        self.code
    }

    /// The status line: the code and the reason phrase that goes with it.
    pub fn line(&self) -> (line: String)
        ensures
            line@ == status_line(self@),
    {
        proof {
            use_type_invariant(self);
        }
        match display_status(self.code) {
            Some(text) => text,
            None => String::new(),
        }
    }
}

} // verus!
