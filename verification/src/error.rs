//! The error that the library reports.

use vstd::prelude::*;
use vstd::string::StringExecFns;

verus! {

/// Reported when a language is known but holds no compiler.
pub const NO_DEFAULT_COMPILER: &'static str =
    "Unable to determine default compiler for input language";

/// Reported when a compiler is known but no language is found for it.
pub const NO_LANGUAGE_FOR_COMPILER: &'static str = "Unable to determine language for compiler";

/// Reported when a target is neither a language nor a compiler.
pub const UNKNOWN_TARGET: &'static str = "Unable to find compiler or language for target";

/// What precedes the status in the report of an unreadable reply.
pub const REPLY_HEAD: &'static str = "Wandbox replied with: ";

/// What follows the status in the report of an unreadable reply.
pub const REPLY_TAIL: &'static str =
    "\nThis could mean WandBox is experiencing an outage, or a network connection error has occured";

/// The three explanations with which resolving a target can fail are
/// pairwise different, so each tells its failure from the others.
pub proof fn lemma_explanations_differ()
    ensures
        NO_DEFAULT_COMPILER@ != UNKNOWN_TARGET@,
        NO_DEFAULT_COMPILER@ != NO_LANGUAGE_FOR_COMPILER@,
        UNKNOWN_TARGET@ != NO_LANGUAGE_FOR_COMPILER@,
{
    reveal_strlit("Unable to determine default compiler for input language");
    reveal_strlit("Unable to determine language for compiler");
    reveal_strlit("Unable to find compiler or language for target");
    assert(NO_DEFAULT_COMPILER@.len() != UNKNOWN_TARGET@.len());
    assert(NO_DEFAULT_COMPILER@.len() != NO_LANGUAGE_FOR_COMPILER@.len());
    assert(UNKNOWN_TARGET@.len() != NO_LANGUAGE_FOR_COMPILER@.len());
}

/// An error with its explanation.
#[derive(Debug)]
pub struct WandboxError {
    details: String,
}

impl View for WandboxError {
    type V = Seq<char>;

    closed spec fn view(&self) -> Seq<char> {
        self.details@
    }
}

impl WandboxError {
    /// An error that explains itself as `msg`.
    pub fn new(msg: &str) -> (e: WandboxError)
        ensures
            e@ == msg@,
    {
        WandboxError { details: msg.to_owned() }
    }

    /// The error for a reply that could not be read, given the status
    /// line that came with it.
    pub fn unreadable_reply(status_line: &str) -> (e: WandboxError)
        ensures
            e@ == REPLY_HEAD@ + status_line@ + REPLY_TAIL@,
    {
        let mut details = REPLY_HEAD.to_owned();
        details.append(status_line);
        details.append(REPLY_TAIL);
        WandboxError { details }
    }

    /// The explanation.
    pub fn description(&self) -> (text: &str)
        ensures
            text@ == self@,
    {
        self.details.as_str()
    }

    /// A copy of the explanation.
    pub fn to_string(&self) -> (text: String)
        ensures
            text@ == self@,
    {
        self.details.clone()
    }
}

} // verus!
