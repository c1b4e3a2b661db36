//! The questions about the machine that take no more than a look.
//!
//! Two steps of a run change nothing: whether the process runs as root, and
//! whether a helper is installed. The library can answer them itself. Every
//! other step is left to the caller.

use crate::session::{Reply, Step};
use vstd::prelude::*;

verus! {

/// Calls `sudo2::running_as_root`, which compares the user and the effective
/// user of the process with zero. Nothing is claimed of the answer: it
/// depends on who started the process.
#[verifier::external_body]
fn running_as_root() -> (root: bool) {
    sudo2::running_as_root()
}

/// Calls `which::which` with the name of a program and tells whether a path
/// came back. Nothing is claimed of the answer: it depends on the search
/// path and on what is installed.
#[verifier::external_body]
fn on_search_path(program: &str) -> (found: bool) {
    which::which(program).is_ok()
}

/// Answers the step by looking at the machine, if a look is all it takes:
/// whether the process runs as root, or whether the helper's program is on
/// the search path. The reply is then one that a session accepts for that
/// step. Every other step needs doing, and gets no answer here.
pub fn answer(step: Step) -> (reply: Option<Reply>)
    ensures
        reply is Some <==> step is CheckRoot || step is Probe,
        reply matches Some(said) ==> said is Yes || said is No,
{
    let yes = match step {
        Step::CheckRoot => running_as_root(),
        Step::Probe(helper) => on_search_path(helper.program()),
        _ => {
            return None;
        },
    };
    if yes {
        Some(Reply::Yes)
    } else {
        Some(Reply::No)
    }
}

} // verus!
