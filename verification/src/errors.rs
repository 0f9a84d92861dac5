//! Refusals that arise inside the engine, between its components.

use vstd::prelude::*;

verus! {

/// Why a component of the engine could not serve a request.
#[derive(Clone, Copy, Debug, PartialEq, Eq, Structural)]
pub enum JobError {
    /// The registry holds no job under the given id.
    NotFound,
    /// The job's process is not running any more.
    NotRunning,
}

impl JobError {
    /// These refusals carry no text of their own.
    pub open spec fn text(self) -> Seq<char> {
        Seq::empty()
    }

    /// Renders the refusal: the empty string, for either variant.
    pub fn message(&self) -> (text: String)
        ensures
            text@ == self.text(),
    {
        String::new()
    }
}

} // verus!
