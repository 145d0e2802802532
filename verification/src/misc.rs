//! The catch-all for event shapes the router does not recognize:
//! deliberately a no-op, never an error, so that unknown producers can
//! never break a long-running observation session.

use vstd::prelude::*;
use crate::logone::{LogError, LogOne};
use crate::parse::Event;

verus! {

/// Ignores an unhandled event and leaves the state untouched.
pub fn handle_misc(_ev: &Event, logone: &mut LogOne) -> (r: Result<(), LogError>)
    requires
        old(logone).wf(),
    ensures
        final(logone).wf(),
        final(logone)@ == old(logone)@,
        r == Ok::<(), LogError>(()),
{
    Ok(())
}

} // verus!
