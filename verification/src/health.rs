//! Liveness and readiness, as the service reports them.

use vstd::prelude::*;

verus! {

/// Whether the service is ready to take requests. It starts not ready.
pub struct Readiness {
    ready: bool,
}

impl View for Readiness {
    type V = bool;

    closed spec fn view(&self) -> bool {
        self.ready
    }
}

impl Readiness {
    /// A service that is not ready yet.
    pub fn new() -> (readiness: Readiness)
        ensures
            !readiness@,
    {
        Readiness { ready: false }
    }
}

/// Marks the service ready, or not ready.
pub fn set_ready(readiness: &mut Readiness, ready: bool)
    ensures
        final(readiness)@ == ready,
{
    readiness.ready = ready;
}

/// Liveness: `200` whenever the service answers at all.
pub fn healthz() -> (status: u16)
    ensures
        status == 200,
{
    200
}

/// The status that readiness is reported with: `200` when ready, `503` when not.
pub open spec fn readiness_status(ready: bool) -> u16 {
    if ready {
        200
    } else {
        503
    }
}

/// Readiness (see [`readiness_status`]).
pub fn readyz(readiness: &Readiness) -> (status: u16)
    ensures
        status == readiness_status(readiness@),
{
    if readiness.ready {
        200
    } else {
        503
    }
}

/// Readiness is reported as `200` exactly when the service is ready, and as
/// `503` exactly when it is not.
pub proof fn lemma_readiness_status(ready: bool)
    ensures
        (readiness_status(ready) == 200) == ready,
        (readiness_status(ready) == 503) == !ready,
{
}

} // verus!
