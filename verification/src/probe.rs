//! The response-level behaviour of the three HTTP health probes.
//!
//! Each probe inspects one flag of the shared status and answers 200
//! when the flag is true and 503 otherwise. The HTTP transport, the
//! response body and its timestamp live outside the verified core.

use vstd::prelude::*;

use crate::status::Status;

verus! {

/// The three probe endpoints.
#[derive(Clone, Copy, Debug, PartialEq, Eq, Structural)]
pub enum Probe {
    Healthz,
    Livez,
    Readyz,
}

/// The flag a probe inspects.
pub open spec fn probed_flag_spec(s: Status, p: Probe) -> bool {
    match p {
        Probe::Healthz => s.healthz,
        Probe::Livez => s.livez,
        Probe::Readyz => s.readyz,
    }
}

/// Reads the flag a probe asks about.
pub fn probed_flag(status: &Status, probe: &Probe) -> (r: bool)
    ensures
        r == probed_flag_spec(*status, *probe),
{
    match probe {
        Probe::Healthz => status.healthz,
        Probe::Livez => status.livez,
        Probe::Readyz => status.readyz,
    }
}

/// The HTTP status code a probe answers with: 200 exactly when the
/// probed flag is true, 503 otherwise.
pub fn probe_response_code(status: &Status, probe: &Probe) -> (r: u16)
    ensures
        r == (if probed_flag_spec(*status, *probe) {
            200u16
        } else {
            503u16
        }),
{
    if probed_flag(status, probe) {
        200
    } else {
        503
    }
}

} // verus!
