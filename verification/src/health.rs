//! The liveness report served by the surrounding application's health
//! endpoint.  The transport layer only marshals it; its one datum, the
//! status text, is fixed here.

use vstd::prelude::*;

verus! {

broadcast use vstd::string::group_string_axioms;

/// Body of a liveness check response.
pub struct HealthStatus {
    status: String,
}

impl HealthStatus {
    /// The status text.
    pub closed spec fn status_spec(&self) -> Seq<char> {
        self.status@
    }

    /// The report of a live service: its status reads `"ok"`.
    pub fn healthy() -> (r: HealthStatus)
        ensures
            r.status_spec() == "ok"@,
    {
        HealthStatus { status: "ok".to_string() }
    }

    /// The status text, for the transport layer to marshal.
    pub fn status(&self) -> (r: &String)
        ensures
            r@ == self.status_spec(),
    {
        &self.status
    }
}

} // verus!
