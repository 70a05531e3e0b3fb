//! Logical equivalence (exclusive NOR) of two operands, obtained by asking an
//! exclusive-or service and then a negation service.

pub mod api;
pub mod client;
pub mod config;
pub mod health;
pub mod json;
pub mod text;

use vstd::prelude::*;

verus! {

/// The name under which this service identifies itself.
pub fn service_name() -> (name: &'static str)
    ensures
        name@ == "srvcs-xnor"@,
{
    "srvcs-xnor"
}

} // verus!
