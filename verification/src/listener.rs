//! The capture side's own filtering: beyond what the capture library
//! filters at the device, a frame must carry the requested application
//! protocol to be kept.  Opening devices and reading frames is the
//! caller's business.

pub mod filter_arg;

use vstd::prelude::*;

use crate::analyze::ProType;
use crate::listener::filter_arg::FilterArg;

verus! {

/// Whether a classified frame passes the application protocol filter: it
/// does whenever no protocol is required, or the frame carries the
/// required one.
pub open spec fn spec_filter(filter_arg: FilterArg, pro_type: ProType) -> bool {
    match filter_arg.application_pro {
        Some(p) => p == pro_type.application_pro,
        None => true,
    }
}

/// Decide whether a classified frame is kept.
pub fn filter(filter_arg: &FilterArg, pro_type: &ProType) -> (r: bool)
    ensures
        r == spec_filter(*filter_arg, *pro_type),
{
    if let Some(application_pro) = &filter_arg.application_pro {
        if *application_pro != pro_type.application_pro {
            return false;
        }
    }
    true
}

} // verus!
