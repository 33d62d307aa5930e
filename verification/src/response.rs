//! Classification of HTTP response statuses.

use vstd::prelude::*;

verus! {

/// A success status in the HTTP sense: the 2xx range.
pub open spec fn is_success_status(status: u16) -> bool {
    200 <= status < 300
}

} // verus!
