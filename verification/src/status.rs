//! HTTP status codes as a plain validated value.

use vstd::prelude::*;

verus! {

/// A status code is any three-digit number, as the HTTP grammar allows.
pub open spec fn valid_status_code(n: u16) -> bool {
    100 <= n <= 999
}

/// An HTTP status code, kept as its three-digit number.
#[derive(Clone, Copy, Debug)]
pub struct StatusCode {
    code: u16,
}

impl StatusCode {
    /// The code as a number.
    pub closed spec fn spec_code(self) -> u16 {
        self.code
    }

    pub closed spec fn wf(self) -> bool {
        valid_status_code(self.code)
    }

    /// Accepts exactly the three-digit numbers.
    pub fn from_u16(n: u16) -> (r: Option<StatusCode>)
        ensures
            r is Some <==> valid_status_code(n),
            r is Some ==> r->0.spec_code() == n && r->0.wf(),
    {
        if 100 <= n && n <= 999 {
            Some(StatusCode { code: n })
        } else {
            None
        }
    }

    pub fn as_u16(&self) -> (r: u16)
        ensures
            r == self.spec_code(),
    {
        self.code
    }
}

} // verus!
