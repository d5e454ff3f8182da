//! The bind target for the listening socket, and the report a failed bind
//! produces.

use vstd::prelude::*;
use vstd::string::StringExecFns;

verus! {

/// A bind target: the textual form of an IPv4 or IPv6 socket address.
#[derive(Debug)]
pub enum Address {
    IPv4(String),
    IPv6(String),
}

impl Address {
    /// The wrapped text, whichever family it belongs to.
    pub open spec fn spec_text(self) -> Seq<char> {
        match self {
            Address::IPv4(addr) => addr@,
            Address::IPv6(addr) => addr@,
        }
    }

    /// Borrows the address text used for binding.
    pub fn to_string(&self) -> (r: &String)
        ensures
            r@ == self.spec_text(),
    {
        match self {
            Address::IPv4(addr) => addr,
            Address::IPv6(addr) => addr,
        }
    }
}

/// The report for a failed bind: the address it was attempted at, and the
/// system's own account of the error.  A failed bind is fatal; the caller
/// logs this report and exits without serving.
pub fn bind_failure_message(address: &str, error: &str) -> (r: String)
    ensures
        r@ == "Failed to bind server at address "@ + address@ + ", Error: "@ + error@,
{
    let mut s = String::from_str("Failed to bind server at address ");
    s.append(address);
    s.append(", Error: ");
    s.append(error);
    proof {
        assert(s@ =~= "Failed to bind server at address "@ + address@ + ", Error: "@ + error@);
    }
    s
}

} // verus!
