//! Last-resort fault handling for the embedded targets this library runs on.

use vstd::prelude::*;

verus! {

/// Hook for an unrecoverable fault of the receiving node. An embedded node
/// has nobody to report to: its own runtime hook parks the device until an
/// external reset, and nothing remains for the library to do first.
pub fn panic() {
}

} // verus!
