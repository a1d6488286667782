//! Telling the would-block error code apart from every other.

use vstd::prelude::*;

verus! {

/// Whether `nix::errno::Errno::from_raw` reads the raw error code `code` as
/// `EAGAIN`, the code of an operation that would block.
pub uninterp spec fn errno_is_again(code: i32) -> bool;

/// Reads a raw error code with `nix::errno::Errno::from_raw` and compares
/// what comes back with `nix::errno::Errno::EAGAIN`. The contract gives the
/// answer its name and claims nothing more of it: which number the platform
/// uses for `EAGAIN` is not stated here.
#[verifier::external_body]
pub(crate) fn is_again(code: i32) -> (again: bool)
    ensures
        again == errno_is_again(code),
{
    nix::errno::Errno::from_raw(code) == nix::errno::Errno::EAGAIN
}

} // verus!
