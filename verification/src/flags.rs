//! The status flags of an open file.

use vstd::prelude::*;

verus! {

/// The flags among `flags` that [`nix::fcntl::OFlag`] has a name for on the system that
/// the crate is built for.
pub uninterp spec fn named_flags(flags: i32) -> i32;

/// Calls `nix::fcntl::OFlag::from_bits_truncate` and takes the bits of the result.
///
/// Claimed of it, without proof: the result is determined by the argument; the call drops
/// the bits that do not belong to a named flag and keeps the others, so that its result
/// is the argument masked with what it leaves of a word that has every bit set.
#[verifier::external_body]
fn truncate_flags(flags: i32) -> (r: i32)
    ensures
        r == named_flags(flags),
        r == flags & named_flags(!0i32),
{
    nix::fcntl::OFlag::from_bits_truncate(flags).bits()
}

/// Adds a flag to those that are set.
pub fn add_flag(flags: i32, flag: i32) -> (r: i32)
    ensures
        r == flags | flag,
        r & flag == flag,
        r & flags == flags,
{
    assert((flags | flag) & flag == flag) by (bit_vector);
    assert((flags | flag) & flags == flags) by (bit_vector);
    flags | flag
}

/// The flags that make a file non-blocking, from those that it has now and the flag
/// `nonblock` that stands for non-blocking: bits without a name are dropped, and the flag
/// is added.
pub fn nonblocking_flags(flags: i32, nonblock: i32) -> (r: i32)
    ensures
        r == named_flags(flags) | nonblock,
        r == (flags & named_flags(!0i32)) | nonblock,
        r & nonblock == nonblock,
        r & !(flags | nonblock) == 0,
{
    let named: i32 = truncate_flags(flags);
    proof {
        let mask = named_flags(!0i32);
        assert(((flags & mask) | nonblock) & !(flags | nonblock) == 0) by (bit_vector);
    }
    add_flag(named, nonblock)
}

} // verus!
