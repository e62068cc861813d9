//! The back end of a translation assistant: the requests sent to language-model
//! providers, the reading of their replies (whole or streamed) into plain text and
//! dictionary entries, and the mailbox that relays results to the screen.
use vstd::prelude::*;

pub mod codec;
pub mod dict;
pub mod error;
pub mod json;
pub mod lang;
pub mod normalize;
pub mod providers;
pub mod relay;
pub mod storage;
pub mod stream;
pub mod text;
pub mod translators;

verus! {

/// Adds two counters; the sum must fit in a `u64`.
pub fn add(left: u64, right: u64) -> (r: u64)
    requires
        left + right <= u64::MAX,
    ensures
        r == left + right,
{
    left + right
}

} // verus!
