//! Network helpers for TLS connections over a pooled TCP socket and the
//! Deepgram WebSocket upgrade.
//!
//! The HTTP framing they need is shared with [`crate::networking`].

use vstd::prelude::*;

use crate::networking;
use crate::scan;

verus! {

/// Number of TCP buffer pairs, hence of concurrent connections.
pub const MAX_CONNECTIONS: usize = 4;

/// Find `\r\n\r\n` in a byte slice, returning the index of the first `\r`.
pub fn find_header_end(buf: &[u8]) -> (r: Option<usize>)
    ensures
        match r {
            Some(i) => scan::first_match(buf@, networking::header_terminator()) == Some(i as int)
                && i + 4 <= buf@.len(),
            None => scan::first_match(buf@, networking::header_terminator()) == None::<int>,
        },
{
    networking::find_header_end(buf)
}

} // verus!
