//! Network protocol helpers shared by the transcription and translation clients.

pub mod connection;
pub mod deepgram;
pub mod streaming;
pub mod websocket;

use vstd::prelude::*;

use crate::scan;

verus! {

/// The bytes of `\r\n\r\n`.
pub open spec fn header_terminator() -> Seq<u8> {
    seq![0x0d, 0x0a, 0x0d, 0x0a]
}

fn header_terminator_bytes() -> (v: Vec<u8>)
    ensures
        v@ == header_terminator(),
{
    vec![0x0d, 0x0a, 0x0d, 0x0a]
}
/// Find `\r\n\r\n` in a byte slice, returning the index of the first `\r`.
pub fn find_header_end(buf: &[u8]) -> (r: Option<usize>)
    ensures
        match r {
            Some(i) => scan::first_match(buf@, header_terminator()) == Some(i as int) && i + 4
                <= buf@.len(),
            None => scan::first_match(buf@, header_terminator()) == None::<int>,
        },
{
    let pat = header_terminator_bytes();
    scan::find_bytes(buf, pat.as_slice())
}

} // verus!
