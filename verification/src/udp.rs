//! Datagram reception: the buffer handed to the socket and the datagram cut
//! out of it afterwards.

use vstd::prelude::*;

verus! {

/// Number of bytes offered to the socket for one datagram.
pub const RECEIVE_BUFFER_SIZE: usize = 1024;

/// A zeroed buffer of `RECEIVE_BUFFER_SIZE` bytes for the next datagram.
pub fn receive_buffer() -> (buffer: Vec<u8>)
    ensures
        buffer@ == Seq::new(RECEIVE_BUFFER_SIZE as nat, |i: int| 0u8),
{
    let mut buffer: Vec<u8> = Vec::new();
    let mut i: usize = 0;
    while i < RECEIVE_BUFFER_SIZE
        invariant
            i <= RECEIVE_BUFFER_SIZE,
            buffer@ == Seq::new(i as nat, |k: int| 0u8),
        decreases RECEIVE_BUFFER_SIZE - i,
    {
        buffer.push(0u8);
        i = i + 1;
        assert(buffer@ =~= Seq::new(i as nat, |k: int| 0u8));
    }
    buffer
}

/// The datagram that was received into `buffer`: its first `received`
/// bytes, or all of it where the count is larger than the buffer.
pub fn datagram(buffer: Vec<u8>, received: usize) -> (message: Vec<u8>)
    ensures
        message@ == if received <= buffer@.len() {
            buffer@.take(received as int)
        } else {
            buffer@
        },
{
    let mut message = buffer;
    message.truncate(received);
    message
}

} // verus!
