//! Framing of the datagrams the simulator sends: each carries one JSON unit record ended
//! by a newline; whatever follows the first newline is ignored.

use vstd::prelude::*;

verus! {

/// The loopback UDP port the simulator sends to.
pub const DCS_LISTENER_PORT: u16 = 34254;

/// Ends the message in a datagram.
pub const DCS_MSG_DELIMITER: u8 = 0x0A;

/// At most this many bytes of a datagram are read.
pub const DCS_LISTENER_BUFFER_SIZE: usize = 1024;

/// Why a datagram holds no message.
#[derive(Debug, Clone, Copy, PartialEq, Eq, Structural)]
pub enum FrameError {
    /// Nothing was received.
    Empty,
    /// The datagram has no newline.
    MissingDelimiter,
}

/// `message` is what precedes the first delimiter of `datagram`.
pub open spec fn is_first_message(datagram: Seq<u8>, message: Seq<u8>) -> bool {
    &&& message.len() < datagram.len()
    &&& message == datagram.take(message.len() as int)
    &&& datagram[message.len() as int] == DCS_MSG_DELIMITER
    &&& !message.contains(DCS_MSG_DELIMITER)
}

/// The bytes of `datagram` before its first newline.
pub fn extract_message(datagram: &[u8]) -> (r: Result<Vec<u8>, FrameError>)
    ensures
        datagram@.len() == 0 ==> r == Err::<Vec<u8>, FrameError>(FrameError::Empty),
        datagram@.len() > 0 && !datagram@.contains(DCS_MSG_DELIMITER) ==> r == Err::<
            Vec<u8>,
            FrameError,
        >(FrameError::MissingDelimiter),
        datagram@.contains(DCS_MSG_DELIMITER) ==> (r matches Ok(m) && is_first_message(
            datagram@,
            m@,
        )),
{
    if datagram.len() == 0 {
        return Err(FrameError::Empty);
    }
    let mut message: Vec<u8> = Vec::new();
    let mut i: usize = 0;
    while i < datagram.len()
        invariant
            i <= datagram@.len(),
            message@ == datagram@.take(i as int),
            !message@.contains(DCS_MSG_DELIMITER),
        decreases datagram@.len() - i,
    {
        let byte = datagram[i];
        if byte == DCS_MSG_DELIMITER {
            return Ok(message);
        }
        message.push(byte);
        i = i + 1;
        proof {
            assert(message@ =~= datagram@.take(i as int));
            assert(!message@.contains(DCS_MSG_DELIMITER)) by {
                if message@.contains(DCS_MSG_DELIMITER) {
                    let k = choose|k: int| 0 <= k < message@.len() && message@[k] == DCS_MSG_DELIMITER;
                    if k < i - 1 {
                        assert(datagram@.take(i - 1)[k] == message@[k]);
                    }
                }
            }
        }
    }
    proof {
        assert(message@ =~= datagram@);
    }
    Err(FrameError::MissingDelimiter)
}

} // verus!
