//! What the drivers frame and recognise themselves: the ping exchange, and
//! the server's wish to close an HTTP connection.

use vstd::prelude::*;

verus! {

/// The request of the ping protocol: `PING` and a line end.
pub open spec fn ping_frame() -> Seq<u8> {
    seq![80u8, 73u8, 78u8, 71u8, 13u8, 10u8]
}

/// The response of the ping protocol: `PONG` and a line end.
pub open spec fn pong_frame() -> Seq<u8> {
    seq![80u8, 79u8, 78u8, 71u8, 13u8, 10u8]
}

/// The value of the `Connection` header by which a server closes the
/// connection: `close`.
pub open spec fn close_token() -> Seq<u8> {
    seq![99u8, 108u8, 111u8, 115u8, 101u8]
}

/// What a read buffer holds, as far as the response parser can tell.
#[derive(Clone, Copy, Debug, PartialEq, Eq, Structural)]
pub enum Parsed {
    /// A whole response, `consumed` bytes long, stands at the front.
    Complete { consumed: usize },
    /// The buffer is the beginning of a response; more bytes are needed.
    Incomplete,
    /// The buffer cannot become a response.
    Invalid,
}

/// True when `prefix` stands at the front of `bytes`.
pub open spec fn starts_with(bytes: Seq<u8>, prefix: Seq<u8>) -> bool {
    prefix.len() <= bytes.len() && bytes.subrange(0, prefix.len() as int) == prefix
}

/// What the parser makes of a buffer: complete when the response stands at
/// its front, incomplete when it is a shorter beginning of the response
/// (the empty buffer too), invalid otherwise.
pub open spec fn parse_of(buffer: Seq<u8>) -> Parsed {
    if starts_with(buffer, pong_frame()) {
        Parsed::Complete { consumed: 6 }
    } else if buffer.len() < 6 && starts_with(pong_frame(), buffer) {
        Parsed::Incomplete
    } else {
        Parsed::Invalid
    }
}

fn pong_byte(i: usize) -> (out: u8)
    requires
        i < 6,
    ensures
        out == pong_frame()[i as int],
{
    if i == 0 {
        80
    } else if i == 1 {
        79
    } else if i == 2 {
        78
    } else if i == 3 {
        71
    } else if i == 4 {
        13
    } else {
        10
    }
}

/// Appends a ping request to a write buffer.
pub fn compose_ping(buffer: &mut Vec<u8>)
    ensures
        final(buffer)@ == old(buffer)@ + ping_frame(),
{
    buffer.push(80);
    buffer.push(73);
    buffer.push(78);
    buffer.push(71);
    buffer.push(13);
    buffer.push(10);
    assert(buffer@ =~= old(buffer)@ + ping_frame());
}

/// Parses the front of a read buffer as a ping response.
pub fn parse_pong(buffer: &Vec<u8>) -> (out: Parsed)
    ensures
        out == parse_of(buffer@),
{
    let mut i: usize = 0;
    while i < 6
        invariant
            i <= 6,
            i <= buffer.len(),
            forall|j: int| 0 <= j < i ==> buffer@[j] == pong_frame()[j],
        decreases 6 - i,
    {
        if i >= buffer.len() {
            assert(buffer@ =~= pong_frame().subrange(0, buffer.len() as int));
            return Parsed::Incomplete;
        }
        if buffer[i] != pong_byte(i) {
            proof {
                if starts_with(buffer@, pong_frame()) {
                    assert(buffer@.subrange(0, 6)[i as int] == pong_frame()[i as int]);
                }
                if buffer.len() < 6 && starts_with(pong_frame(), buffer@) {
                    assert(pong_frame().subrange(0, buffer.len() as int)[i as int]
                        == buffer@[i as int]);
                }
            }
            return Parsed::Invalid;
        }
        i = i + 1;
    }
    assert(buffer@.subrange(0, 6) =~= pong_frame());
    Parsed::Complete { consumed: 6 }
}

/// Whether a `Connection` header value asks to close the connection.
pub fn wants_close(value: &Vec<u8>) -> (out: bool)
    ensures
        out == (value@ == close_token()),
{
    if value.len() != 5 {
        return false;
    }
    let same = value[0] == 99 && value[1] == 108 && value[2] == 111 && value[3] == 115 && value[4]
        == 101;
    proof {
        if same {
            assert(value@ =~= close_token());
        }
    }
    same
}

} // verus!
