//! Messages on a byte stream: each behind its length, as four bytes with the highest first.

use vstd::prelude::*;

use crate::protocol::{
    message_bytes, reading, reads_as, Message, MessageView, Reading, WireError,
};
use crate::text::{joined3, number_text, written_number};

verus! {

/// The longest message that is read from a stream, in bytes.
pub const MAX_FRAME_LEN: u32 = 10 * 1024 * 1024;

/// The number of bytes of a length.
pub const HEADER_LEN: usize = 4;

/// Why no message could be read from a stream.
#[derive(Debug)]
pub enum FrameError {
    /// The stream ends within the length.
    NoLength,
    /// The length is over the limit.
    TooLarge(u32),
    /// The stream ends within the message.
    NoPayload,
    /// The bytes are not a message.
    Decode(WireError),
}

impl FrameError {
    /// The text for the user.
    pub open spec fn text(&self) -> Seq<char> {
        match *self {
            FrameError::NoLength => "Failed to read frame length"@,
            FrameError::TooLarge(n) => "Frame size too large: "@ + number_text(n as nat)
                + " bytes"@,
            FrameError::NoPayload => "Failed to read frame payload"@,
            FrameError::Decode(_) => "Failed to decode message payload"@,
        }
    }

    /// The text for the user.
    pub fn message(&self) -> (r: String)
        ensures
            r@ == self.text(),
    {
        match self {
            FrameError::NoLength => "Failed to read frame length".to_owned(),
            FrameError::TooLarge(n) => joined3(
                "Frame size too large: ",
                &written_number(*n as u64),
                " bytes",
            ),
            FrameError::NoPayload => "Failed to read frame payload".to_owned(),
            FrameError::Decode(_) => "Failed to decode message payload".to_owned(),
        }
    }
}

/// The four bytes of a length.
pub open spec fn length_bytes(n: u32) -> Seq<u8> {
    seq![
        (n / 0x100_0000) as u8,
        (n / 0x1_0000 % 0x100) as u8,
        (n / 0x100 % 0x100) as u8,
        (n % 0x100) as u8,
    ]
}

/// The length that four bytes stand for.
pub open spec fn length_in(b: Seq<u8>) -> int {
    b[0] * 0x100_0000 + b[1] * 0x1_0000 + b[2] * 0x100 + b[3]
}

/// The message `payload` on a stream. The length is written modulo 2^32.
pub open spec fn framed(payload: Seq<u8>) -> Seq<u8> {
    length_bytes((payload.len() % 0x1_0000_0000) as u32) + payload
}

/// What a stream begins with.
pub enum FrameReading {
    NoLength,
    TooLarge(u32),
    NoPayload,
    Payload(Seq<u8>),
}

/// What a stream begins with.
pub open spec fn frame_in(stream: Seq<u8>) -> FrameReading {
    if stream.len() < HEADER_LEN {
        FrameReading::NoLength
    } else {
        let n = length_in(stream);
        if n > MAX_FRAME_LEN {
            FrameReading::TooLarge(n as u32)
        } else if stream.len() < HEADER_LEN + n {
            FrameReading::NoPayload
        } else {
            FrameReading::Payload(stream.subrange(HEADER_LEN as int, HEADER_LEN + n))
        }
    }
}

proof fn lemma_length(n: u32)
    ensures
        length_in(length_bytes(n)) == n,
{
    assert(n == (n / 0x100_0000) * 0x100_0000 + (n / 0x1_0000 % 0x100) * 0x1_0000 + (n / 0x100
        % 0x100) * 0x100 + (n % 0x100)) by (bit_vector);
}

/// A message that is within the limit is read from the stream as it was written, whatever
/// follows it.
pub proof fn law_frame_round_trip(payload: Seq<u8>, rest: Seq<u8>)
    requires
        payload.len() <= MAX_FRAME_LEN,
    ensures
        frame_in(framed(payload) + rest) == FrameReading::Payload(payload),
        framed(payload).len() == HEADER_LEN + payload.len(),
{
    let n = (payload.len() % 0x1_0000_0000) as u32;
    lemma_length(n);
    let stream = framed(payload) + rest;
    assert(length_in(stream) == length_in(length_bytes(n)));
    assert(stream.subrange(HEADER_LEN as int, HEADER_LEN + payload.len()) =~= payload);
}

/// The four bytes of a length.
fn write_length(n: u32) -> (r: Vec<u8>)
    ensures
        r@ == length_bytes(n),
{
    let mut r: Vec<u8> = Vec::new();
    r.push((n / 0x100_0000) as u8);
    r.push((n / 0x1_0000 % 0x100) as u8);
    r.push((n / 0x100 % 0x100) as u8);
    r.push((n % 0x100) as u8);
    assert(r@ =~= length_bytes(n));
    r
}

/// The length of the message behind the header `header`, unless it is over the limit.
pub fn payload_len(header: [u8; 4]) -> (r: Result<usize, FrameError>)
    ensures
        match r {
            Ok(n) => n == length_in(header@) && n <= MAX_FRAME_LEN,
            Err(e) => length_in(header@) > MAX_FRAME_LEN && (e matches FrameError::TooLarge(n) && n
                == length_in(header@)),
        },
{
    let n: u32 = header[0] as u32 * 0x100_0000 + header[1] as u32 * 0x1_0000 + header[2] as u32
        * 0x100 + header[3] as u32;
    if n > MAX_FRAME_LEN {
        Err(FrameError::TooLarge(n))
    } else {
        Ok(n as usize)
    }
}

/// `r` is what reading a message from the front of `stream` gives: the message and the number of
/// bytes that it took.
pub open spec fn reads_frame(r: Result<(Message, usize), FrameError>, stream: Seq<u8>) -> bool {
    match frame_in(stream) {
        FrameReading::NoLength => r matches Err(FrameError::NoLength),
        FrameReading::TooLarge(n) => r matches Err(FrameError::TooLarge(m)) && m == n,
        FrameReading::NoPayload => r matches Err(FrameError::NoPayload),
        FrameReading::Payload(payload) => match r {
            Ok((message, n)) => n == HEADER_LEN + payload.len() && reading(payload)
                == Reading::Message(message@),
            Err(FrameError::Decode(e)) => reads_as(Err(e), reading(payload)),
            Err(_) => false,
        },
    }
}

/// The bytes are the message on a stream. Where the message is within the limit, it is read from
/// the stream, whatever follows it.
pub open spec fn frames(bytes: Seq<u8>, m: MessageView) -> bool {
    &&& bytes == framed(message_bytes(m))
    &&& message_bytes(m).len() <= MAX_FRAME_LEN ==> forall|
        rest: Seq<u8>,
        got: Result<(Message, usize), FrameError>,
    | #[trigger]
        reads_frame(got, bytes + rest) ==> (got matches Ok((read, n)) && read@ == m && n
            == bytes.len())
}

/// The message as it is written to a stream.
pub(crate) fn write_frame(msg: &Message) -> (r: Result<Vec<u8>, WireError>)
    ensures
        r is Ok,
        frames(r->Ok_0@, msg@),
{
    let mut payload = match msg.encode() {
        Ok(bytes) => bytes,
        Err(e) => {
            return Err(e);
        },
    };
    let n: u32 = (payload.len() as u64 % 0x1_0000_0000) as u32;
    let mut bytes = write_length(n);
    let ghost body = payload@;
    bytes.append(&mut payload);
    proof {
        if body.len() <= MAX_FRAME_LEN {
            assert forall|rest: Seq<u8>, got: Result<(Message, usize), FrameError>| #[trigger]
                reads_frame(got, bytes@ + rest) implies (got matches Ok((m, n)) && m@ == msg@ && n
                == bytes@.len()) by {
                law_frame_round_trip(body, rest);
            }
        }
    }
    Ok(bytes)
}

/// Reads a message from the front of a stream, and tells how many bytes it took.
pub(crate) fn read_frame(stream: &[u8]) -> (r: Result<(Message, usize), FrameError>)
    ensures
        reads_frame(r, stream@),
{
    if stream.len() < HEADER_LEN {
        return Err(FrameError::NoLength);
    }
    let header = [stream[0], stream[1], stream[2], stream[3]];
    let n: usize = match payload_len(header) {
        Ok(n) => n,
        Err(e) => {
            return Err(e);
        },
    };
    if stream.len() - HEADER_LEN < n {
        return Err(FrameError::NoPayload);
    }
    let payload = vstd::slice::slice_subrange(stream, HEADER_LEN, HEADER_LEN + n);
    match Message::decode(payload) {
        Ok(message) => Ok((message, HEADER_LEN + n)),
        Err(e) => Err(FrameError::Decode(e)),
    }
}

/// The length before a message is four bytes, the highest first.
pub proof fn law_length_is_big_endian(n: u32)
    ensures
        length_bytes(n).len() == 4,
        length_bytes(n)[0] * 0x100_0000 + length_bytes(n)[1] * 0x1_0000 + length_bytes(n)[2] * 0x100
            + length_bytes(n)[3] == n,
{
    lemma_length(n);
}

/// A message on a stream is its length in four bytes and then the message, and nothing else.
pub proof fn law_frame_is_length_and_message(payload: Seq<u8>)
    requires
        payload.len() <= u32::MAX,
    ensures
        framed(payload).len() == 4 + payload.len(),
        framed(payload).skip(4) == payload,
        framed(payload)[0] * 0x100_0000 + framed(payload)[1] * 0x1_0000 + framed(payload)[2] * 0x100
            + framed(payload)[3] == payload.len(),
{
    lemma_length(payload.len() as u32);
    assert(framed(payload).skip(4) =~= payload);
}

/// A stream gives a message exactly where it holds four bytes of a length of at most ten mebibytes
/// and as many bytes behind them.
pub proof fn law_when_a_frame_is_there(stream: Seq<u8>)
    requires
        stream.len() >= 4,
    ensures
        ({
            let n = stream[0] * 0x100_0000 + stream[1] * 0x1_0000 + stream[2] * 0x100 + stream[3];
            &&& n > 10 * 1024 * 1024 <==> frame_in(stream) is TooLarge
            &&& n <= 10 * 1024 * 1024 && stream.len() < 4 + n <==> frame_in(stream) is NoPayload
            &&& n <= 10 * 1024 * 1024 && stream.len() >= 4 + n ==> frame_in(stream)
                == FrameReading::Payload(stream.subrange(4, 4 + n))
        }),
{
}

/// The user is told how large a frame is that is too large.
pub proof fn law_size_is_told(n: u32)
    ensures
        FrameError::TooLarge(n).text() == "Frame size too large: "@ + number_text(n as nat)
            + " bytes"@,
{
}

} // verus!
