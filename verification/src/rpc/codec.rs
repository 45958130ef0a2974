//! Frames: messages with their length in front.
use crate::text::{decimal, decimal_text};
use vstd::prelude::*;
use vstd::slice::slice_subrange;
use vstd::string::*;

verus! {

/// Maximum frame size: 16 MiB.
pub const MAX_FRAME_SIZE: u32 = 16_777_216;

/// A number as four bytes, the most significant first.
pub open spec fn be_bytes(n: nat) -> Seq<u8> {
    seq![
        (n / 0x100_0000 % 256) as u8,
        (n / 0x1_0000 % 256) as u8,
        (n / 0x100 % 256) as u8,
        (n % 256) as u8,
    ]
}

/// The number that four bytes make, the most significant first.
pub open spec fn be_number(b: Seq<u8>) -> nat {
    (b[0] * 0x100_0000 + b[1] * 0x1_0000 + b[2] * 0x100 + b[3]) as nat
}

/// A message with its length in front.
pub open spec fn frame(payload: Seq<u8>) -> Seq<u8> {
    be_bytes(payload.len()) + payload
}

/// What is wrong with a frame.
#[derive(Clone, Copy, Debug, PartialEq, Eq, Structural)]
pub enum FrameError {
    /// The message is longer than allowed.
    TooLarge { len: u64 },
    /// The stream ended within a message.
    Truncated,
}

impl FrameError {
    /// The words for the error.
    pub open spec fn message(self) -> Seq<char> {
        match self {
            FrameError::TooLarge { len } => "frame too large: "@ + decimal(len as nat)
                + " bytes (max "@ + decimal(MAX_FRAME_SIZE as nat) + ")"@,
            FrameError::Truncated => "early eof"@,
        }
    }

    /// The words for the error.
    pub fn to_text(&self) -> (res: String)
        ensures
            res@ == self.message(),
    {
        match self {
            FrameError::TooLarge { len } => {
                let mut out = "frame too large: ".to_owned();
                out.append(decimal_text(*len as u128).as_str());
                out.append(" bytes (max ");
                out.append(decimal_text(MAX_FRAME_SIZE as u128).as_str());
                out.append(")");
                out
            },
            FrameError::Truncated => "early eof".to_owned(),
        }
    }
}

/// Puts the length of a message in front of it. A message that is longer than
/// allowed is refused.
pub fn encode_frame(payload: &Vec<u8>) -> (res: Result<Vec<u8>, FrameError>)
    ensures
        payload@.len() <= MAX_FRAME_SIZE ==> (res matches Ok(bytes) && bytes@ == frame(payload@)),
        payload@.len() > MAX_FRAME_SIZE ==> res == Err::<Vec<u8>, FrameError>(
            FrameError::TooLarge { len: payload@.len() as u64 },
        ),
{
    let len: usize = payload.len();
    if len as u64 > MAX_FRAME_SIZE as u64 {
        return Err(FrameError::TooLarge { len: len as u64 });
    }
    let mut out: Vec<u8> = vec![
        (len / 0x100_0000 % 256) as u8,
        (len / 0x1_0000 % 256) as u8,
        (len / 0x100 % 256) as u8,
        (len % 256) as u8,
    ];
    let ghost header = be_bytes(payload@.len());
    assert(out@ =~= header);
    let mut i: usize = 0;
    assert(header + payload@.take(0) =~= header);
    while i < len
        invariant
            i <= len == payload@.len(),
            out@ == header + payload@.take(i as int),
        decreases len - i,
    {
        out.push(payload[i]);
        i = i + 1;
        assert(out@ =~= header + payload@.take(i as int));
    }
    assert(payload@.take(i as int) =~= payload@);
    Ok(out)
}

/// What the bytes of a stream start with.
pub enum Parsed {
    /// Not yet a whole message.
    Incomplete,
    /// A message that is longer than allowed.
    TooLarge(nat),
    /// A message, and what follows it.
    Frame(Seq<u8>, Seq<u8>),
}

/// What the bytes of a stream start with.
pub open spec fn parse(bytes: Seq<u8>) -> Parsed {
    if bytes.len() < 4 {
        Parsed::Incomplete
    } else {
        let len = be_number(bytes);
        if len > MAX_FRAME_SIZE {
            Parsed::TooLarge(len)
        } else if bytes.len() < 4 + len {
            Parsed::Incomplete
        } else {
            Parsed::Frame(
                bytes.subrange(4, 4 + len as int),
                bytes.subrange(4 + len as int, bytes.len() as int),
            )
        }
    }
}

/// Takes messages out of a stream of bytes.
#[derive(Debug, PartialEq, Eq)]
pub struct FrameDecoder {
    pub buffer: Vec<u8>,
}

fn copy_range(bytes: &[u8]) -> (res: Vec<u8>)
    ensures
        res@ == bytes@,
{
    let mut out: Vec<u8> = Vec::new();
    let mut i: usize = 0;
    while i < bytes.len()
        invariant
            i <= bytes@.len(),
            out@ == bytes@.take(i as int),
        decreases bytes@.len() - i,
    {
        out.push(bytes[i]);
        i = i + 1;
        assert(out@ =~= bytes@.take(i as int));
    }
    assert(out@ =~= bytes@);
    out
}

impl FrameDecoder {
    /// A decoder at the start of a stream.
    pub fn new() -> (res: FrameDecoder)
        ensures
            res.buffer@.len() == 0,
    {
        FrameDecoder { buffer: Vec::new() }
    }

    /// Takes the next bytes of the stream.
    pub fn feed(&mut self, bytes: &Vec<u8>)
        ensures
            final(self).buffer@ == old(self).buffer@ + bytes@,
    {
        let mut i: usize = 0;
        assert(self.buffer@ =~= old(self).buffer@ + bytes@.take(0));
        while i < bytes.len()
            invariant
                i <= bytes@.len(),
                self.buffer@ == old(self).buffer@ + bytes@.take(i as int),
            decreases bytes@.len() - i,
        {
            self.buffer.push(bytes[i]);
            i = i + 1;
            assert(self.buffer@ =~= old(self).buffer@ + bytes@.take(i as int));
        }
        assert(bytes@.take(i as int) =~= bytes@);
    }

    /// Takes the next message out, where all of it is there.
    pub fn next_frame(&mut self) -> (res: Result<Option<Vec<u8>>, FrameError>)
        ensures
            match parse(old(self).buffer@) {
                Parsed::Incomplete => {
                    &&& res == Ok::<Option<Vec<u8>>, FrameError>(None)
                    &&& final(self).buffer@ == old(self).buffer@
                },
                Parsed::TooLarge(len) => {
                    &&& res == Err::<Option<Vec<u8>>, FrameError>(
                        FrameError::TooLarge { len: len as u64 },
                    )
                    &&& final(self).buffer@ == old(self).buffer@
                },
                Parsed::Frame(payload, rest) => {
                    &&& res matches Ok(Some(bytes))
                    &&& bytes@ == payload
                    &&& final(self).buffer@ == rest
                },
            },
    {
        let total: usize = self.buffer.len();
        if total < 4 {
            return Ok(None);
        }
        let len: u64 = self.buffer[0] as u64 * 0x100_0000 + self.buffer[1] as u64 * 0x1_0000
            + self.buffer[2] as u64 * 0x100 + self.buffer[3] as u64;
        if len > MAX_FRAME_SIZE as u64 {
            return Err(FrameError::TooLarge { len });
        }
        if ((total - 4) as u64) < len {
            return Ok(None);
        }
        let end: usize = 4 + len as usize;
        let payload = copy_range(slice_subrange(self.buffer.as_slice(), 4, end));
        let rest = copy_range(slice_subrange(self.buffer.as_slice(), end, total));
        self.buffer = rest;
        Ok(Some(payload))
    }

    /// Takes the end of the stream: it may come between messages, and within
    /// the length of one, but not within a message.
    pub fn finish(&self) -> (res: Result<(), FrameError>)
        ensures
            res == if self.buffer@.len() < 4 {
                Ok::<(), FrameError>(())
            } else {
                Err::<(), FrameError>(FrameError::Truncated)
            },
    {
        if self.buffer.len() < 4 {
            Ok(())
        } else {
            Err(FrameError::Truncated)
        }
    }
}

/// Messages with their lengths in front, one after another.
pub open spec fn frames(payloads: Seq<Seq<u8>>) -> Seq<u8>
    decreases payloads.len(),
{
    if payloads.len() == 0 {
        Seq::empty()
    } else {
        frame(payloads[0]) + frames(payloads.subrange(1, payloads.len() as int))
    }
}

/// Decoding gives back what was encoded: what a stream starts with, where a
/// frame comes first, is its message, and what follows the frame is left.
pub proof fn decode_gives_back_what_was_encoded(payload: Seq<u8>, rest: Seq<u8>)
    requires
        payload.len() <= MAX_FRAME_SIZE,
    ensures
        parse(frame(payload) + rest) == Parsed::Frame(payload, rest),
{
    let bytes = frame(payload) + rest;
    let n = payload.len();
    assert(bytes.len() >= 4);
    assert(bytes[0] == n / 0x100_0000 % 256);
    assert(bytes[1] == n / 0x1_0000 % 256);
    assert(bytes[2] == n / 0x100 % 256);
    assert(bytes[3] == n % 256);
    assert(be_number(bytes) == n);
    assert(bytes.subrange(4, 4 + n as int) =~= payload);
    assert(bytes.subrange(4 + n as int, bytes.len() as int) =~= rest);
}

/// Several messages come out in the order in which they went in: behind the
/// first of them stand the others.
pub proof fn frames_come_out_in_order(payloads: Seq<Seq<u8>>)
    requires
        payloads.len() > 0,
        forall|i: int| 0 <= i < payloads.len() ==> (#[trigger] payloads[i]).len() <= MAX_FRAME_SIZE,
    ensures
        parse(frames(payloads)) == Parsed::Frame(
            payloads[0],
            frames(payloads.subrange(1, payloads.len() as int)),
        ),
{
    decode_gives_back_what_was_encoded(
        payloads[0],
        frames(payloads.subrange(1, payloads.len() as int)),
    );
}

/// The end of a stream of whole messages is clean: when the last has come
/// out, nothing is left.
pub proof fn whole_streams_end_cleanly(payload: Seq<u8>)
    requires
        payload.len() <= MAX_FRAME_SIZE,
    ensures
        parse(frame(payload)) == Parsed::Frame(payload, Seq::empty()),
{
    decode_gives_back_what_was_encoded(payload, Seq::empty());
    assert(frame(payload) + Seq::<u8>::empty() =~= frame(payload));
}

/// A frame tells in its first four bytes, the most significant first, how long its
/// message is, and the message follows as it is.
pub proof fn frames_tell_how_long_they_are(payload: Seq<u8>, i: int)
    requires
        payload.len() <= 16 * 1024 * 1024,
    ensures
        frame(payload).len() == 4 + payload.len(),
        frame(payload)[0] * 256 * 256 * 256 + frame(payload)[1] * 256 * 256 + frame(payload)[2]
            * 256 + frame(payload)[3] == payload.len(),
        0 <= i < payload.len() ==> frame(payload)[4 + i] == payload[i],
{
    let n = payload.len();
    let b = frame(payload);
    assert(b[0] == n / 0x100_0000 % 256);
    assert(b[1] == n / 0x1_0000 % 256);
    assert(b[2] == n / 0x100 % 256);
    assert(b[3] == n % 256);
}

/// A stream begins with a message only where all of it has come and it is no longer
/// than sixteen mebibytes; what is longer is found out by its first four bytes.
pub proof fn long_messages_are_found_out(bytes: Seq<u8>)
    requires
        bytes.len() >= 4,
    ensures
        ({
            let len = bytes[0] * 256 * 256 * 256 + bytes[1] * 256 * 256 + bytes[2] * 256
                + bytes[3];
            &&& len > 16 * 1024 * 1024 <==> parse(bytes) is TooLarge
            &&& len <= 16 * 1024 * 1024 && bytes.len() < 4 + len <==> parse(bytes) is Incomplete
            &&& parse(bytes) matches Parsed::Frame(payload, rest) ==> payload.len() == len
                && rest.len() == bytes.len() - 4 - len && bytes == bytes.take(4) + payload + rest
        }),
{
    if let Parsed::Frame(payload, rest) = parse(bytes) {
        assert(bytes =~= bytes.take(4) + payload + rest);
    }
}

} // verus!
