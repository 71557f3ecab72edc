//! One command frame on the wire: start marker, opcode, little-endian
//! payload length, payload, little-endian checksum, end marker.

use crate::checksum::{checksum, checksum_of};
use crate::command::{canonical, code_byte, code_of_byte, CommandCode};
use crate::endian::{read_u16_le, u16_of, write_u16_le};
use vstd::prelude::*;
use vstd::slice::slice_subrange;

verus! {

/// The marker that opens every frame.
pub const START_BYTE: u8 = 0x01;

/// The marker that closes every frame.
pub const END_BYTE: u8 = 0x17;

/// The largest payload of row data that one frame carries: a physical
/// frame of 64 bytes less the framing overhead.
pub const MAX_DATA_LENGTH: usize = 57;

/// Why a frame could not be decoded.
#[derive(Clone, Copy, Debug, PartialEq, Eq, Structural)]
pub enum FrameError {
    /// The first byte, given here, is not the start marker.
    BadStart(u8),
    /// The last byte, given here, is not the end marker.
    BadEnd(u8),
    /// The checksum field disagrees with the checksum of the frame's bytes.
    ChecksumMismatch { expected: u16, found: u16 },
    /// The stream ended inside the frame: a failure of the transport.
    ShortRead,
    /// No frame could be decoded in the given number of attempts.
    NoFrame { attempts: u8 },
}

/// A command as a mathematical value: its opcode and its payload.
pub struct CommandModel {
    pub code: CommandCode,
    pub payload: Seq<u8>,
}

/// One command of the protocol, sent to the device or received from it.
#[derive(Clone, Debug, PartialEq, Eq)]
pub struct BootloaderCommand {
    pub command_code: CommandCode,
    pub data: Vec<u8>,
}

impl View for BootloaderCommand {
    type V = CommandModel;

    open spec fn view(&self) -> CommandModel {
        CommandModel { code: self.command_code, payload: self.data@ }
    }
}

/// A command is valid when its payload length fits the 16-bit length
/// field and its opcode is canonical.
pub open spec fn valid_command(m: CommandModel) -> bool {
    m.payload.len() <= 65535 && canonical(m.code)
}

/// The four bytes that precede the payload.
pub open spec fn frame_header(m: CommandModel) -> Seq<u8> {
    seq![
        START_BYTE,
        code_byte(m.code),
        (m.payload.len() % 256) as u8,
        (m.payload.len() / 256) as u8,
    ]
}

/// The bytes that the checksum covers: header and payload.
pub open spec fn frame_body(m: CommandModel) -> Seq<u8> {
    frame_header(m) + m.payload
}

/// The three bytes that follow the payload: checksum and end marker.
pub open spec fn frame_trailer(m: CommandModel) -> Seq<u8> {
    let c = checksum_of(frame_body(m));
    seq![(c % 256) as u8, (c / 256) as u8, END_BYTE]
}

/// The whole frame of a command.
pub open spec fn frame_bytes(m: CommandModel) -> Seq<u8> {
    frame_body(m) + frame_trailer(m)
}

/// The payload length that the header of `s` declares.
pub open spec fn declared_len(s: Seq<u8>) -> int
    recommends
        s.len() >= 4,
{
    u16_of(s[2], s[3])
}

/// What decoding one frame from the front of `s` gives. The fields are
/// read in order, and the first thing that goes wrong decides: a stream
/// that ends early, a wrong start marker, a wrong end marker, and last a
/// checksum that does not match.
pub open spec fn decode_result(s: Seq<u8>) -> Result<CommandModel, FrameError> {
    if s.len() < 1 {
        Err(FrameError::ShortRead)
    } else if s[0] != START_BYTE {
        Err(FrameError::BadStart(s[0]))
    } else if s.len() < 4 {
        Err(FrameError::ShortRead)
    } else {
        let n = declared_len(s);
        if s.len() < n + 7 {
            Err(FrameError::ShortRead)
        } else if s[n + 6] != END_BYTE {
            Err(FrameError::BadEnd(s[n + 6]))
        } else if u16_of(s[n + 4], s[n + 5]) != checksum_of(s.subrange(0, n + 4)) {
            Err(
                FrameError::ChecksumMismatch {
                    expected: checksum_of(s.subrange(0, n + 4)) as u16,
                    found: u16_of(s[n + 4], s[n + 5]) as u16,
                },
            )
        } else {
            Ok(CommandModel { code: code_of_byte(s[1]), payload: s.subrange(4, n + 4) })
        }
    }
}

/// How many bytes decoding one frame from the front of `s` takes from the
/// stream: one byte for a wrong start marker, all that is left where the
/// stream ends early, and the whole frame otherwise.
pub open spec fn decode_consumed(s: Seq<u8>) -> int {
    if s.len() < 1 {
        0
    } else if s[0] != START_BYTE {
        1
    } else if s.len() < 4 || s.len() < declared_len(s) + 7 {
        s.len() as int
    } else {
        declared_len(s) + 7
    }
}

/// How many more bytes must arrive before one frame can be decoded from
/// the front of `s`: none once the outcome no longer depends on what
/// follows.
pub open spec fn frame_need(s: Seq<u8>) -> int {
    if s.len() < 1 {
        1
    } else if s[0] != START_BYTE {
        0
    } else if s.len() < 4 {
        4 - s.len()
    } else if s.len() < declared_len(s) + 7 {
        declared_len(s) + 7 - s.len()
    } else {
        0
    }
}

/// What is left of `s` after up to `attempts` decoding attempts, each one
/// starting where the one before stopped, up to the first success.
pub open spec fn read_rest(s: Seq<u8>, attempts: nat) -> Seq<u8>
    decreases attempts,
{
    if attempts == 0 {
        s
    } else if decode_result(s) is Ok {
        s.skip(decode_consumed(s))
    } else {
        read_rest(s.skip(decode_consumed(s)), (attempts - 1) as nat)
    }
}

/// The first frame that decodes within `attempts` attempts on `s`.
pub open spec fn read_frame(s: Seq<u8>, attempts: nat) -> Option<CommandModel>
    decreases attempts,
{
    if attempts == 0 {
        None
    } else {
        match decode_result(s) {
            Ok(m) => Some(m),
            Err(_) => read_frame(s.skip(decode_consumed(s)), (attempts - 1) as nat),
        }
    }
}

/// A stream of received bytes with a read position.
#[derive(Clone, Debug, PartialEq, Eq)]
pub struct ByteReader {
    pub bytes: Vec<u8>,
    pub pos: usize,
}

impl ByteReader {
    /// The position lies within the bytes.
    pub open spec fn wf(&self) -> bool {
        self.pos <= self.bytes@.len()
    }

    /// The bytes that have not been read yet.
    pub open spec fn remaining(&self) -> Seq<u8> {
        self.bytes@.skip(self.pos as int)
    }

    /// A reader at the start of `bytes`.
    pub fn new(bytes: Vec<u8>) -> (r: ByteReader)
        ensures
            r.wf(),
            r.bytes@ == bytes@,
            r.pos == 0,
            r.remaining() == bytes@,
    {
        let r = ByteReader { bytes, pos: 0 };
        assert(r.remaining() =~= r.bytes@);
        r
    }

    /// The number of bytes that have not been read yet.
    pub fn available(&self) -> (n: usize)
        requires
            self.wf(),
        ensures
            n == self.remaining().len(),
    {
        self.bytes.len() - self.pos
    }
}

/// Says how many more bytes the owner of the transport is to read before
/// a frame can be decoded from `received`. The answer is zero exactly when
/// decoding no longer fails for want of bytes.
pub fn bytes_needed(received: &[u8]) -> (n: usize)
    ensures
        n == frame_need(received@),
        n == 0 <==> decode_result(received@) != Err::<CommandModel, FrameError>(
            FrameError::ShortRead,
        ),
{
    if received.len() < 1 {
        return 1;
    }
    if received[0] != START_BYTE {
        return 0;
    }
    if received.len() < 4 {
        return 4 - received.len();
    }
    let declared = read_u16_le(slice_subrange(received, 2, 4)) as usize;
    if received.len() < declared + 7 {
        declared + 7 - received.len()
    } else {
        0
    }
}

/// Appends `src` to `out`.
fn append_bytes(out: &mut Vec<u8>, src: &[u8])
    ensures
        final(out)@ == old(out)@ + src@,
{
    let mut i: usize = 0;
    while i < src.len()
        invariant
            i <= src.len(),
            out@ == old(out)@ + src@.subrange(0, i as int),
        decreases src.len() - i,
    {
        out.push(src[i]);
        i += 1;
        assert(out@ =~= old(out)@ + src@.subrange(0, i as int));
    }
    assert(src@.subrange(0, i as int) =~= src@);
}

impl BootloaderCommand {
    /// The payload length fits the 16-bit length field.
    pub open spec fn wf(&self) -> bool {
        self.data@.len() <= 65535
    }

    /// Appends the frame of this command to `writer`.
    pub fn write(&self, writer: &mut Vec<u8>)
        requires
            self.wf(),
        ensures
            final(writer)@ == old(writer)@ + frame_bytes(self@),
    {
        let frame = self.marshal();
        append_bytes(writer, frame.as_slice());
    }

    /// The frame of this command: start marker, opcode, payload length,
    /// payload, checksum over all of these, end marker.
    pub fn marshal(&self) -> (frame: Vec<u8>)
        requires
            self.wf(),
        ensures
            frame@ == frame_bytes(self@),
            frame@.len() == self.data@.len() + 7,
    {
        let mut frame: Vec<u8> = Vec::new();
        frame.push(START_BYTE);
        frame.push(self.command_code.to_u8());
        let len_field = write_u16_le(self.data.len() as u16);
        frame.push(len_field[0]);
        frame.push(len_field[1]);
        assert(frame@ =~= frame_header(self@));
        append_bytes(&mut frame, self.data.as_slice());
        let sum = checksum(frame.as_slice());
        let sum_field = write_u16_le(sum);
        frame.push(sum_field[0]);
        frame.push(sum_field[1]);
        frame.push(END_BYTE);
        assert(frame@ =~= frame_bytes(self@));
        frame
    }

    /// Decodes one frame from the front of what `reader` has left, and
    /// moves the reader past what was read. The checksum is verified.
    pub fn unmarshal(reader: &mut ByteReader) -> (r: Result<BootloaderCommand, FrameError>)
        requires
            old(reader).wf(),
        ensures
            final(reader).wf(),
            final(reader).bytes@ == old(reader).bytes@,
            final(reader).pos == old(reader).pos + decode_consumed(old(reader).remaining()),
            final(reader).remaining() == old(reader).remaining().skip(
                decode_consumed(old(reader).remaining()),
            ),
            match r {
                Ok(c) => decode_result(old(reader).remaining()) == Ok::<CommandModel, FrameError>(c@),
                Err(e) => decode_result(old(reader).remaining()) == Err::<CommandModel, FrameError>(e),
            },
    {
        let ghost s = reader.remaining();
        let pos = reader.pos;
        let left = reader.bytes.len() - pos;
        proof {
            assert(forall|k: int| 0 <= k < s.len() ==> s[k] == reader.bytes@[pos + k]);
        }
        if left < 1 {
            assert(s.skip(0) =~= s);
            return Err(FrameError::ShortRead);
        }
        let start = reader.bytes[pos];
        if start != START_BYTE {
            reader.pos = pos + 1;
            assert(reader.remaining() =~= s.skip(1));
            return Err(FrameError::BadStart(start));
        }
        if left < 4 {
            reader.pos = pos + left;
            assert(reader.remaining() =~= s.skip(s.len() as int));
            return Err(FrameError::ShortRead);
        }
        let code = reader.bytes[pos + 1];
        let len_field = slice_subrange(reader.bytes.as_slice(), pos + 2, pos + 4);
        let n = read_u16_le(len_field) as usize;
        assert(n == declared_len(s));
        if left < n + 7 {
            reader.pos = pos + left;
            assert(reader.remaining() =~= s.skip(s.len() as int));
            return Err(FrameError::ShortRead);
        }
        let body = slice_subrange(reader.bytes.as_slice(), pos, pos + n + 4);
        assert(body@ =~= s.subrange(0, n + 4));
        let expected = checksum(body);
        let sum_field = slice_subrange(reader.bytes.as_slice(), pos + n + 4, pos + n + 6);
        let found = read_u16_le(sum_field);
        assert(found as int == u16_of(s[n + 4], s[n + 5]));
        let end = reader.bytes[pos + n + 6];
        let mut data: Vec<u8> = Vec::new();
        append_bytes(&mut data, slice_subrange(reader.bytes.as_slice(), pos + 4, pos + n + 4));
        assert(data@ =~= s.subrange(4, n + 4));
        reader.pos = pos + n + 7;
        assert(reader.remaining() =~= s.skip(n + 7));
        if end != END_BYTE {
            return Err(FrameError::BadEnd(end));
        }
        if found != expected {
            return Err(FrameError::ChecksumMismatch { expected, found });
        }
        Ok(BootloaderCommand { command_code: CommandCode::from_u8(code), data })
    }

    /// Tries up to `attempts` times to decode a frame, each attempt
    /// starting where the one before stopped, and returns the first frame
    /// that decodes. Where none does, the error carries the number of
    /// attempts.
    pub fn read(reader: &mut ByteReader, attempts: u8) -> (r: Result<BootloaderCommand, FrameError>)
        requires
            old(reader).wf(),
        ensures
            final(reader).wf(),
            final(reader).bytes@ == old(reader).bytes@,
            final(reader).remaining() == read_rest(old(reader).remaining(), attempts as nat),
            match r {
                Ok(c) => read_frame(old(reader).remaining(), attempts as nat) == Some(c@),
                Err(e) => e == (FrameError::NoFrame { attempts }) && read_frame(
                    old(reader).remaining(),
                    attempts as nat,
                ) is None,
            },
    {
        let mut i: u8 = 0;
        while i < attempts
            invariant
                i <= attempts,
                reader.wf(),
                reader.bytes@ == old(reader).bytes@,
                read_rest(old(reader).remaining(), attempts as nat) == read_rest(
                    reader.remaining(),
                    (attempts - i) as nat,
                ),
                read_frame(old(reader).remaining(), attempts as nat) == read_frame(
                    reader.remaining(),
                    (attempts - i) as nat,
                ),
            decreases attempts - i,
        {
            let attempt = BootloaderCommand::unmarshal(reader);
            match attempt {
                Ok(c) => {
                    return Ok(c);
                },
                Err(_) => {},
            }
            i += 1;
        }
        Err(FrameError::NoFrame { attempts })
    }
}

/// Encoding a valid command and decoding the frame gives the command
/// back, and decoding takes exactly the frame from the stream, whatever
/// follows it.
pub proof fn lemma_decode_encode(m: CommandModel, rest: Seq<u8>)
    requires
        valid_command(m),
    ensures
        decode_result(frame_bytes(m) + rest) == Ok::<CommandModel, FrameError>(m),
        decode_consumed(frame_bytes(m) + rest) == frame_bytes(m).len(),
        frame_bytes(m).len() == m.payload.len() + 7,
{
    let s = frame_bytes(m) + rest;
    let n = m.payload.len() as int;
    assert(s[2] == (n % 256) as u8);
    assert(s[3] == (n / 256) as u8);
    assert(declared_len(s) == n);
    assert(s.subrange(0, n + 4) =~= frame_body(m));
    assert(s.subrange(4, n + 4) =~= m.payload);
    let c = checksum_of(frame_body(m));
    assert(s[n + 4] == (c % 256) as u8);
    assert(s[n + 5] == (c / 256) as u8);
    assert(s[n + 6] == END_BYTE);
}

/// A buffer whose first byte is not the start marker is refused as badly
/// framed, whatever else it holds.
pub proof fn lemma_bad_start_refused(s: Seq<u8>)
    requires
        s.len() >= 1,
        s[0] != START_BYTE,
    ensures
        decode_result(s) == Err::<CommandModel, FrameError>(FrameError::BadStart(s[0])),
{
}

/// The frame of a valid command with its last byte replaced by anything
/// but the end marker is refused as badly framed.
pub proof fn lemma_bad_end_refused(m: CommandModel, last: u8)
    requires
        valid_command(m),
        last != END_BYTE,
    ensures
        decode_result(frame_bytes(m).drop_last().push(last)) == Err::<CommandModel, FrameError>(
            FrameError::BadEnd(last),
        ),
{
    let s = frame_bytes(m).drop_last().push(last);
    let n = m.payload.len() as int;
    assert(s[2] == (n % 256) as u8);
    assert(s[3] == (n / 256) as u8);
    assert(declared_len(s) == n);
    assert(s[n + 6] == last);
}

} // verus!
