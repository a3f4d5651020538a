//! Frames: a payload behind its length, in four bytes.

use vstd::prelude::*;

use crate::protocol::decode;
use crate::protocol::decode::Step;
use crate::protocol::wire::{self, WireError};

verus! {

/// The most bytes that a frame may hold.
pub const MAX_FRAME: usize = 16777216;

/// The bytes of a frame that holds a payload.
pub open spec fn frame_bytes(payload: Seq<u8>) -> Seq<u8> {
    wire::le32(payload.len() as int) + payload
}

/// The payload of the frame at a position, and the position behind the frame.
pub open spec fn frame_at(bytes: Seq<u8>, at: int) -> Step<Seq<u8>> {
    if at + 4 > bytes.len() {
        Err(WireError::UnexpectedEnd)
    } else {
        match length_of(decode::number32(bytes, at)) {
            Ok(length) => if at + 4 + length > bytes.len() {
                Err(WireError::UnexpectedEnd)
            } else {
                Ok((bytes.subrange(at + 4, at + 4 + length), at + 4 + length))
            },
            Err(error) => Err(error),
        }
    }
}

/// The length that a frame header announces: an empty frame and one that is too
/// large are refused.
pub open spec fn length_of(announced: int) -> Result<int, WireError> {
    if announced == 0 || announced > MAX_FRAME {
        Err(WireError::InvalidFrameLength)
    } else {
        Ok(announced)
    }
}

/// Where a stream stands when no frame could be read from it: behind the header
/// where the announced length is refused, else at the end.
pub open spec fn position_after_error(stream: Input, error: WireError) -> int {
    if error == WireError::InvalidFrameLength {
        stream.position + 4
    } else {
        stream.bytes@.len() as int
    }
}

/// Bytes to read frames from.
pub struct Input {
    pub bytes: Vec<u8>,
    pub position: usize,
}

impl Input {
    pub open spec fn well_formed(self) -> bool {
        self.position <= self.bytes@.len()
    }

    pub fn new(bytes: Vec<u8>) -> (input: Self)
        ensures
            input.bytes@ == bytes@,
            input.position == 0,
            input.well_formed(),
    {
        Input { bytes, position: 0 }
    }
}

/// The length that the four bytes of a frame header announce.
pub fn frame_length(header: [u8; 4]) -> (result: Result<usize, WireError>)
    ensures
        match length_of(decode::number32(header@, 0)) {
            Ok(length) => result matches Ok(value) && value == length,
            Err(error) => result == Err::<usize, WireError>(error),
        },
{
    let first: u32 = header[0] as u32;
    let second: u32 = header[1] as u32;
    let third: u32 = header[2] as u32;
    let fourth: u32 = header[3] as u32;
    let length: usize = (first + 256 * second + 65536 * third + 16777216 * fourth) as usize;
    if length == 0 || length > MAX_FRAME {
        Err(WireError::InvalidFrameLength)
    } else {
        Ok(length)
    }
}

/// Appends a frame to a stream. A payload that is too large is refused, and
/// nothing is written.
pub fn write_frame(stream: &mut Vec<u8>, payload: &[u8]) -> (result: Result<(), WireError>)
    ensures
        payload@.len() > MAX_FRAME ==> {
            &&& result == Err::<(), WireError>(WireError::FrameTooLarge)
            &&& final(stream)@ == old(stream)@
        },
        payload@.len() <= MAX_FRAME ==> {
            &&& result == Ok::<(), WireError>(())
            &&& final(stream)@ == old(stream)@ + frame_bytes(payload@)
        },
{
    if payload.len() > MAX_FRAME {
        return Err(WireError::FrameTooLarge);
    }
    wire::put_bytes(stream, payload);
    proof {
        reveal(wire::field_bytes);
    }
    Ok(())
}

/// Reads the next frame.
pub fn read_frame(stream: &mut Input) -> (result: Result<Vec<u8>, WireError>)
    requires
        old(stream).well_formed(),
    ensures
        final(stream).well_formed(),
        final(stream).bytes@ == old(stream).bytes@,
        match frame_at(old(stream).bytes@, old(stream).position as int) {
            Ok((value, next)) => {
                &&& result matches Ok(payload)
                &&& payload@ == value
                &&& final(stream).position == next
            },
            Err(error) => {
                &&& result == Err::<Vec<u8>, WireError>(error)
                &&& final(stream).position == position_after_error(*old(stream), error)
            },
        },
{
    if stream.bytes.len() - stream.position < 4 {
        stream.position = stream.bytes.len();
        return Err(WireError::UnexpectedEnd);
    }
    let at: usize = stream.position;
    let header: [u8; 4] = [
        stream.bytes[at],
        stream.bytes[at + 1],
        stream.bytes[at + 2],
        stream.bytes[at + 3],
    ];
    stream.position = at + 4;
    let length: usize = match frame_length(header) {
        Ok(length) => length,
        Err(error) => return Err(error),
    };
    if stream.bytes.len() - stream.position < length {
        stream.position = stream.bytes.len();
        return Err(WireError::UnexpectedEnd);
    }
    let start: usize = stream.position;
    let end: usize = start + length;
    let mut payload: Vec<u8> = Vec::new();
    let mut index: usize = start;
    while index < end
        invariant
            start <= index <= end <= stream.bytes@.len(),
            payload@ =~= stream.bytes@.subrange(start as int, index as int),
        decreases end - index,
    {
        payload.push(stream.bytes[index]);
        index += 1;
    }
    stream.position = end;
    Ok(payload)
}

} // verus!
