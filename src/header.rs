//! Locating the second frame of an XTC file and taking the bytes that one file
//! contributes to a joined trajectory.
use vstd::prelude::*;

verus! {

/// Byte position of the big-endian size field of the first frame.
pub const SIZE_FIELD_POS: usize = 88;

/// Bytes of header and metadata that precede the first frame's payload.
pub const FRAME_PREFIX: u64 = 92;

/// What can go wrong while joining trajectories.
#[derive(Debug, Clone, Copy, PartialEq, Eq, Structural)]
pub enum XtcError {
    /// The output could not be created or opened for writing.
    OutputOpen,
    /// An input could not be opened or read.
    InputOpen,
    /// An input is too short to hold the size field of its first frame.
    HeaderRead,
    /// The size field gives a negative size, or a second frame that would
    /// start past the end of the input.
    MalformedOffset,
    /// Writing to the output failed.
    Write,
}

/// The unsigned big-endian value of the four bytes of `b` from `pos`.
pub open spec fn be_u32(b: Seq<u8>, pos: int) -> int {
    b[pos] * 0x100_0000 + b[pos + 1] * 0x1_0000 + b[pos + 2] * 0x100 + b[pos + 3]
}

/// The signed (two's complement) big-endian value of the four bytes of `b`
/// from `pos`, as XDR encodes an `int`.
pub open spec fn xdr_int(b: Seq<u8>, pos: int) -> int {
    let u = be_u32(b, pos);
    if u >= 0x8000_0000 {
        u - 0x1_0000_0000
    } else {
        u
    }
}

/// `x` rounded up to the next multiple of four.
pub open spec fn round_up4(x: int) -> int {
    if x % 4 == 0 {
        x
    } else {
        x + 4 - x % 4
    }
}

/// Where the second frame of `data` starts, or why that cannot be told.
pub open spec fn start_offset(data: Seq<u8>) -> Result<int, XtcError> {
    if data.len() < FRAME_PREFIX {
        Err(XtcError::HeaderRead)
    } else {
        let size = xdr_int(data, SIZE_FIELD_POS as int);
        let offset = round_up4(size + FRAME_PREFIX);
        if size < 0 || offset > data.len() {
            Err(XtcError::MalformedOffset)
        } else {
            Ok(offset)
        }
    }
}

/// The bytes that `data` adds to a joined trajectory: all of it, or, when the
/// first frame is to be skipped, everything from the second frame on.
pub open spec fn contribution(data: Seq<u8>, skip_first_frame: bool) -> Result<Seq<u8>, XtcError> {
    if !skip_first_frame {
        Ok(data)
    } else {
        match start_offset(data) {
            Ok(offset) => Ok(data.subrange(offset, data.len() as int)),
            Err(e) => Err(e),
        }
    }
}

/// Reads the XDR (big-endian, two's complement) 32-bit integer at `pos`.
pub fn read_xdr_int(data: &[u8], pos: usize) -> (r: i32)
    requires
        pos + 4 <= data@.len(),
    ensures
        r as int == xdr_int(data@, pos as int),
{
    let u: u32 = (data[pos] as u32) * 0x100_0000 + (data[pos + 1] as u32) * 0x1_0000
        + (data[pos + 2] as u32) * 0x100 + (data[pos + 3] as u32);
    if u >= 0x8000_0000 {
        (u as i64 - 0x1_0000_0000i64) as i32
    } else {
        u as i32
    }
}

/// Finds where the second frame of `data` starts: the size field at byte 88
/// plus the 92-byte prefix, rounded up to a multiple of four.
pub fn resolve_start_offset(data: &[u8]) -> (r: Result<u64, XtcError>)
    ensures
        match r {
            Ok(offset) => start_offset(data@) == Ok::<int, XtcError>(offset as int),
            Err(e) => start_offset(data@) == Err::<int, XtcError>(e),
        },
        r is Ok ==> r->Ok_0 % 4 == 0 && r->Ok_0 <= data@.len(),
{
    if data.len() < FRAME_PREFIX as usize {
        return Err(XtcError::HeaderRead);
    }
    let size = read_xdr_int(data, SIZE_FIELD_POS);
    if size < 0 {
        return Err(XtcError::MalformedOffset);
    }
    let mut offset: u64 = size as u64 + FRAME_PREFIX;
    if offset % 4 != 0 {
        offset = offset + (4 - offset % 4);
    }
    if offset > data.len() as u64 {
        return Err(XtcError::MalformedOffset);
    }
    Ok(offset)
}

/// Appends to `output` the bytes that `input` contributes: the whole input, or,
/// with `remove_first_frame`, the input from its second frame on. On failure
/// `output` is left as it was.
pub fn add_xtc(input: &[u8], output: &mut Vec<u8>, remove_first_frame: bool) -> (r: Result<
    (),
    XtcError,
>)
    ensures
        match contribution(input@, remove_first_frame) {
            Ok(c) => r is Ok && final(output)@ == old(output)@ + c,
            Err(e) => r == Err::<(), XtcError>(e) && final(output)@ == old(output)@,
        },
{
    let mut start: usize = 0;
    if remove_first_frame {
        match resolve_start_offset(input) {
            Ok(offset) => {
                start = offset as usize;
            },
            Err(e) => {
                return Err(e);
            },
        }
    }
    let ghost before = output@;
    let mut i: usize = start;
    while i < input.len()
        invariant
            start <= i <= input@.len(),
            output@ == before + input@.subrange(start as int, i as int),
        decreases input@.len() - i,
    {
        output.push(input[i]);
        i = i + 1;
        assert(input@.subrange(start as int, i as int) =~= input@.subrange(start as int, i - 1).push(input@[i - 1]));
    }
    assert(input@.subrange(0, input@.len() as int) =~= input@);
    Ok(())
}

} // verus!
