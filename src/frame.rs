//! A frame as it travels on the bus.

use vstd::prelude::*;

verus! {

/// Largest identifier of a standard (11-bit) frame.
pub const MAX_STANDARD_ID: u32 = 0x7FF;

/// Largest identifier of an extended (29-bit) frame.
pub const MAX_EXTENDED_ID: u32 = 0x1FFF_FFFF;

/// Largest payload of a frame, in bytes.
pub const MAX_PAYLOAD: usize = 8;

/// Why a frame cannot be built.
#[derive(Clone, Copy, Debug, PartialEq, Eq, Structural)]
pub enum FrameError {
    /// The identifier does not fit the identifier space of the frame.
    IdOutOfRange,
    /// The payload holds more than eight bytes.
    PayloadTooLong,
}

/// One message unit: an identifier, a flag telling extended identifiers from
/// standard ones, and up to eight payload bytes.
#[derive(Debug)]
pub struct Frame {
    pub id: u32,
    pub extended: bool,
    pub data: Vec<u8>,
}

/// What a frame holds, as plain values.
pub ghost struct FrameView {
    pub id: u32,
    pub extended: bool,
    pub data: Seq<u8>,
}

impl View for Frame {
    type V = FrameView;

    open spec fn view(&self) -> FrameView {
        FrameView { id: self.id, extended: self.extended, data: self.data@ }
    }
}

/// The identifier fits the space that `extended` selects.
pub open spec fn id_in_range(id: u32, extended: bool) -> bool {
    if extended {
        id <= MAX_EXTENDED_ID
    } else {
        id <= MAX_STANDARD_ID
    }
}

impl FrameView {
    pub open spec fn wf(self) -> bool {
        id_in_range(self.id, self.extended) && self.data.len() <= MAX_PAYLOAD
    }
}

/// A copy of a byte sequence.
pub fn copy_bytes(bytes: &[u8]) -> (r: Vec<u8>)
    ensures
        r@ == bytes@,
{
    let mut r: Vec<u8> = Vec::new();
    let mut i: usize = 0;
    while i < bytes.len()
        invariant
            i <= bytes@.len(),
            r@ == bytes@.subrange(0, i as int),
        decreases bytes@.len() - i,
    {
        r.push(bytes[i]);
        i = i + 1;
        assert(r@ =~= bytes@.subrange(0, i as int));
    }
    assert(r@ =~= bytes@);
    r
}

impl Frame {
    /// Builds a frame, refusing an identifier outside its space and a payload
    /// of more than eight bytes.
    pub fn new(id: u32, extended: bool, data: Vec<u8>) -> (r: Result<Frame, FrameError>)
        ensures
            !id_in_range(id, extended) ==> r == Err::<Frame, FrameError>(FrameError::IdOutOfRange),
            id_in_range(id, extended) && data@.len() > MAX_PAYLOAD ==> r == Err::<Frame, FrameError>(
                FrameError::PayloadTooLong,
            ),
            id_in_range(id, extended) && data@.len() <= MAX_PAYLOAD ==> (r matches Ok(f) && f@
                == (FrameView { id, extended, data: data@ })),
    {
        let limit = if extended {
            MAX_EXTENDED_ID
        } else {
            MAX_STANDARD_ID
        };
        if id > limit {
            Err(FrameError::IdOutOfRange)
        } else if data.len() > MAX_PAYLOAD {
            Err(FrameError::PayloadTooLong)
        } else {
            Ok(Frame { id, extended, data })
        }
    }

    /// A copy of this frame.
    pub fn duplicate(&self) -> (r: Frame)
        ensures
            r@ == self@,
    {
        Frame { id: self.id, extended: self.extended, data: copy_bytes(self.data.as_slice()) }
    }
}

} // verus!
