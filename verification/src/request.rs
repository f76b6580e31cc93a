//! Render requests: the bounds on the bitmap's size and on the input.

use crate::error::RenderError;
use vstd::prelude::*;

verus! {

/// The largest width and the largest height of a bitmap.
pub const MAX_DIMENSION: u32 = 4096;

/// The most input bytes that are accepted: 101 MiB.
pub const MAX_INPUT_BYTES: u64 = 105906176;

/// Whether a bitmap of this size can be asked for.
pub open spec fn valid_dimensions(width: u32, height: u32) -> bool {
    1 <= width <= MAX_DIMENSION && 1 <= height <= MAX_DIMENSION
}

/// Checks the size of the bitmap that is asked for.
pub fn validate_dimensions(width: u32, height: u32) -> (r: Result<(), RenderError>)
    ensures
        valid_dimensions(width, height) ==> r == Ok::<(), RenderError>(()),
        !valid_dimensions(width, height) ==> r == Err::<(), RenderError>(
            RenderError::InvalidArgument,
        ),
{
    if width == 0 || height == 0 || width > MAX_DIMENSION || height > MAX_DIMENSION {
        Err(RenderError::InvalidArgument)
    } else {
        Ok(())
    }
}

/// Checks the size that the byte source reports for the input.
pub fn check_reported_size(size: u64) -> (r: Result<(), RenderError>)
    ensures
        size <= MAX_INPUT_BYTES ==> r == Ok::<(), RenderError>(()),
        size > MAX_INPUT_BYTES ==> r == Err::<(), RenderError>(RenderError::OversizeInput),
{
    if size > MAX_INPUT_BYTES {
        Err(RenderError::OversizeInput)
    } else {
        Ok(())
    }
}

/// The input bytes as they are read from the byte source, chunk by chunk.
/// The size that the source reports is not trusted: the cap is held while
/// the bytes come in.
pub struct InputBuffer {
    bytes: Vec<u8>,
}

impl View for InputBuffer {
    type V = Seq<u8>;

    closed spec fn view(&self) -> Seq<u8> {
        self.bytes@
    }
}

impl InputBuffer {
    /// The buffer holds no more bytes than the cap allows.
    pub open spec fn wf(&self) -> bool {
        self@.len() <= MAX_INPUT_BYTES
    }

    /// The empty buffer.
    pub fn new() -> (b: InputBuffer)
        ensures
            b.wf(),
            b@ == Seq::<u8>::empty(),
    {
        InputBuffer { bytes: Vec::new() }
    }

    /// The number of bytes read so far.
    pub fn len(&self) -> (n: usize)
        ensures
            n == self@.len(),
    {
        self.bytes.len()
    }

    /// Takes in the next chunk. A chunk that would bring the input over the
    /// cap is refused and the buffer is left as it was.
    pub fn append_chunk(&mut self, chunk: &[u8]) -> (r: Result<(), RenderError>)
        requires
            old(self).wf(),
        ensures
            final(self).wf(),
            old(self)@.len() + chunk@.len() <= MAX_INPUT_BYTES ==> r == Ok::<(), RenderError>(())
                && final(self)@ == old(self)@ + chunk@,
            old(self)@.len() + chunk@.len() > MAX_INPUT_BYTES ==> r == Err::<(), RenderError>(
                RenderError::OversizeInput,
            ) && final(self)@ == old(self)@,
    {
        if chunk.len() as u64 > MAX_INPUT_BYTES || self.bytes.len() as u64 > MAX_INPUT_BYTES
            - chunk.len() as u64 {
            return Err(RenderError::OversizeInput);
        }
        let mut i: usize = 0;
        while i < chunk.len()
            invariant
                i <= chunk.len(),
                self.bytes@ == old(self).bytes@ + chunk@.take(i as int),
            decreases chunk.len() - i,
        {
            self.bytes.push(chunk[i]);
            i += 1;
        }
        assert(chunk@.take(chunk.len() as int) == chunk@);
        Ok(())
    }

    /// The bytes that were read.
    pub fn into_bytes(self) -> (bytes: Vec<u8>)
        ensures
            bytes@ == self@,
    {
        self.bytes
    }
}

/// What is asked of one render: the input and the size of the bitmap.
pub struct RenderRequest {
    pub bytes: Vec<u8>,
    pub width: u32,
    pub height: u32,
}

impl RenderRequest {
    /// The request can be rendered: its size is in range and its input is
    /// under the cap.
    pub open spec fn wf(&self) -> bool {
        valid_dimensions(self.width, self.height) && self.bytes@.len() <= MAX_INPUT_BYTES
    }

    /// Makes a request, or tells why it cannot be rendered. The size is
    /// looked at first.
    pub fn new(bytes: Vec<u8>, width: u32, height: u32) -> (r: Result<RenderRequest, RenderError>)
        ensures
            !valid_dimensions(width, height) ==> r == Err::<RenderRequest, RenderError>(
                RenderError::InvalidArgument,
            ),
            valid_dimensions(width, height) && bytes@.len() > MAX_INPUT_BYTES ==> r == Err::<
                RenderRequest,
                RenderError,
            >(RenderError::OversizeInput),
            valid_dimensions(width, height) && bytes@.len() <= MAX_INPUT_BYTES ==> r == Ok::<
                RenderRequest,
                RenderError,
            >(RenderRequest { bytes, width, height }),
    {
        match validate_dimensions(width, height) {
            Err(e) => {
                return Err(e);
            },
            Ok(_) => {},
        }
        if bytes.len() as u64 > MAX_INPUT_BYTES {
            return Err(RenderError::OversizeInput);
        }
        Ok(RenderRequest { bytes, width, height })
    }
}

} // verus!
