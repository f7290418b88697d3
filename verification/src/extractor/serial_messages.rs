//! Reading a response from the sensor, byte by byte: the decisions of the read loop.
use vstd::prelude::*;
use crate::common_data::response::{Response, MAX_RESPONSE_SIZE};

verus! {

/// Why reading a response failed.
#[derive(Debug, PartialEq, Eq, Structural, Clone, Copy)]
pub enum ReadError {
    /// A complete frame did not decode to a response.
    Decoding,
    /// No complete frame came within the longest response's size.
    NoResponse,
}

/// What the read loop does after feeding one more byte to the receive buffer.
#[derive(Debug, PartialEq, Eq, Structural, Clone, Copy)]
pub enum ReadStep {
    /// Read another byte.
    Continue,
    /// The response has arrived.
    Done(Response),
    /// Stop with an error.
    Failed(ReadError),
}

/// The decision of the read loop once `received` bytes were fed and the last one gave
/// `fed`: a decoded response ends the loop with it, a decoding error ends it with that
/// error, and when the longest response's size was read without a response the loop
/// ends with no response; otherwise it reads on.
pub open spec fn spec_read_response_step(received: usize, fed: Result<Option<Response>, ()>) -> ReadStep {
    match fed {
        Err(_) => ReadStep::Failed(ReadError::Decoding),
        Ok(Some(m)) => ReadStep::Done(m),
        Ok(None) => if received >= MAX_RESPONSE_SIZE {
            ReadStep::Failed(ReadError::NoResponse)
        } else {
            ReadStep::Continue
        },
    }
}

/// Decides what the read loop does after feeding its `received`-th byte, which gave
/// `fed`.
pub fn read_response_step(received: usize, fed: Result<Option<Response>, ()>) -> (r: ReadStep)
    ensures
        r == spec_read_response_step(received, fed),
{
    match fed {
        Err(_) => ReadStep::Failed(ReadError::Decoding),
        Ok(Some(m)) => ReadStep::Done(m),
        Ok(None) => {
            if received >= MAX_RESPONSE_SIZE {
                ReadStep::Failed(ReadError::NoResponse)
            } else {
                ReadStep::Continue
            }
        },
    }
}

/// The read loop stops after at most the longest response's size of bytes: at that
/// count every outcome ends it.
pub proof fn lemma_read_loop_bounded(fed: Result<Option<Response>, ()>)
    ensures
        spec_read_response_step(MAX_RESPONSE_SIZE, fed) != ReadStep::Continue,
{
}

} // verus!
