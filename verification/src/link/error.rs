//! Errors of the serial link.
use vstd::prelude::*;

verus! {

/// What can go wrong on the link: an error of the serial port itself, a message that
/// does not decode or encode, or a receive buffer that is full.
pub enum MyError<E> {
    IO(E),
    Deserialize,
    Serialize,
    BufferFull,
    Unkown,
}

/// What feeding one byte to a frame accumulator gave: the byte was taken, the
/// accumulator overflowed, the complete frame did not decode, or a message.
pub enum FeedOutcome<T> {
    Consumed,
    OverFull,
    DeserError,
    Success(T),
}

/// What a link hands back after feeding one received byte: no message yet, the
/// message that was completed, or the error that the accumulator met.
pub fn request_from_feed<T, E>(outcome: FeedOutcome<T>) -> (r: Result<Option<T>, MyError<E>>)
    ensures
        match outcome {
            FeedOutcome::Consumed => r matches Ok(None),
            FeedOutcome::OverFull => r matches Err(MyError::BufferFull),
            FeedOutcome::DeserError => r matches Err(MyError::Deserialize),
            FeedOutcome::Success(data) => r == Ok::<Option<T>, MyError<E>>(Some(data)),
        },
{
    match outcome {
        FeedOutcome::Consumed => Ok(None),
        FeedOutcome::OverFull => Err(MyError::BufferFull),
        FeedOutcome::DeserError => Err(MyError::Deserialize),
        FeedOutcome::Success(data) => Ok(Some(data)),
    }
}

} // verus!
