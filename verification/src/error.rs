//! What a refused send hands back.

use vstd::prelude::*;

verus! {

/// The channel is closed; `value` is the value that was not sent.
#[non_exhaustive]
#[derive(Debug)]
pub struct SendError<T> {
    pub value: T,
}

/// The value could not be sent at once; `value` is that value and `ty` says why.
#[non_exhaustive]
#[derive(Debug)]
pub struct TrySendError<T> {
    pub value: T,
    pub ty: TrySendErrorType,
}

/// Why a send was refused.
#[non_exhaustive]
#[derive(Debug)]
pub enum TrySendErrorType {
    /// Every slot of the sending block is taken.
    Full,
    /// The receiver is gone.
    Closed,
}

impl<T> TrySendError<T> {
    /// What a sender that is ready to wait does about the refusal: it tries the same value again
    /// (`Ok`) if there was no room, and gives up (`Err`) if the receiver is gone.
    pub fn retry(self) -> (again: Result<T, SendError<T>>)
        ensures
            self.ty is Full ==> again == Ok::<T, SendError<T>>(self.value),
            self.ty is Closed ==> again == Err::<T, _>(SendError { value: self.value }),
    {
        match self.ty {
            TrySendErrorType::Full => Ok(self.value),
            TrySendErrorType::Closed => Err(SendError { value: self.value }),
        }
    }
}

} // verus!
