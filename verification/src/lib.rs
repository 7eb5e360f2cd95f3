//! A multi-producer single-consumer queue that is received in batches.
//!
//! It is for receivers that come by in bursts and have to be fast, and can do without the very
//! latest values. [`channel`] makes a queue; a [`Sender`] puts values into it, and a [`Receiver`]
//! takes them out a [`Batch`] at a time. A batch is ended with [`Batch::finish`], and a receiver
//! that goes away closes the channel with [`Receiver::deallocate_blocks`].

pub mod block;
pub mod channel;
pub mod error;
pub mod guarded;
pub mod halves;
pub mod laws;
pub mod protocol;
pub mod receiver;
pub mod records;
pub mod sender;
pub mod sends;
pub mod shared;
pub mod wake;

pub use crate::channel::channel;
pub use crate::error::{SendError, TrySendError, TrySendErrorType};
pub use crate::receiver::{rx_all, Batch, Receiver};
pub use crate::sender::Sender;
