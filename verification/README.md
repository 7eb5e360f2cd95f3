# `batch_queue`

A multi-producer single-consumer queue which receives items in batches, for uses where the speed of
the receiver matters more than the latency of any one item or sender. Its rules are proved with
Verus.

## How it works

The queue has two blocks of slots, one that senders fill and one that the receiver empties. A block
keeps two watermarks: how many of its slots have been claimed by a sender, and how many have been
filled and published. A sender claims the next slot, fills it, and publishes it once all the slots
before it are published. When the receiver has emptied its block, it swaps blocks with the senders
and wakes those that were waiting for room.

The senders' block is behind a lock, which a thread holds for one whole step of the queue. Senders
that find no room sleep on a word that mirrors the claimed-slot count.

## Layout

- `src/block.rs`: one block, and the steps that senders and the receiver take on it.
- `src/sends.rs`: what holds of a block while any number of senders are in the middle of a send.
- `src/protocol.rs`: the same of the whole queue, over the swaps of its blocks.
- `src/halves.rs`: the rules of the queue, on plain values: `SendHalf` and `RecvHalf`.
- `src/laws.rs`: what holds of the queue as a whole, such as first in, first out, exactly once.
- `src/shared.rs`, `src/sender.rs`, `src/receiver.rs`, `src/channel.rs`: the handles that threads
  hold.
- `src/wake.rs`: the calls that are believed rather than proved.
- `app/`: the handles with the destructors and iterators of everyday Rust, and a `blocking_send`
  that waits without bound. Without them a batch is ended with `Batch::finish`, the channel closed
  with `Receiver::deallocate_blocks`, and the number of attempts to send given to
  `Sender::blocking_send`.
