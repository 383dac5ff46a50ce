//! The arena-style pull protocol of a streaming method on the native
//! (shared-library) backend.
//!
//! The host passes a reusable buffer it owns; the guest writes one encoded
//! item into it per `next` call. `STATUS_OK` delivers an item,
//! `STATUS_STREAM_END` ends the stream, and `STATUS_BUFFER_TOO_SMALL` reports
//! the size needed: the guest keeps the item, the host grows its buffer and
//! asks again, so no item is lost.
use vstd::prelude::*;
use crate::status::{STATUS_BUFFER_TOO_SMALL, STATUS_OK};
use crate::stream_marker::Stream;

verus! {

/// The outcome of one producer-side `next` call, before it is mapped to a
/// status code.
#[derive(Debug, Clone, Copy, PartialEq, Eq, Structural)]
pub enum NextStatus {
    /// An item was written; its encoding is the first `n` bytes of the buffer.
    Item(usize),
    /// No more items.
    End,
    /// The buffer was too small; this many bytes are needed. The item is kept
    /// for the next call.
    TooSmall(usize),
    /// Encoding the item failed.
    SerErr,
}

/// What a producer does with its current item, given the item's encoded size
/// (`None` when sizing the encoding failed), the host buffer's capacity, and
/// whether writing the encoding into the buffer succeeded (consulted only
/// when it fits). The item is consumed exactly when the result is `Item`.
pub fn delivery_status(size: Option<usize>, buf_len: usize, written: bool) -> (r: NextStatus)
    ensures
        size is None ==> r == NextStatus::SerErr,
        size matches Some(n) ==> (n > buf_len ==> r == NextStatus::TooSmall(n)),
        size matches Some(n) ==> (n <= buf_len && !written ==> r == NextStatus::SerErr),
        size matches Some(n) ==> (n <= buf_len && written ==> r == NextStatus::Item(n)),
{
    match size {
        None => NextStatus::SerErr,
        Some(n) => {
            if n > buf_len {
                NextStatus::TooSmall(n)
            } else if !written {
                NextStatus::SerErr
            } else {
                NextStatus::Item(n)
            }
        },
    }
}

/// The producer side of a streaming method: the stream of items and the one
/// item awaiting delivery. A delivery attempt takes the item ([`fill`]), writes
/// its encoding into the host's buffer (done by the caller, which owns the
/// encoder), and reports the outcome ([`settle`]): the item leaves only when
/// it was delivered, so a too-small buffer or an encoding failure loses
/// nothing.
///
/// [`fill`]: StreamState::fill
/// [`settle`]: StreamState::settle
#[verifier::reject_recursive_types(T)]
pub struct StreamState<T> {
    stream: Stream<T>,
    pending: Option<T>,
    start: Ghost<nat>,
    delivered: Ghost<Seq<T>>,
}

/// The items of an optional one, as a sequence.
pub open spec fn opt_seq<T>(o: Option<T>) -> Seq<T> {
    match o {
        Some(x) => seq![x],
        None => Seq::empty(),
    }
}

impl<T> StreamState<T> {
    /// The item awaiting delivery, if any.
    pub closed spec fn pending_item(self) -> Option<T> {
        self.pending
    }

    /// Whether the wrapped stream is the bare marker form.
    pub closed spec fn is_marker(self) -> bool {
        self.stream.is_marker()
    }

    /// The items delivered so far, in order.
    pub closed spec fn delivered(self) -> Seq<T> {
        self.delivered@
    }

    /// The items taken from the stream since it was wrapped, in order.
    pub closed spec fn produced(self) -> Seq<T> {
        self.stream.yielded().skip(self.start@ as int)
    }

    /// Every item taken from the stream is either delivered, once and in
    /// order, or the one awaiting delivery.
    pub closed spec fn accounted(self) -> bool {
        &&& self.start@ <= self.stream.yielded().len()
        &&& self.produced() == self.delivered() + opt_seq(self.pending_item())
    }

    /// Wraps a producer stream; no item awaits delivery.
    pub fn new(stream: Stream<T>) -> (s: Self)
        ensures
            s.pending_item() is None,
            s.is_marker() == stream.is_marker(),
            s.delivered() == Seq::<T>::empty(),
            s.produced() == Seq::<T>::empty(),
            s.accounted(),
    {
        let ghost start = stream.yielded().len();
        let s = StreamState { stream, pending: None, start: Ghost(start), delivered: Ghost(Seq::empty()) };
        assert(s.produced() =~= Seq::<T>::empty());
        s
    }

    /// Makes an item await delivery: the one already waiting stays, otherwise
    /// the stream's next item is taken. `false` means the stream has ended
    /// and nothing waits.
    pub fn fill(&mut self) -> (r: bool)
        requires
            old(self).accounted(),
        ensures
            final(self).accounted(),
            r == (final(self).pending_item() is Some),
            old(self).pending_item() is Some ==> *final(self) == *old(self),
            old(self).pending_item() is Some ==> r,
            final(self).is_marker() == old(self).is_marker(),
            old(self).is_marker() ==> final(self).pending_item() == old(self).pending_item(),
            final(self).delivered() == old(self).delivered(),
            old(self).pending_item() is None ==> final(self).produced() == old(self).produced()
                + opt_seq(final(self).pending_item()),
    {
        if self.pending.is_none() {
            let ghost before = self.stream.yielded();
            self.pending = self.stream.next_item();
            assert(self.stream.yielded().skip(self.start@ as int) =~= before.skip(self.start@ as int)
                + opt_seq(self.pending));
        }
        self.pending.is_some()
    }

    /// The item awaiting delivery.
    pub fn pending(&self) -> (r: Option<&T>)
        ensures
            r matches Some(x) ==> self.pending_item() == Some(*x),
            r is None <==> self.pending_item() is None,
    {
        self.pending.as_ref()
    }

    /// Records the outcome of a delivery attempt: the waiting item is
    /// consumed exactly when it was delivered (`Item`), and kept otherwise.
    pub fn settle(&mut self, status: NextStatus)
        requires
            old(self).accounted(),
        ensures
            final(self).accounted(),
            status is Item ==> final(self).pending_item() is None,
            status is Item ==> final(self).delivered() == old(self).delivered() + opt_seq(
                old(self).pending_item(),
            ),
            !(status is Item) ==> *final(self) == *old(self),
            final(self).is_marker() == old(self).is_marker(),
            final(self).produced() == old(self).produced(),
    {
        if let NextStatus::Item(_) = status {
            proof {
                self.delivered = Ghost(self.delivered@ + opt_seq(self.pending));
            }
            self.pending = None;
            assert(self.delivered@ + opt_seq(self.pending) =~= self.delivered@);
        }
    }
}

/// A producer delivers the stream's items in the order the stream handed
/// them out, none twice and none skipped: what it delivered is a prefix of
/// what it took, and at most one item it took is still waiting.
pub proof fn lemma_delivery_in_order<T>(s: StreamState<T>)
    requires
        s.accounted(),
    ensures
        s.delivered().is_prefix_of(s.produced()),
        s.produced().len() <= s.delivered().len() + 1,
        s.pending_item() is None ==> s.delivered() == s.produced(),
{
    assert(s.produced() == s.delivered() + opt_seq(s.pending_item()));
    assert(s.delivered() =~= s.produced().subrange(0, s.delivered().len() as int));
    if s.pending_item() is None {
        assert(s.delivered() + opt_seq(s.pending_item()) =~= s.delivered());
    }
}

/// What the consumer does after one `next` call into the producer.
#[derive(Debug, Clone, Copy, PartialEq, Eq, Structural)]
pub enum PullStep {
    /// Decode the item held in the first `n` bytes of the buffer.
    Decode(usize),
    /// Grow the buffer to this capacity and call `next` again.
    Retry(usize),
    /// The stream is over (clean end, or an error the consumer cannot surface).
    Finish,
}

/// The consumer's reaction to `status`, with `out_len` as the producer
/// reported it and `cap` the buffer capacity it offered: an item is decoded,
/// a too-small buffer grows to the larger of the needed size and twice the
/// old capacity, and anything else ends the stream.
pub fn pull_step(status: i32, out_len: u32, cap: usize) -> (r: PullStep)
    requires
        cap * 2 <= usize::MAX,
    ensures
        status == STATUS_OK ==> r == PullStep::Decode(out_len as usize),
        status == STATUS_BUFFER_TOO_SMALL ==> r == PullStep::Retry(
            if out_len as int >= cap * 2 {
                out_len as usize
            } else {
                (cap * 2) as usize
            },
        ),
        status != STATUS_OK && status != STATUS_BUFFER_TOO_SMALL ==> r == PullStep::Finish,
{
    if status == STATUS_OK {
        PullStep::Decode(out_len as usize)
    } else if status == STATUS_BUFFER_TOO_SMALL {
        let doubled = cap * 2;
        let needed = out_len as usize;
        if needed >= doubled {
            PullStep::Retry(needed)
        } else {
            PullStep::Retry(doubled)
        }
    } else {
        PullStep::Finish
    }
}

/// A consumer that retries never shrinks its buffer, and a retry always
/// offers at least what the producer asked for.
pub proof fn lemma_retry_grows_to_fit(status: i32, out_len: u32, cap: usize, r: PullStep)
    requires
        cap * 2 <= usize::MAX,
        status == STATUS_BUFFER_TOO_SMALL,
        r == PullStep::Retry(
            if out_len as int >= cap * 2 {
                out_len as usize
            } else {
                (cap * 2) as usize
            },
        ),
    ensures
        r matches PullStep::Retry(c) && c >= cap && c >= out_len,
{
}

} // verus!
