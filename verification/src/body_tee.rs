//! The replay capture behind the egress response hook.
//!
//! An outgoing request body streams to the wire once; to send it a second
//! time on a retry, its bytes are copied aside as they pass, up to
//! [`REPLAY_CAP`]. Whether a retry may replay the body is decided at response
//! time from the capture's state.
use vstd::prelude::*;

verus! {

/// Cap on the bytes a capture keeps for replay (64 KiB). A longer body is
/// still sent, but cannot be replayed.
pub const REPLAY_CAP: usize = 64 * 1024;

/// Where a capture stands.
#[derive(Debug, Clone, Copy, PartialEq, Eq, Structural)]
pub enum CaptureState {
    /// The end of the body has not been (cleanly) seen yet. Not replayable.
    Incomplete,
    /// The whole body was seen and fit under the cap. Replayable.
    Complete,
    /// The body outgrew the cap; the capture was abandoned. Not replayable.
    Overflowed,
    /// The body carried trailers, which a replay would not reproduce. Not
    /// replayable.
    Trailers,
}

/// One thing a body yields, as the capture sees it.
#[derive(Debug, Clone, PartialEq, Eq)]
pub enum BodyEvent {
    /// A data frame with these bytes.
    Data(Vec<u8>),
    /// A trailers frame.
    Trailers,
    /// A clean end of the body.
    End,
}

/// A body event without its allocation.
pub enum BodyEventView {
    Data(Seq<u8>),
    Trailers,
    End,
}

/// The capture state after one more event.
pub open spec fn capture_step(
    state: CaptureState,
    bytes: Seq<u8>,
    e: BodyEventView,
) -> (CaptureState, Seq<u8>) {
    if state != CaptureState::Incomplete {
        (state, bytes)
    } else {
        match e {
            BodyEventView::Data(d) => {
                if bytes.len() + d.len() > REPLAY_CAP {
                    (CaptureState::Overflowed, Seq::empty())
                } else {
                    (CaptureState::Incomplete, bytes + d)
                }
            },
            BodyEventView::Trailers => (CaptureState::Trailers, Seq::empty()),
            BodyEventView::End => (CaptureState::Complete, bytes),
        }
    }
}

/// The capture state after a whole run of events, from a fresh capture.
pub open spec fn capture_run(events: Seq<BodyEventView>) -> (CaptureState, Seq<u8>)
    decreases events.len(),
{
    if events.len() == 0 {
        (CaptureState::Incomplete, Seq::empty())
    } else {
        let (s, b) = capture_run(events.drop_last());
        capture_step(s, b, events.last())
    }
}

/// The bytes a capture holds for replay, and its state.
pub struct Capture {
    buf: Vec<u8>,
    state: CaptureState,
}

impl Capture {
    /// The captured bytes.
    pub closed spec fn bytes(self) -> Seq<u8> {
        self.buf@
    }

    /// The capture's state.
    pub closed spec fn state_spec(self) -> CaptureState {
        self.state
    }

    /// Well-formedness: the kept bytes fit under the cap, and an abandoned
    /// capture keeps none.
    pub closed spec fn wf(self) -> bool {
        &&& self.buf@.len() <= REPLAY_CAP
        &&& (self.state == CaptureState::Overflowed || self.state == CaptureState::Trailers)
            ==> self.buf@.len() == 0
    }

    /// A fresh capture: nothing seen yet.
    pub fn new() -> (c: Capture)
        ensures
            c.wf(),
            c.state_spec() == CaptureState::Incomplete,
            c.bytes() == Seq::<u8>::empty(),
    {
        Capture { buf: Vec::new(), state: CaptureState::Incomplete }
    }

    /// The capture's current state.
    pub fn state(&self) -> (s: CaptureState)
        ensures
            s == self.state_spec(),
    {
        self.state
    }

    /// Records a data frame. Once the capture is dead (overflowed, or
    /// trailers seen) nothing more is copied.
    pub fn record_data(&mut self, data: &[u8])
        requires
            old(self).wf(),
        ensures
            final(self).wf(),
            (final(self).state_spec(), final(self).bytes()) == capture_step(
                old(self).state_spec(),
                old(self).bytes(),
                BodyEventView::Data(data@),
            ),
    {
        if self.state == CaptureState::Incomplete {
            if data.len() > REPLAY_CAP - self.buf.len() {
                self.state = CaptureState::Overflowed;
                self.buf = Vec::new();
            } else {
                let mut i: usize = 0;
                let ghost start = self.buf@;
                while i < data.len()
                    invariant
                        i <= data@.len(),
                        start.len() + data@.len() <= REPLAY_CAP,
                        self.buf@ == start + data@.take(i as int),
                        self.state == CaptureState::Incomplete,
                    decreases data@.len() - i,
                {
                    self.buf.push(data[i]);
                    assert(data@.take(i as int + 1) =~= data@.take(i as int).push(data@[i as int]));
                    i += 1;
                }
                assert(data@.take(data@.len() as int) =~= data@);
            }
        }
    }

    /// Records a trailers frame: a body with trailers cannot be replayed.
    pub fn record_trailers(&mut self)
        requires
            old(self).wf(),
        ensures
            final(self).wf(),
            (final(self).state_spec(), final(self).bytes()) == capture_step(
                old(self).state_spec(),
                old(self).bytes(),
                BodyEventView::Trailers,
            ),
    {
        if self.state == CaptureState::Incomplete {
            self.state = CaptureState::Trailers;
            self.buf = Vec::new();
        }
    }

    /// Records a clean end of the body: what was captured is the whole body.
    pub fn record_end(&mut self)
        requires
            old(self).wf(),
        ensures
            final(self).wf(),
            (final(self).state_spec(), final(self).bytes()) == capture_step(
                old(self).state_spec(),
                old(self).bytes(),
                BodyEventView::End,
            ),
    {
        if self.state == CaptureState::Incomplete {
            self.state = CaptureState::Complete;
        }
    }

    /// Records one body event.
    pub fn record(&mut self, e: &BodyEvent)
        requires
            old(self).wf(),
        ensures
            final(self).wf(),
            (final(self).state_spec(), final(self).bytes()) == capture_step(
                old(self).state_spec(),
                old(self).bytes(),
                match e {
                    BodyEvent::Data(d) => BodyEventView::Data(d@),
                    BodyEvent::Trailers => BodyEventView::Trailers,
                    BodyEvent::End => BodyEventView::End,
                },
            ),
    {
        match e {
            BodyEvent::Data(d) => self.record_data(d.as_slice()),
            BodyEvent::Trailers => self.record_trailers(),
            BodyEvent::End => self.record_end(),
        }
    }

    /// The bytes to replay, if and only if the whole body was captured under
    /// the cap.
    pub fn replayable(&self) -> (r: Option<Vec<u8>>)
        ensures
            self.state_spec() == CaptureState::Complete ==> (r matches Some(b) && b@ == self.bytes()),
            self.state_spec() != CaptureState::Complete ==> r is None,
    {
        if self.state == CaptureState::Complete {
            Some(self.buf.clone())
        } else {
            None
        }
    }
}

/// The concatenation of the data of a run of data events.
pub open spec fn data_concat(datas: Seq<Seq<u8>>) -> Seq<u8>
    decreases datas.len(),
{
    if datas.len() == 0 {
        Seq::empty()
    } else {
        data_concat(datas.drop_last()) + datas.last()
    }
}

/// A body of plain data frames is still incomplete after its frames: it
/// holds their concatenation while that fits under the cap, and is
/// abandoned once it does not.
pub proof fn lemma_data_frames_accumulate(datas: Seq<Seq<u8>>)
    ensures
        data_concat(datas).len() <= REPLAY_CAP ==> capture_run(
            datas.map_values(|d: Seq<u8>| BodyEventView::Data(d)),
        ) == (CaptureState::Incomplete, data_concat(datas)),
        data_concat(datas).len() > REPLAY_CAP ==> capture_run(
            datas.map_values(|d: Seq<u8>| BodyEventView::Data(d)),
        ) == (CaptureState::Overflowed, Seq::<u8>::empty()),
    decreases datas.len(),
{
    if datas.len() > 0 {
        let events = datas.map_values(|d: Seq<u8>| BodyEventView::Data(d));
        assert(events.drop_last() =~= datas.drop_last().map_values(
            |d: Seq<u8>| BodyEventView::Data(d),
        ));
        lemma_data_frames_accumulate(datas.drop_last());
        lemma_data_concat_grows(datas.drop_last(), datas.last());
        assert(datas.drop_last().push(datas.last()) =~= datas);
    }
}

/// Concatenation only grows.
proof fn lemma_data_concat_grows(datas: Seq<Seq<u8>>, d: Seq<u8>)
    ensures
        data_concat(datas.push(d)) == data_concat(datas) + d,
{
    assert(datas.push(d).drop_last() =~= datas);
}

/// A body of data frames that fits under the cap, ended cleanly, replays
/// exactly its bytes; one that outgrows the cap never becomes replayable,
/// however it ends.
pub proof fn lemma_replay_is_whole_body(datas: Seq<Seq<u8>>)
    ensures
        data_concat(datas).len() <= REPLAY_CAP ==> capture_run(
            datas.map_values(|d: Seq<u8>| BodyEventView::Data(d)).push(BodyEventView::End),
        ) == (CaptureState::Complete, data_concat(datas)),
        data_concat(datas).len() > REPLAY_CAP ==> capture_run(
            datas.map_values(|d: Seq<u8>| BodyEventView::Data(d)).push(BodyEventView::End),
        ).0 == CaptureState::Overflowed,
{
    let events = datas.map_values(|d: Seq<u8>| BodyEventView::Data(d));
    lemma_data_frames_accumulate(datas);
    assert(events.push(BodyEventView::End).drop_last() =~= events);
}

/// Once a capture leaves the incomplete state, nothing changes it again.
pub proof fn lemma_terminal_state_is_final(state: CaptureState, bytes: Seq<u8>, e: BodyEventView)
    requires
        state != CaptureState::Incomplete,
    ensures
        capture_step(state, bytes, e) == (state, bytes),
{
}

} // verus!
