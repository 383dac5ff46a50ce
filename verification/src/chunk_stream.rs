//! The terminal-frame state machine that turns a source of encoded frames into
//! a stream of items.
//!
//! Each call decides what one pulled element means; the caller pulls the next
//! element, decodes item payloads, and stops after anything but an item.
use vstd::prelude::*;
use crate::call_error::CallError;
use crate::frame::{Frame, FrameError, FrameView, ReadSpec, decode_spec};
use crate::text::{decimal, decimal_spec};
use crate::wire::WireError;

verus! {

/// What one element pulled from a frame source means for the stream.
#[derive(Debug)]
pub enum FrameStep {
    /// An item payload, to be decoded by the caller; the stream continues.
    Item(Vec<u8>),
    /// A clean end: the stream is over and yields nothing more.
    End,
    /// A terminal failure: the stream yields this error once, then nothing.
    Fail(CallError),
}

/// Calls `Display` on a bincode error (its text depends on the error alone).
#[verifier::external_body]
fn bincode_error_text(e: &bincode::Error) -> String {
    format!("{}", e)
}

impl FrameError {
    /// The error's message.
    pub fn message(&self) -> (m: String)
        ensures
            match self {
                FrameError::Truncated { needed, had } => m@ == "truncated frame: needed "@
                    + decimal_spec(*needed as nat) + " bytes, had "@ + decimal_spec(*had as nat),
                FrameError::UnknownTag(t) => m@ == "unknown frame tag: "@ + decimal_spec(
                    *t as nat,
                ),
                FrameError::Payload(_) => "malformed error-frame payload: bincode wire error: "@.is_prefix_of(
                    m@,
                ),
                FrameError::Malformed(s) => m@ == "malformed frame: "@ + s@,
            },
    {
        match self {
            FrameError::Truncated { needed, had } => {
                let mut m = String::from_str("truncated frame: needed ");
                m.append(decimal(*needed as u64).as_str());
                m.append(" bytes, had ");
                m.append(decimal(*had as u64).as_str());
                m
            },
            FrameError::UnknownTag(t) => {
                let mut m = String::from_str("unknown frame tag: ");
                m.append(decimal(*t as u64).as_str());
                m
            },
            FrameError::Payload(WireError::Bincode(e)) => {
                let mut m = String::from_str("malformed error-frame payload: bincode wire error: ");
                m.append(bincode_error_text(e).as_str());
                m
            },
            FrameError::Malformed(s) => {
                let mut m = String::from_str("malformed frame: ");
                m.append(s.as_str());
                m
            },
        }
    }
}

/// What one pulled element means, leaving out what it carries.
pub enum StepKind {
    /// An item; the stream continues.
    Item,
    /// A clean end.
    End,
    /// A terminal failure, yielded as the stream's last element.
    Fail,
}

/// The meaning of one pulled element (`None`: the source ran dry).
pub open spec fn step_kind(next: Option<Seq<u8>>) -> StepKind {
    match next {
        None => StepKind::Fail,
        Some(b) => match decode_spec(b) {
            ReadSpec::Read(f, _) => match f {
                FrameView::Item(_) => StepKind::Item,
                FrameView::End => StepKind::End,
                FrameView::Error(_) => StepKind::Fail,
            },
            _ => StepKind::Fail,
        },
    }
}

/// The bytes of a pulled element.
pub open spec fn pulled_view(next: Option<Vec<u8>>) -> Option<Seq<u8>> {
    match next {
        None => None,
        Some(b) => Some(b@),
    }
}

/// What a stream whose items all decode yields from the elements `pulled`,
/// in order: one entry per item up to the first terminal element, then the
/// failure if that element is one; a clean end yields nothing.
pub open spec fn run_yields(pulled: Seq<Option<Seq<u8>>>) -> Seq<StepKind>
    decreases pulled.len(),
{
    if pulled.len() == 0 {
        Seq::empty()
    } else {
        match step_kind(pulled[0]) {
            StepKind::Item => seq![StepKind::Item] + run_yields(pulled.drop_first()),
            StepKind::End => Seq::empty(),
            StepKind::Fail => seq![StepKind::Fail],
        }
    }
}

/// Whether some element of `pulled` ends the stream.
pub open spec fn reaches_terminal(pulled: Seq<Option<Seq<u8>>>) -> bool {
    exists|i: int| 0 <= i < pulled.len() && !(step_kind(#[trigger] pulled[i]) is Item)
}

/// A stream yields its items, then at most one failure, and nothing after a
/// terminal element: whatever the source would hand over after a clean end
/// or a failure is never read into the stream.
pub proof fn lemma_nothing_after_terminal(
    pulled: Seq<Option<Seq<u8>>>,
    rest: Seq<Option<Seq<u8>>>,
)
    ensures
        forall|i: int|
            0 <= i < run_yields(pulled).len() - 1 ==> #[trigger] run_yields(pulled)[i] is Item,
        run_yields(pulled).len() <= pulled.len(),
        reaches_terminal(pulled) ==> run_yields(pulled + rest) == run_yields(pulled),
    decreases pulled.len(),
{
    if pulled.len() > 0 {
        let tail = pulled.drop_first();
        lemma_nothing_after_terminal(tail, rest);
        assert((pulled + rest).drop_first() =~= tail + rest);
        assert((pulled + rest)[0] == pulled[0]);
        if step_kind(pulled[0]) is Item {
            if reaches_terminal(pulled) {
                let i = choose|i: int| 0 <= i < pulled.len() && !(step_kind(#[trigger] pulled[i]) is Item);
                assert(tail[i - 1] == pulled[i]);
            }
            let ys = run_yields(pulled);
            assert forall|i: int| 0 <= i < ys.len() - 1 implies #[trigger] ys[i] is Item by {
                if i > 0 {
                    assert(ys[i] == run_yields(tail)[i - 1]);
                }
            }
        }
    }
}

/// `step` is what the pulled element `next` means: an item's payload, a
/// clean end, the plugin's error, or (for an element that is no frame, or a
/// source that ran dry) a failure.
pub open spec fn interprets(next: Option<Vec<u8>>, step: FrameStep) -> bool {
    &&& (step is Item) == (step_kind(pulled_view(next)) is Item)
    &&& (step is End) == (step_kind(pulled_view(next)) is End)
    &&& (step is Fail) == (step_kind(pulled_view(next)) is Fail)
    &&& match next {
        None => step matches FrameStep::Fail(CallError::StreamAborted),
        Some(b) => match decode_spec(b@) {
            ReadSpec::Read(f, _) => match f {
                FrameView::Item(p) => step matches FrameStep::Item(q) && q@ == p,
                FrameView::End => step is End,
                FrameView::Error(e) => step matches FrameStep::Fail(CallError::Plugin(pe)) && pe@ == e,
            },
            _ => step matches FrameStep::Fail(CallError::MalformedFrame(_)),
        },
    }
}

/// Interprets one element pulled from a frame source. `None` (the source ran
/// dry before a terminal frame) aborts the stream.
pub fn frame_step(next: Option<Vec<u8>>) -> (step: FrameStep)
    ensures
        interprets(next, step),
{
    match next {
        None => FrameStep::Fail(CallError::StreamAborted),
        Some(bytes) => match Frame::decode(bytes.as_slice()) {
            Err(e) => FrameStep::Fail(CallError::MalformedFrame(e.message())),
            Ok(Frame::Item(payload)) => FrameStep::Item(payload),
            Ok(Frame::End) => FrameStep::End,
            Ok(Frame::Error(pe)) => FrameStep::Fail(CallError::Plugin(pe)),
        },
    }
}

/// Where a stream of frames stands between pulls: it takes elements until a
/// terminal one (or an item its consumer cannot decode), and none after.
pub struct FrameCursor {
    open: bool,
    taken: Ghost<Seq<Option<Seq<u8>>>>,
}

impl FrameCursor {
    /// Whether the stream still takes elements.
    pub closed spec fn accepting(self) -> bool {
        self.open
    }

    /// The elements the stream has taken, in order.
    pub closed spec fn taken(self) -> Seq<Option<Seq<u8>>> {
        self.taken@
    }

    /// Every element taken before the last was an item, and an open stream
    /// has taken items only.
    pub open spec fn wf(self) -> bool {
        &&& forall|i: int| 0 <= i < self.taken().len() - 1 ==> #[trigger] step_kind(self.taken()[i]) is Item
        &&& self.accepting() ==> forall|i: int|
            0 <= i < self.taken().len() ==> #[trigger] step_kind(self.taken()[i]) is Item
    }

    /// A stream that has taken nothing yet.
    pub fn new() -> (c: Self)
        ensures
            c.accepting(),
            c.taken() == Seq::<Option<Seq<u8>>>::empty(),
            c.wf(),
    {
        FrameCursor { open: true, taken: Ghost(Seq::empty()) }
    }

    /// Whether to pull another element.
    pub fn accepts_more(&self) -> (r: bool)
        ensures
            r == self.accepting(),
    {
        self.open
    }

    /// Takes one pulled element: what it means, and the stream stays open
    /// exactly after an item.
    pub fn advance(&mut self, next: Option<Vec<u8>>) -> (step: FrameStep)
        requires
            old(self).accepting(),
            old(self).wf(),
        ensures
            interprets(next, step),
            final(self).accepting() == (step is Item),
            final(self).taken() == old(self).taken().push(pulled_view(next)),
            final(self).wf(),
    {
        let ghost pulled = pulled_view(next);
        let step = frame_step(next);
        self.open = match &step {
            FrameStep::Item(_) => true,
            _ => false,
        };
        proof {
            let before = self.taken@;
            self.taken = Ghost(before.push(pulled));
            assert forall|i: int| 0 <= i < self.taken@.len() - 1 implies #[trigger] step_kind(
                self.taken@[i],
            ) is Item by {
                assert(self.taken@[i] == before[i]);
            }
        }
        step
    }

    /// The consumer could not decode the item just taken: its error is the
    /// stream's last element.
    pub fn item_failed(&mut self)
        requires
            old(self).wf(),
        ensures
            !final(self).accepting(),
            final(self).taken() == old(self).taken(),
            final(self).wf(),
    {
        self.open = false;
    }
}

/// A stream read through a cursor takes the source's elements up to its
/// first terminal one and no further: what it has taken is a prefix of the
/// source, and what it yields from them (when every item decodes) is
/// [`run_yields`] of the source, whatever the source would hand over after.
pub proof fn lemma_cursor_reads_a_prefix(c: FrameCursor, source: Seq<Option<Seq<u8>>>)
    requires
        c.wf(),
        c.taken().is_prefix_of(source),
        !c.accepting(),
        c.taken().len() > 0,
        !(step_kind(c.taken().last()) is Item),
    ensures
        run_yields(source) == run_yields(c.taken()),
        reaches_terminal(c.taken()),
{
    let t = c.taken();
    let rest = source.skip(t.len() as int);
    assert(t + rest =~= source);
    assert(!(step_kind(t[t.len() - 1]) is Item));
    lemma_nothing_after_terminal(t, rest);
}

} // verus!
