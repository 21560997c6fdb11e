//! Commit engine and event gating: one atomic request per frame, and never
//! a new commit while a prior one is still in flight.
//!
//! The engine is a state machine `Idle -> AwaitingEvent -> Idle` per frame.
//! Submission is only accepted while idle; a completion event read from the
//! kernel brings the engine back to idle. Blob handles referenced by the
//! outstanding commit are protected from destruction until that completion
//! is consumed.

use vstd::prelude::*;
use crate::errors::DisplayError;

verus! {

/// Per-frame progress of the presentation state machine.
#[derive(Clone, Copy, Debug, PartialEq, Eq, Structural)]
pub enum FrameState {
    /// No commit is in flight; the next frame may be submitted.
    Idle,
    /// A commit was submitted and its completion event is still owed.
    AwaitingEvent,
}

/// One event read from the kernel's event channel.
#[derive(Clone, Copy, Debug, PartialEq, Eq, Structural)]
pub enum DisplayEvent {
    /// A vertical-blank interval began.
    Vblank,
    /// A page flip completed.
    PageFlip,
    /// Anything the channel delivered that is neither: ignored, never fatal.
    Unknown,
}

/// The protocol used to present frames, picked by capability availability.
#[derive(Clone, Copy, Debug, PartialEq, Eq, Structural)]
pub enum CommitVariant {
    /// Atomic property commits: all bindings applied as one transition.
    Atomic,
    /// One-time CRTC set followed by per-frame page flips.
    Legacy,
}

/// Whether `ev` signals completion of the outstanding commit.
pub open spec fn is_completion(ev: DisplayEvent) -> bool {
    ev == DisplayEvent::Vblank || ev == DisplayEvent::PageFlip
}

/// Picks the preferred protocol: atomic when the device granted the
/// atomic capability, the legacy set-and-flip path otherwise.
pub fn select_variant(atomic_capable: bool) -> (r: CommitVariant)
    ensures
        r == (if atomic_capable {
            CommitVariant::Atomic
        } else {
            CommitVariant::Legacy
        }),
{
    if atomic_capable {
        CommitVariant::Atomic
    } else {
        CommitVariant::Legacy
    }
}

/// One (object, property, value) binding of an atomic request.
#[derive(Clone, Copy, Debug, PartialEq, Eq, Structural)]
pub struct PropertyBinding {
    /// The kernel object the property belongs to.
    pub object: u32,
    /// The property's object-scoped handle.
    pub property: u64,
    /// The raw value to bind.
    pub value: u64,
}

/// The objects one presentation pipeline drives.
#[derive(Clone, Copy, Debug, PartialEq, Eq, Structural)]
pub struct PipelineHandles {
    /// The connector reaching the physical output.
    pub connector: u32,
    /// The CRTC scanning out to that connector.
    pub crtc: u32,
    /// The plane presenting the framebuffer on that CRTC.
    pub plane: u32,
}

/// The per-object property handles a frame request binds, resolved once
/// per session. Handles are object-scoped: each belongs to the object it
/// was resolved on.
#[derive(Clone, Copy, Debug, PartialEq, Eq, Structural)]
pub struct FrameProperties {
    /// "CRTC_ID" on the connector.
    pub crtc_id: u64,
    /// "ACTIVE" on the CRTC.
    pub active: u64,
    /// "CTM" on the CRTC.
    pub ctm: u64,
    /// "FB_ID" on the plane.
    pub fb_id: u64,
}

/// An atomic request: an ordered batch of bindings the kernel applies as
/// one indivisible transition.
pub struct AtomicRequest {
    /// The bindings, in the order they were added.
    pub bindings: Vec<PropertyBinding>,
}

impl AtomicRequest {
    /// An empty request.
    pub fn new() -> (r: AtomicRequest)
        ensures
            r.bindings@ == Seq::<PropertyBinding>::empty(),
    {
        AtomicRequest { bindings: Vec::new() }
    }

    /// Appends one binding.
    pub fn add_binding(&mut self, object: u32, property: u64, value: u64)
        ensures
            final(self).bindings@ == old(self).bindings@.push(
                (PropertyBinding { object, property, value }),
            ),
    {
        self.bindings.push(PropertyBinding { object, property, value });
    }
}

/// The four bindings of one presented frame: the CRTC's color transform,
/// the connector routed to the CRTC, the CRTC active, and the plane bound
/// to the frame's framebuffer.
pub open spec fn spec_frame_request(
    h: PipelineHandles,
    p: FrameProperties,
    blob: u32,
    fb: u32,
) -> Seq<PropertyBinding> {
    seq![
        PropertyBinding { object: h.crtc, property: p.ctm, value: blob as u64 },
        PropertyBinding { object: h.connector, property: p.crtc_id, value: h.crtc as u64 },
        PropertyBinding { object: h.crtc, property: p.active, value: 1u64 },
        PropertyBinding { object: h.plane, property: p.fb_id, value: fb as u64 },
    ]
}

/// Builds the atomic request presenting framebuffer `fb` with the color
/// transform stored in `blob`.
pub fn build_frame_request(h: PipelineHandles, p: FrameProperties, blob: u32, fb: u32) -> (r:
    AtomicRequest)
    ensures
        r.bindings@ == spec_frame_request(h, p, blob, fb),
{
    let mut req = AtomicRequest::new();
    req.add_binding(h.crtc, p.ctm, blob as u64);
    req.add_binding(h.connector, p.crtc_id, h.crtc as u64);
    req.add_binding(h.crtc, p.active, 1u64);
    req.add_binding(h.plane, p.fb_id, fb as u64);
    proof {
        assert(req.bindings@ =~= spec_frame_request(h, p, blob, fb));
    }
    req
}

/// The framebuffer presented by frame `i` under the double-buffered
/// ping-pong policy: frame `i` presents buffer `i mod 2`.
pub fn frame_target(i: u64, fb_even: u32, fb_odd: u32) -> (r: u32)
    ensures
        r == (if i % 2 == 1 {
            fb_odd
        } else {
            fb_even
        }),
{
    if i % 2 == 1 {
        fb_odd
    } else {
        fb_even
    }
}

/// Gates frame submission and tracks blob lifetime against the commit in
/// flight.
pub struct CommitEngine {
    state: FrameState,
    submitted: u64,
    completed: u64,
    blobs: Vec<u32>,
    pending_blob: Option<u32>,
}

impl CommitEngine {
    /// The per-frame state.
    pub closed spec fn state(self) -> FrameState {
        self.state
    }

    /// How many commits were submitted so far.
    pub closed spec fn submitted(self) -> u64 {
        self.submitted
    }

    /// How many completion events were consumed so far.
    pub closed spec fn completed(self) -> u64 {
        self.completed
    }

    /// The live blob handles, in creation order.
    pub closed spec fn blobs(self) -> Seq<u32> {
        self.blobs@
    }

    /// The blob referenced by the commit in flight, if one is.
    pub closed spec fn pending_blob(self) -> Option<u32> {
        self.pending_blob
    }

    /// Whether blob handle `b` is live.
    pub open spec fn blob_live(self, b: u32) -> bool {
        self.blobs().contains(b)
    }

    /// How many commits are submitted but not yet completed.
    pub open spec fn outstanding(self) -> int {
        self.submitted() - self.completed()
    }

    /// Engine invariant: the in-flight count matches the state, a pending
    /// blob is only held while awaiting its commit's event and stays live
    /// meanwhile, and blob handles are unique while live.
    pub open spec fn wf(self) -> bool {
        &&& self.completed() <= self.submitted()
        &&& self.outstanding() == (if self.state() is AwaitingEvent {
            1int
        } else {
            0int
        })
        &&& match self.pending_blob() {
            Some(b) => self.state() is AwaitingEvent && self.blob_live(b),
            None => true,
        }
        &&& forall|i: int, j: int|
            0 <= i < j < self.blobs().len() ==> self.blobs()[i] != self.blobs()[j]
    }

    /// A fresh engine: idle, nothing submitted, no blobs.
    pub fn new() -> (r: CommitEngine)
        ensures
            r.wf(),
            r.state() == FrameState::Idle,
            r.submitted() == 0,
            r.completed() == 0,
            r.blobs() == Seq::<u32>::empty(),
            r.pending_blob() is None,
    {
        CommitEngine {
            state: FrameState::Idle,
            submitted: 0,
            completed: 0,
            blobs: Vec::new(),
            pending_blob: None,
        }
    }

    /// Whether the engine is idle, so that the next frame may be submitted.
    pub fn is_idle(&self) -> (r: bool)
        ensures
            r == (self.state() is Idle),
    {
        match self.state {
            FrameState::Idle => true,
            FrameState::AwaitingEvent => false,
        }
    }

    /// How many commits were submitted so far.
    pub fn submitted_count(&self) -> (r: u64)
        ensures
            r == self.submitted(),
    {
        self.submitted
    }

    /// How many completion events were consumed so far.
    pub fn completed_count(&self) -> (r: u64)
        ensures
            r == self.completed(),
    {
        self.completed
    }

    /// Whether blob handle `b` is currently live.
    pub fn blob_is_live(&self, b: u32) -> (r: bool)
        ensures
            r == self.blob_live(b),
    {
        let mut i: usize = 0;
        while i < self.blobs.len()
            invariant
                i <= self.blobs@.len(),
                forall|j: int| 0 <= j < i ==> self.blobs@[j] != b,
            decreases self.blobs@.len() - i,
        {
            if self.blobs[i] == b {
                proof {
                    assert(self.blobs().contains(b));
                }
                return true;
            }
            i = i + 1;
        }
        proof {
            assert(!self.blobs().contains(b));
        }
        false
    }

    /// Registers a blob the kernel created. A handle equal to a live one
    /// is rejected: the kernel never hands out a live handle twice.
    pub fn record_blob(&mut self, b: u32) -> (r: Result<(), DisplayError>)
        requires
            old(self).wf(),
        ensures
            final(self).wf(),
            r == (if old(self).blob_live(b) {
                Err::<(), DisplayError>(DisplayError::DuplicateHandle)
            } else {
                Ok::<(), DisplayError>(())
            }),
            r is Err ==> *final(self) == *old(self),
            r is Ok ==> final(self).blobs() == old(self).blobs().push(b),
            final(self).state() == old(self).state(),
            final(self).submitted() == old(self).submitted(),
            final(self).completed() == old(self).completed(),
            final(self).pending_blob() == old(self).pending_blob(),
    {
        if self.blob_is_live(b) {
            return Err(DisplayError::DuplicateHandle);
        }
        self.blobs.push(b);
        proof {
            assert(self.blobs() == old(self).blobs().push(b));
            let n = old(self).blobs().len() as int;
            assert forall|i: int, j: int| 0 <= i < j < self.blobs().len() implies self.blobs()[i]
                != self.blobs()[j] by {
                if j == n {
                    assert(self.blobs()[i] == old(self).blobs()[i]);
                    assert(self.blobs()[j] == b);
                    if old(self).blobs()[i] == b {
                        assert(old(self).blobs().contains(b));
                    }
                } else {
                    assert(self.blobs()[i] == old(self).blobs()[i]);
                    assert(self.blobs()[j] == old(self).blobs()[j]);
                }
            }
            if old(self).pending_blob() is Some {
                let pb = old(self).pending_blob()->Some_0;
                let j = choose|j: int|
                    0 <= j < old(self).blobs().len() && old(self).blobs()[j] == pb;
                assert(self.blobs()[j] == pb);
                assert(self.blobs().contains(pb));
            }
        }
        Ok(())
    }

    /// Submits the atomic commit of one frame, referencing `blob` as its
    /// color transform. Rejected with `CommitBusy` while a prior commit is
    /// still in flight, and with `CommitRejected` if the blob is not live
    /// (an invalid property combination).
    pub fn begin_commit(&mut self, blob: u32) -> (r: Result<(), DisplayError>)
        requires
            old(self).wf(),
            old(self).submitted() < u64::MAX,
        ensures
            final(self).wf(),
            r == (if old(self).state() is AwaitingEvent {
                Err::<(), DisplayError>(DisplayError::CommitBusy)
            } else if !old(self).blob_live(blob) {
                Err::<(), DisplayError>(DisplayError::CommitRejected)
            } else {
                Ok::<(), DisplayError>(())
            }),
            r is Err ==> *final(self) == *old(self),
            r is Ok ==> final(self).state() is AwaitingEvent,
            r is Ok ==> final(self).submitted() == old(self).submitted() + 1,
            r is Ok ==> final(self).pending_blob() == Some(blob),
            final(self).completed() == old(self).completed(),
            final(self).blobs() == old(self).blobs(),
    {
        match self.state {
            FrameState::AwaitingEvent => Err(DisplayError::CommitBusy),
            FrameState::Idle => {
                if !self.blob_is_live(blob) {
                    return Err(DisplayError::CommitRejected);
                }
                self.state = FrameState::AwaitingEvent;
                self.submitted = self.submitted + 1;
                self.pending_blob = Some(blob);
                Ok(())
            },
        }
    }

    /// Submits a legacy page flip to the next framebuffer. Flips must not
    /// be issued back-to-back: while the prior flip's completion event is
    /// still owed, the flip is rejected with `CommitBusy`.
    pub fn begin_page_flip(&mut self) -> (r: Result<(), DisplayError>)
        requires
            old(self).wf(),
            old(self).submitted() < u64::MAX,
        ensures
            final(self).wf(),
            r == (if old(self).state() is AwaitingEvent {
                Err::<(), DisplayError>(DisplayError::CommitBusy)
            } else {
                Ok::<(), DisplayError>(())
            }),
            r is Err ==> *final(self) == *old(self),
            r is Ok ==> final(self).state() is AwaitingEvent,
            r is Ok ==> final(self).submitted() == old(self).submitted() + 1,
            r is Ok ==> final(self).pending_blob() is None,
            final(self).completed() == old(self).completed(),
            final(self).blobs() == old(self).blobs(),
    {
        match self.state {
            FrameState::AwaitingEvent => Err(DisplayError::CommitBusy),
            FrameState::Idle => {
                self.state = FrameState::AwaitingEvent;
                self.submitted = self.submitted + 1;
                proof {
                    assert forall|i: int, j: int|
                        0 <= i < j < self.blobs().len() implies self.blobs()[i]
                        != self.blobs()[j] by {
                        assert(self.blobs()[i] == old(self).blobs()[i]);
                        assert(self.blobs()[j] == old(self).blobs()[j]);
                    }
                }
                Ok(())
            },
        }
    }

    /// Feeds one event from the kernel channel to the engine. A completion
    /// event while a commit is in flight consumes it and frees the next
    /// frame; anything else, `Unknown` included, changes nothing.
    pub fn handle_event(&mut self, ev: DisplayEvent) -> (consumed: bool)
        requires
            old(self).wf(),
        ensures
            final(self).wf(),
            consumed == (old(self).state() is AwaitingEvent && is_completion(ev)),
            !consumed ==> *final(self) == *old(self),
            consumed ==> final(self).state() is Idle,
            consumed ==> final(self).completed() == old(self).completed() + 1,
            consumed ==> final(self).pending_blob() is None,
            final(self).submitted() == old(self).submitted(),
            final(self).blobs() == old(self).blobs(),
    {
        let completion = match ev {
            DisplayEvent::Vblank => true,
            DisplayEvent::PageFlip => true,
            DisplayEvent::Unknown => false,
        };
        match self.state {
            FrameState::AwaitingEvent => {
                if completion {
                    self.state = FrameState::Idle;
                    self.completed = self.completed + 1;
                    self.pending_blob = None;
                    proof {
                        assert forall|i: int, j: int|
                            0 <= i < j < self.blobs().len() implies self.blobs()[i]
                            != self.blobs()[j] by {
                            assert(self.blobs()[i] == old(self).blobs()[i]);
                            assert(self.blobs()[j] == old(self).blobs()[j]);
                        }
                    }
                    true
                } else {
                    false
                }
            },
            FrameState::Idle => false,
        }
    }

    /// Feeds a batch of events, as drained from one blocking read of the
    /// event channel, to the engine. At most one completion is consumed:
    /// the one matching the commit in flight, if any.
    pub fn consume_events(&mut self, evs: &Vec<DisplayEvent>) -> (consumed: bool)
        requires
            old(self).wf(),
        ensures
            final(self).wf(),
            consumed == (old(self).state() is AwaitingEvent && exists|i: int|
                0 <= i < evs@.len() && is_completion(evs@[i])),
            !consumed ==> *final(self) == *old(self),
            consumed ==> final(self).state() is Idle,
            consumed ==> final(self).completed() == old(self).completed() + 1,
            consumed ==> final(self).pending_blob() is None,
            final(self).submitted() == old(self).submitted(),
            final(self).blobs() == old(self).blobs(),
    {
        let mut consumed = false;
        let mut i: usize = 0;
        while i < evs.len()
            invariant
                old(self).wf(),
                i <= evs@.len(),
                self.wf(),
                self.submitted() == old(self).submitted(),
                self.blobs() == old(self).blobs(),
                consumed == (old(self).state() is AwaitingEvent && exists|j: int|
                    0 <= j < i && is_completion(evs@[j])),
                consumed ==> self.state() is Idle,
                consumed ==> self.completed() == old(self).completed() + 1,
                consumed ==> self.pending_blob() is None,
                !consumed ==> *self == *old(self),
            decreases evs@.len() - i,
        {
            let ev = evs[i];
            let now = self.handle_event(ev);
            proof {
                if now {
                    assert(is_completion(evs@[i as int]));
                }
            }
            consumed = consumed || now;
            i = i + 1;
        }
        consumed
    }

    /// Destroys the blob `b`. Destroying the blob referenced by the commit
    /// still in flight is a lifetime violation and is rejected with
    /// `HandleInUse`: a submitted request references the blob until its
    /// completion event has been consumed.
    pub fn destroy_blob(&mut self, b: u32) -> (r: Result<(), DisplayError>)
        requires
            old(self).wf(),
        ensures
            final(self).wf(),
            r == (if !old(self).blob_live(b) {
                Err::<(), DisplayError>(DisplayError::UnknownHandle)
            } else if old(self).pending_blob() == Some(b) {
                Err::<(), DisplayError>(DisplayError::HandleInUse)
            } else {
                Ok::<(), DisplayError>(())
            }),
            r is Err ==> *final(self) == *old(self),
            r is Ok ==> forall|c: u32|
                final(self).blob_live(c) <==> (old(self).blob_live(c) && c != b),
            final(self).state() == old(self).state(),
            final(self).submitted() == old(self).submitted(),
            final(self).completed() == old(self).completed(),
            final(self).pending_blob() == old(self).pending_blob(),
    {
        let idx = match self.find_blob_index(b) {
            Some(i) => i,
            None => {
                return Err(DisplayError::UnknownHandle);
            },
        };
        let referenced = match self.pending_blob {
            Some(pb) => pb == b,
            None => false,
        };
        if referenced {
            return Err(DisplayError::HandleInUse);
        }
        self.blobs.remove(idx);
        proof {
            let s = old(self).blobs();
            let t = self.blobs();
            let k = idx as int;
            s.remove_ensures(k);
            assert forall|c: u32| self.blob_live(c) implies (old(self).blob_live(c) && c != b) by {
                let j = choose|j: int| 0 <= j < t.len() && t[j] == c;
                let j0: int = if j < k {
                    j
                } else {
                    j + 1
                };
                assert(s[j0] == c);
                assert(s.contains(c));
                assert(c != b);
            }
            assert forall|c: u32| old(self).blob_live(c) && c != b implies self.blob_live(c) by {
                let j0 = choose|j: int| 0 <= j < s.len() && s[j] == c;
                assert(j0 != k);
                let j: int = if j0 < k {
                    j0
                } else {
                    j0 - 1
                };
                assert(t[j] == c);
                assert(t.contains(c));
            }
            if old(self).pending_blob() is Some {
                let pb = old(self).pending_blob()->Some_0;
                assert(old(self).blob_live(pb) && pb != b);
            }
        }
        Ok(())
    }

    fn find_blob_index(&self, b: u32) -> (r: Option<usize>)
        ensures
            match r {
                Some(i) => 0 <= i < self.blobs().len() && self.blobs()[i as int] == b,
                None => !self.blob_live(b),
            },
    {
        let mut i: usize = 0;
        while i < self.blobs.len()
            invariant
                i <= self.blobs@.len(),
                forall|j: int| 0 <= j < i ==> self.blobs@[j] != b,
            decreases self.blobs@.len() - i,
        {
            if self.blobs[i] == b {
                return Some(i);
            }
            i = i + 1;
        }
        proof {
            assert(!self.blobs().contains(b));
        }
        None
    }
}

/// At most one commit is ever outstanding: the submitted and completed
/// counts never differ by more than one, and a new commit is only accepted
/// once every prior commit's completion event has been consumed, so the
/// N-th completion is observed before the (N+1)-th submission.
pub proof fn lemma_at_most_one_outstanding(e: CommitEngine)
    requires
        e.wf(),
    ensures
        0 <= e.outstanding() <= 1,
        e.state() is Idle ==> e.completed() == e.submitted(),
{
}

} // verus!
