//! Buffer manager: tracks dumb-buffer and framebuffer handles and enforces
//! destruction in dependency order.
//!
//! The kernel will not prevent use-after-destroy on its opaque handles, so
//! the registry tracks which handles are live and which framebuffer wraps
//! which buffer. A buffer may only be destroyed once no live framebuffer
//! references it; violating that order is rejected rather than passed on.

use vstd::prelude::*;
use crate::errors::DisplayError;

verus! {

/// A live framebuffer: its own handle and the dumb buffer it wraps.
#[derive(Clone, Copy, Debug, PartialEq, Eq, Structural)]
pub struct Framebuffer {
    /// The framebuffer's handle.
    pub handle: u32,
    /// The handle of the backing dumb buffer.
    pub buffer: u32,
}

/// Tracks which buffer and framebuffer handles are currently live and the
/// wrapping relation between them.
pub struct BufferRegistry {
    buffers: Vec<u32>,
    framebuffers: Vec<Framebuffer>,
}

impl BufferRegistry {
    /// The live dumb-buffer handles, in creation order.
    pub closed spec fn buffers(self) -> Seq<u32> {
        self.buffers@
    }

    /// The live framebuffers, in creation order.
    pub closed spec fn framebuffers(self) -> Seq<Framebuffer> {
        self.framebuffers@
    }

    /// Whether buffer handle `b` is live.
    pub open spec fn buffer_live(self, b: u32) -> bool {
        self.buffers().contains(b)
    }

    /// Whether framebuffer handle `f` is live.
    pub open spec fn fb_live(self, f: u32) -> bool {
        exists|i: int| 0 <= i < self.framebuffers().len() && self.framebuffers()[i].handle == f
    }

    /// Whether the live framebuffer `f` wraps the buffer `b`.
    pub open spec fn fb_backs(self, f: u32, b: u32) -> bool {
        exists|i: int|
            0 <= i < self.framebuffers().len() && self.framebuffers()[i].handle == f
                && self.framebuffers()[i].buffer == b
    }

    /// Whether some live framebuffer still wraps buffer `b`, so that
    /// destroying `b` would violate dependency order.
    pub open spec fn buffer_in_use(self, b: u32) -> bool {
        exists|i: int| 0 <= i < self.framebuffers().len() && self.framebuffers()[i].buffer == b
    }

    /// Registry invariant: handles are unique while live, and every live
    /// framebuffer wraps a live buffer (the buffer outlives its wrapper).
    pub open spec fn wf(self) -> bool {
        &&& forall|i: int, j: int|
            0 <= i < j < self.buffers().len() ==> self.buffers()[i] != self.buffers()[j]
        &&& forall|i: int, j: int|
            0 <= i < j < self.framebuffers().len() ==> self.framebuffers()[i].handle
                != self.framebuffers()[j].handle
        &&& forall|i: int|
            0 <= i < self.framebuffers().len() ==> self.buffer_live(self.framebuffers()[i].buffer)
    }

    /// An empty registry: nothing live.
    pub fn new() -> (r: BufferRegistry)
        ensures
            r.wf(),
            r.buffers() == Seq::<u32>::empty(),
            r.framebuffers() == Seq::<Framebuffer>::empty(),
    {
        BufferRegistry { buffers: Vec::new(), framebuffers: Vec::new() }
    }

    fn find_buffer_index(&self, b: u32) -> (r: Option<usize>)
        ensures
            match r {
                Some(i) => 0 <= i < self.buffers().len() && self.buffers()[i as int] == b,
                None => !self.buffer_live(b),
            },
    {
        let mut i: usize = 0;
        while i < self.buffers.len()
            invariant
                i <= self.buffers@.len(),
                forall|j: int| 0 <= j < i ==> self.buffers@[j] != b,
            decreases self.buffers@.len() - i,
        {
            if self.buffers[i] == b {
                return Some(i);
            }
            i = i + 1;
        }
        proof {
            assert(!self.buffers().contains(b));
        }
        None
    }

    fn find_fb_index(&self, f: u32) -> (r: Option<usize>)
        ensures
            match r {
                Some(i) => 0 <= i < self.framebuffers().len() && self.framebuffers()[i as int].handle
                    == f,
                None => !self.fb_live(f),
            },
    {
        let mut i: usize = 0;
        while i < self.framebuffers.len()
            invariant
                i <= self.framebuffers@.len(),
                forall|j: int| 0 <= j < i ==> self.framebuffers@[j].handle != f,
            decreases self.framebuffers@.len() - i,
        {
            if self.framebuffers[i].handle == f {
                return Some(i);
            }
            i = i + 1;
        }
        None
    }

    /// Whether buffer handle `b` is currently live.
    pub fn buffer_is_live(&self, b: u32) -> (r: bool)
        ensures
            r == self.buffer_live(b),
    {
        match self.find_buffer_index(b) {
            Some(i) => {
                proof {
                    assert(self.buffers().contains(b));
                }
                true
            },
            None => false,
        }
    }

    /// Whether framebuffer handle `f` is currently live.
    pub fn framebuffer_is_live(&self, f: u32) -> (r: bool)
        ensures
            r == self.fb_live(f),
    {
        match self.find_fb_index(f) {
            Some(_) => true,
            None => false,
        }
    }

    /// Whether some live framebuffer still wraps buffer `b`.
    pub fn buffer_is_in_use(&self, b: u32) -> (r: bool)
        ensures
            r == self.buffer_in_use(b),
    {
        let mut i: usize = 0;
        while i < self.framebuffers.len()
            invariant
                i <= self.framebuffers@.len(),
                forall|j: int| 0 <= j < i ==> self.framebuffers@[j].buffer != b,
            decreases self.framebuffers@.len() - i,
        {
            if self.framebuffers[i].buffer == b {
                proof {
                    assert(self.framebuffers()[i as int].buffer == b);
                }
                return true;
            }
            i = i + 1;
        }
        false
    }

    /// Registers a freshly allocated dumb buffer. A handle equal to a live
    /// one is rejected: the kernel never hands out a live handle twice.
    pub fn record_buffer(&mut self, b: u32) -> (r: Result<(), DisplayError>)
        requires
            old(self).wf(),
        ensures
            final(self).wf(),
            r == (if old(self).buffer_live(b) {
                Err::<(), DisplayError>(DisplayError::DuplicateHandle)
            } else {
                Ok::<(), DisplayError>(())
            }),
            r is Err ==> *final(self) == *old(self),
            r is Ok ==> final(self).buffers() == old(self).buffers().push(b),
            final(self).framebuffers() == old(self).framebuffers(),
    {
        if self.buffer_is_live(b) {
            return Err(DisplayError::DuplicateHandle);
        }
        self.buffers.push(b);
        proof {
            assert(self.buffers() == old(self).buffers().push(b));
            let n = old(self).buffers().len() as int;
            assert forall|i: int, j: int| 0 <= i < j < self.buffers().len() implies self.buffers()[i]
                != self.buffers()[j] by {
                if j == n {
                    assert(self.buffers()[i] == old(self).buffers()[i]);
                    assert(self.buffers()[j] == b);
                    if old(self).buffers()[i] == b {
                        assert(old(self).buffers().contains(b));
                    }
                } else {
                    assert(self.buffers()[i] == old(self).buffers()[i]);
                    assert(self.buffers()[j] == old(self).buffers()[j]);
                }
            }
            assert forall|i: int, j: int|
                0 <= i < j < self.framebuffers().len() implies self.framebuffers()[i].handle
                != self.framebuffers()[j].handle by {
                assert(self.framebuffers()[i] == old(self).framebuffers()[i]);
                assert(self.framebuffers()[j] == old(self).framebuffers()[j]);
            }
            assert forall|i: int| 0 <= i < self.framebuffers().len() implies self.buffer_live(
                self.framebuffers()[i].buffer,
            ) by {
                assert(self.framebuffers()[i] == old(self).framebuffers()[i]);
                assert(old(self).buffer_live(old(self).framebuffers()[i].buffer));
                let c = self.framebuffers()[i].buffer;
                let j = choose|j: int| 0 <= j < old(self).buffers().len() && old(self).buffers()[j]
                    == c;
                assert(self.buffers()[j] == c);
                assert(self.buffers().contains(c));
            }
        }
        Ok(())
    }

    /// Registers a framebuffer wrapping the live buffer `b`. Wrapping a
    /// buffer that is not live, or reusing a live framebuffer handle, is
    /// rejected.
    pub fn record_framebuffer(&mut self, f: u32, b: u32) -> (r: Result<(), DisplayError>)
        requires
            old(self).wf(),
        ensures
            final(self).wf(),
            r == (if !old(self).buffer_live(b) {
                Err::<(), DisplayError>(DisplayError::UnknownHandle)
            } else if old(self).fb_live(f) {
                Err::<(), DisplayError>(DisplayError::DuplicateHandle)
            } else {
                Ok::<(), DisplayError>(())
            }),
            r is Err ==> *final(self) == *old(self),
            final(self).buffers() == old(self).buffers(),
            r is Ok ==> final(self).framebuffers() == old(self).framebuffers().push(
                (Framebuffer { handle: f, buffer: b }),
            ),
            r is Ok ==> final(self).fb_backs(f, b),
    {
        if !self.buffer_is_live(b) {
            return Err(DisplayError::UnknownHandle);
        }
        if self.framebuffer_is_live(f) {
            return Err(DisplayError::DuplicateHandle);
        }
        self.framebuffers.push(Framebuffer { handle: f, buffer: b });
        proof {
            let n = old(self).framebuffers().len() as int;
            assert(self.framebuffers() == old(self).framebuffers().push(
                Framebuffer { handle: f, buffer: b },
            ));
            assert(self.framebuffers()[n].handle == f && self.framebuffers()[n].buffer == b);
            assert(self.fb_backs(f, b));
            assert forall|i: int| 0 <= i < self.framebuffers().len() implies self.buffer_live(
                self.framebuffers()[i].buffer,
            ) by {
                if i < n {
                    assert(self.framebuffers()[i] == old(self).framebuffers()[i]);
                    assert(old(self).buffer_live(old(self).framebuffers()[i].buffer));
                } else {
                    assert(self.framebuffers()[i].buffer == b);
                }
            }
        }
        Ok(())
    }

    /// Destroys the framebuffer `f`. This must happen before its backing
    /// buffer is destroyed. Afterwards every other framebuffer, and the
    /// wrapping relation among them, is unchanged.
    pub fn destroy_framebuffer(&mut self, f: u32) -> (r: Result<(), DisplayError>)
        requires
            old(self).wf(),
        ensures
            final(self).wf(),
            r == (if old(self).fb_live(f) {
                Ok::<(), DisplayError>(())
            } else {
                Err::<(), DisplayError>(DisplayError::UnknownHandle)
            }),
            r is Err ==> *final(self) == *old(self),
            final(self).buffers() == old(self).buffers(),
            r is Ok ==> final(self).framebuffers().len() == old(self).framebuffers().len() - 1,
            r is Ok ==> forall|g: u32, c: u32|
                final(self).fb_backs(g, c) <==> (old(self).fb_backs(g, c) && g != f),
            r is Ok ==> forall|g: u32| final(self).fb_live(g) <==> (old(self).fb_live(g) && g != f),
            r is Ok ==> forall|c: u32|
                final(self).buffer_in_use(c) <==> exists|g: u32|
                    g != f && old(self).fb_backs(g, c),
    {
        let idx = match self.find_fb_index(f) {
            Some(i) => i,
            None => {
                return Err(DisplayError::UnknownHandle);
            },
        };
        self.framebuffers.remove(idx);
        proof {
            let s = old(self).framebuffers();
            let t = self.framebuffers();
            let k = idx as int;
            s.remove_ensures(k);
            assert(t == s.remove(k));
            assert forall|g: u32, c: u32| self.fb_backs(g, c) implies (old(self).fb_backs(g, c)
                && g != f) by {
                let j = choose|j: int| 0 <= j < t.len() && t[j].handle == g && t[j].buffer == c;
                let j0: int = if j < k {
                    j
                } else {
                    j + 1
                };
                assert(s[j0].handle == g && s[j0].buffer == c);
                assert(g != f);
                assert(old(self).fb_backs(g, c));
            }
            assert forall|g: u32, c: u32| old(self).fb_backs(g, c) && g != f implies self.fb_backs(
                g,
                c,
            ) by {
                let j0 = choose|j: int| 0 <= j < s.len() && s[j].handle == g && s[j].buffer == c;
                let j: int = if j0 < k {
                    j0
                } else {
                    j0 - 1
                };
                assert(t[j].handle == g && t[j].buffer == c);
            }
            assert forall|g: u32| self.fb_live(g) implies (old(self).fb_live(g) && g != f) by {
                let j = choose|j: int| 0 <= j < t.len() && t[j].handle == g;
                let j0: int = if j < k {
                    j
                } else {
                    j + 1
                };
                assert(s[j0].handle == g);
                assert(g != f);
            }
            assert forall|g: u32| old(self).fb_live(g) && g != f implies self.fb_live(g) by {
                let j0 = choose|j: int| 0 <= j < s.len() && s[j].handle == g;
                assert(j0 != k);
                let j: int = if j0 < k {
                    j0
                } else {
                    j0 - 1
                };
                assert(t[j].handle == g);
            }
            assert forall|c: u32| self.buffer_in_use(c) implies exists|g: u32|
                g != f && old(self).fb_backs(g, c) by {
                let j = choose|j: int| 0 <= j < t.len() && t[j].buffer == c;
                let g = t[j].handle;
                assert(self.fb_backs(g, c));
            }
            assert forall|c: u32| (exists|g: u32| g != f && old(self).fb_backs(g, c)) implies
                self.buffer_in_use(c) by {
                let g = choose|g: u32| g != f && old(self).fb_backs(g, c);
                assert(self.fb_backs(g, c));
                let j = choose|j: int| 0 <= j < t.len() && t[j].handle == g && t[j].buffer == c;
                assert(0 <= j < t.len() && t[j].buffer == c);
            }
            assert forall|i: int| 0 <= i < t.len() implies self.buffer_live(t[i].buffer) by {
                let j0: int = if i < k {
                    i
                } else {
                    i + 1
                };
                assert(t[i] == s[j0]);
                assert(old(self).buffer_live(s[j0].buffer));
            }
        }
        Ok(())
    }

    /// Destroys the dumb buffer `b`. A buffer still wrapped by a live
    /// framebuffer is in use: destroying it then is out of dependency order
    /// and is rejected with `HandleInUse`, leaving the registry unchanged.
    pub fn destroy_buffer(&mut self, b: u32) -> (r: Result<(), DisplayError>)
        requires
            old(self).wf(),
        ensures
            final(self).wf(),
            r == (if !old(self).buffer_live(b) {
                Err::<(), DisplayError>(DisplayError::UnknownHandle)
            } else if old(self).buffer_in_use(b) {
                Err::<(), DisplayError>(DisplayError::HandleInUse)
            } else {
                Ok::<(), DisplayError>(())
            }),
            r is Err ==> *final(self) == *old(self),
            final(self).framebuffers() == old(self).framebuffers(),
            r is Ok ==> forall|c: u32|
                final(self).buffer_live(c) <==> (old(self).buffer_live(c) && c != b),
    {
        let idx = match self.find_buffer_index(b) {
            Some(i) => i,
            None => {
                return Err(DisplayError::UnknownHandle);
            },
        };
        proof {
            assert(old(self).buffer_live(b));
        }
        if self.buffer_is_in_use(b) {
            return Err(DisplayError::HandleInUse);
        }
        self.buffers.remove(idx);
        proof {
            let s = old(self).buffers();
            let t = self.buffers();
            let k = idx as int;
            s.remove_ensures(k);
            assert forall|c: u32| self.buffer_live(c) implies (old(self).buffer_live(c) && c
                != b) by {
                let j = choose|j: int| 0 <= j < t.len() && t[j] == c;
                let j0: int = if j < k {
                    j
                } else {
                    j + 1
                };
                assert(s[j0] == c);
                assert(s.contains(c));
                assert(c != b);
            }
            assert forall|c: u32| old(self).buffer_live(c) && c != b implies self.buffer_live(
                c,
            ) by {
                let j0 = choose|j: int| 0 <= j < s.len() && s[j] == c;
                assert(j0 != k);
                let j: int = if j0 < k {
                    j0
                } else {
                    j0 - 1
                };
                assert(t[j] == c);
                assert(t.contains(c));
            }
            assert forall|i: int| 0 <= i < self.framebuffers().len() implies self.buffer_live(
                self.framebuffers()[i].buffer,
            ) by {
                assert(self.framebuffers()[i] == old(self).framebuffers()[i]);
                assert(old(self).buffer_live(old(self).framebuffers()[i].buffer));
                let c = old(self).framebuffers()[i].buffer;
                assert(c != b);
                assert(old(self).buffer_live(c) && c != b);
            }
        }
        Ok(())
    }
}

/// Destruction must follow dependency order. For a live framebuffer `f`
/// that alone wraps the live buffer `b`: destroying `b` first is rejected
/// as in-use, while destroying `f` first succeeds and leaves a state in
/// which destroying `b` succeeds too.
pub proof fn lemma_destruction_order(pre: BufferRegistry, mid: BufferRegistry, f: u32, b: u32)
    requires
        pre.wf(),
        pre.fb_backs(f, b),
        forall|g: u32| pre.fb_backs(g, b) ==> g == f,
        // `mid` is any state reached from `pre` by `destroy_framebuffer(f)`,
        // as its contract describes it:
        mid.buffers() == pre.buffers(),
        forall|c: u32| mid.buffer_in_use(c) <==> exists|g: u32| g != f && pre.fb_backs(g, c),
    ensures
        pre.fb_live(f),
        pre.buffer_in_use(b),
        mid.buffer_live(b),
        !mid.buffer_in_use(b),
{
    let i = choose|i: int|
        0 <= i < pre.framebuffers().len() && pre.framebuffers()[i].handle == f
            && pre.framebuffers()[i].buffer == b;
    assert(pre.fb_live(f));
    assert(pre.buffer_in_use(b));
    assert(pre.buffer_live(pre.framebuffers()[i].buffer));
    assert(mid.buffers().contains(b));
    if mid.buffer_in_use(b) {
        let g = choose|g: u32| g != f && pre.fb_backs(g, b);
        assert(g == f);
    }
}

} // verus!
