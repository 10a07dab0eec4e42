use vstd::prelude::*;
use crate::geometry::Vertex;

verus! {

/// Names one presentation surface of a `Renderer`. Handles are never reused:
/// once a surface is destroyed its handle stays invalid.
#[derive(Clone, Copy, Debug, PartialEq, Eq, Structural)]
pub struct SurfaceHandle {
    pub index: usize,
}

/// Where a surface stands in its lifecycle.
#[derive(Clone, Copy, Debug, PartialEq, Eq, Structural)]
pub enum SurfaceState {
    /// Bound to the native window `target`; `in_frame` while a frame has begun
    /// and not yet ended.
    Live { target: u64, in_frame: bool },
    /// Released. No operation on the surface succeeds any more.
    Destroyed,
}

/// Why a surface operation failed.
#[derive(Clone, Copy, Debug, PartialEq, Eq, Structural)]
pub enum SurfaceError {
    /// The native target is invalid, or already has a live surface.
    AllocationFailure,
    /// The surface is in the wrong lifecycle state for the operation.
    StateViolation,
}

/// One batch submitted for presentation by `end_frame`.
pub struct Frame {
    pub surface: SurfaceHandle,
    pub vertices: Vec<Vertex>,
    pub indices: Vec<u16>,
}

/// The shared pool of presentation surfaces, and the frames presented on them.
pub struct Renderer {
    surfaces: Vec<SurfaceState>,
    frames: Vec<Frame>,
}

/// The state of surface `h` in the pool `s`, if `h` was ever handed out.
pub open spec fn state_of(s: Seq<SurfaceState>, h: SurfaceHandle) -> Option<SurfaceState> {
    if h.index < s.len() {
        Some(s[h.index as int])
    } else {
        None
    }
}

pub open spec fn is_live(s: Seq<SurfaceState>, h: SurfaceHandle) -> bool {
    state_of(s, h) matches Some(SurfaceState::Live { .. })
}

pub open spec fn is_idle(s: Seq<SurfaceState>, h: SurfaceHandle) -> bool {
    state_of(s, h) matches Some(SurfaceState::Live { in_frame: false, .. })
}

pub open spec fn is_in_frame(s: Seq<SurfaceState>, h: SurfaceHandle) -> bool {
    state_of(s, h) matches Some(SurfaceState::Live { in_frame: true, .. })
}

pub open spec fn is_destroyed(s: Seq<SurfaceState>, h: SurfaceHandle) -> bool {
    state_of(s, h) == Some(SurfaceState::Destroyed)
}

/// Whether some live surface of the pool is bound to `target`.
pub open spec fn target_in_use(s: Seq<SurfaceState>, target: u64) -> bool {
    exists|i: int| 0 <= i < s.len() && #[trigger] s[i] is Live && s[i]->target == target
}

/// Whether a surface can be created for `target`: it is a real window
/// (not the null handle) and has no live surface yet.
pub open spec fn can_create(s: Seq<SurfaceState>, target: u64) -> bool {
    target != 0 && !target_in_use(s, target)
}

/// The pool after a successful `create_swapchain(target)`.
pub open spec fn after_create(s: Seq<SurfaceState>, target: u64) -> Seq<SurfaceState> {
    if can_create(s, target) {
        s.push(SurfaceState::Live { target, in_frame: false })
    } else {
        s
    }
}

/// The pool after `begin_frame(h)`: unchanged where it fails.
pub open spec fn after_begin(s: Seq<SurfaceState>, h: SurfaceHandle) -> Seq<SurfaceState> {
    if is_idle(s, h) {
        s.update(h.index as int, SurfaceState::Live { target: s[h.index as int]->target, in_frame: true })
    } else {
        s
    }
}

/// The pool after `end_frame(h, ..)`: unchanged where it fails.
pub open spec fn after_end(s: Seq<SurfaceState>, h: SurfaceHandle) -> Seq<SurfaceState> {
    if is_in_frame(s, h) {
        s.update(h.index as int, SurfaceState::Live { target: s[h.index as int]->target, in_frame: false })
    } else {
        s
    }
}

/// The pool after `destroy_swapchain(h)`: unchanged where it fails.
pub open spec fn after_destroy(s: Seq<SurfaceState>, h: SurfaceHandle) -> Seq<SurfaceState> {
    if is_live(s, h) {
        s.update(h.index as int, SurfaceState::Destroyed)
    } else {
        s
    }
}

/// Success when `ok`, else a state violation.
pub open spec fn state_result(ok: bool) -> Result<(), SurfaceError> {
    if ok {
        Ok(())
    } else {
        Err(SurfaceError::StateViolation)
    }
}

impl Renderer {
    /// The lifecycle state of every surface ever created, indexed by handle.
    pub closed spec fn surfaces(&self) -> Seq<SurfaceState> {
        self.surfaces@
    }

    /// Every frame presented so far, oldest first.
    pub closed spec fn frames(&self) -> Seq<Frame> {
        self.frames@
    }

    /// A renderer with no surfaces and no frames.
    pub fn new() -> (r: Renderer)
        ensures
            r.surfaces() == Seq::<SurfaceState>::empty(),
            r.frames().len() == 0,
    {
        Renderer { surfaces: Vec::new(), frames: Vec::new() }
    }

    /// Allocates a surface bound to the native window `target`, idle and with
    /// a fresh handle. Fails when `target` is the null window or already has
    /// a live surface.
    pub fn create_swapchain(&mut self, target: u64) -> (r: Result<SurfaceHandle, SurfaceError>)
        ensures
            final(self).surfaces() == after_create(old(self).surfaces(), target),
            final(self).frames() == old(self).frames(),
            can_create(old(self).surfaces(), target) <==> r is Ok,
            r is Ok ==> r->Ok_0 == (SurfaceHandle { index: old(self).surfaces().len() as usize })
                && r->Ok_0.index == old(self).surfaces().len(),
            r is Err ==> r->Err_0 == SurfaceError::AllocationFailure,
    {
        if target == 0 {
            return Err(SurfaceError::AllocationFailure);
        }
        let mut i: usize = 0;
        while i < self.surfaces.len()
            invariant
                self.surfaces@ == old(self).surfaces@,
                self.frames@ == old(self).frames@,
                i <= self.surfaces.len(),
                forall|j: int|
                    0 <= j < i ==> !(#[trigger] self.surfaces@[j] is Live && self.surfaces@[j]->target
                        == target),
            decreases self.surfaces.len() - i,
        {
            if let SurfaceState::Live { target: t, .. } = self.surfaces[i] {
                if t == target {
                    assert(target_in_use(self.surfaces@, target));
                    return Err(SurfaceError::AllocationFailure);
                }
            }
            i = i + 1;
        }
        let h = SurfaceHandle { index: self.surfaces.len() };
        self.surfaces.push(SurfaceState::Live { target, in_frame: false });
        Ok(h)
    }

    /// Releases the surface `h`. Fails, changing nothing, unless `h` is live.
    pub fn destroy_swapchain(&mut self, h: SurfaceHandle) -> (r: Result<(), SurfaceError>)
        ensures
            final(self).surfaces() == after_destroy(old(self).surfaces(), h),
            final(self).frames() == old(self).frames(),
            r == state_result(is_live(old(self).surfaces(), h)),
    {
        if h.index < self.surfaces.len() {
            if let SurfaceState::Live { .. } = self.surfaces[h.index] {
                self.surfaces[h.index] = SurfaceState::Destroyed;
                return Ok(());
            }
        }
        Err(SurfaceError::StateViolation)
    }

    /// Starts a frame on the idle surface `h`. Fails, changing nothing, when
    /// `h` is not live or a frame has already begun on it.
    pub fn begin_frame(&mut self, h: SurfaceHandle) -> (r: Result<(), SurfaceError>)
        ensures
            final(self).surfaces() == after_begin(old(self).surfaces(), h),
            final(self).frames() == old(self).frames(),
            r == state_result(is_idle(old(self).surfaces(), h)),
    {
        if h.index < self.surfaces.len() {
            if let SurfaceState::Live { target, in_frame: false } = self.surfaces[h.index] {
                self.surfaces[h.index] = SurfaceState::Live { target, in_frame: true };
                return Ok(());
            }
        }
        Err(SurfaceError::StateViolation)
    }

    /// Presents the batch on surface `h` and ends the frame begun there.
    /// Fails, changing nothing, unless a frame has begun on `h`.
    pub fn end_frame(&mut self, h: SurfaceHandle, vertices: Vec<Vertex>, indices: Vec<u16>) -> (r:
        Result<(), SurfaceError>)
        ensures
            final(self).surfaces() == after_end(old(self).surfaces(), h),
            r == state_result(is_in_frame(old(self).surfaces(), h)),
            r is Ok ==> final(self).frames().len() == old(self).frames().len() + 1
                && final(self).frames().drop_last() == old(self).frames()
                && final(self).frames().last().surface == h
                && final(self).frames().last().vertices@ == vertices@
                && final(self).frames().last().indices@ == indices@,
            r is Err ==> final(self).frames() == old(self).frames(),
    {
        if h.index < self.surfaces.len() {
            if let SurfaceState::Live { target, in_frame: true } = self.surfaces[h.index] {
                self.surfaces[h.index] = SurfaceState::Live { target, in_frame: false };
                self.frames.push(Frame { surface: h, vertices, indices });
                assert(self.frames@.drop_last() =~= old(self).frames@);
                return Ok(());
            }
        }
        Err(SurfaceError::StateViolation)
    }

    /// The state of surface `h`, or `None` for a handle never handed out.
    pub fn surface_state(&self, h: SurfaceHandle) -> (r: Option<SurfaceState>)
        ensures
            r == state_of(self.surfaces(), h),
    {
        if h.index < self.surfaces.len() {
            Some(self.surfaces[h.index])
        } else {
            None
        }
    }

    /// How many frames have been presented.
    pub fn frame_count(&self) -> (r: usize)
        ensures
            r == self.frames().len(),
    {
        self.frames.len()
    }

    /// The `i`-th frame presented, oldest first.
    pub fn frame(&self, i: usize) -> (r: &Frame)
        requires
            i < self.frames().len(),
        ensures
            *r == self.frames()[i as int],
    {
        &self.frames[i]
    }
}

/// The frame protocol on one surface: on an idle surface a `begin_frame`
/// succeeds, a second `begin_frame` before the `end_frame` fails, and the
/// `end_frame` succeeds and leaves the pool as it was.
pub proof fn lemma_frame_protocol(s: Seq<SurfaceState>, h: SurfaceHandle)
    requires
        is_idle(s, h),
    ensures
        state_result(is_idle(s, h)) is Ok,
        state_result(is_idle(after_begin(s, h), h)) == Err::<(), SurfaceError>(
            SurfaceError::StateViolation,
        ),
        state_result(is_in_frame(after_begin(s, h), h)) is Ok,
        after_end(after_begin(s, h), h) == s,
{
    assert(after_end(after_begin(s, h), h) =~= s);
}

/// Once a surface is destroyed, every operation on its handle fails and
/// leaves it destroyed, whatever else is created meanwhile.
pub proof fn lemma_destroyed_is_terminal(s: Seq<SurfaceState>, h: SurfaceHandle, target: u64)
    requires
        is_destroyed(s, h),
    ensures
        state_result(is_idle(s, h)) is Err,
        state_result(is_in_frame(s, h)) is Err,
        state_result(is_live(s, h)) is Err,
        is_destroyed(after_begin(s, h), h),
        is_destroyed(after_end(s, h), h),
        is_destroyed(after_destroy(s, h), h),
        is_destroyed(after_create(s, target), h),
{
}

/// A successful `destroy_swapchain` leaves the surface destroyed.
pub proof fn lemma_destroy_then_fails(s: Seq<SurfaceState>, h: SurfaceHandle)
    requires
        is_live(s, h),
    ensures
        is_destroyed(after_destroy(s, h), h),
        state_result(is_live(after_destroy(s, h), h)) is Err,
{
}

} // verus!
