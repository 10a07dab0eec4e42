use vstd::prelude::*;
use crate::renderer::{
    Renderer, SurfaceError, SurfaceHandle, SurfaceState, after_create, after_destroy, can_create,
    is_idle, is_live,
};
use crate::window::{
    ButtonState, Control, EventReply, MouseButton, Window, batch_indices, batch_vertices, is_fresh,
};

verus! {

/// A platform event addressed to one window.
#[derive(Clone, Copy, Debug, PartialEq, Eq, Structural)]
pub enum Event {
    /// The native window `target` is ready for a surface.
    Create { target: u64 },
    Close,
    Redraw { width: u32, height: u32 },
    MouseMove { x: i32, y: i32 },
    MouseButton { button: MouseButton, state: ButtonState },
}

/// Why an event could not be handled.
#[derive(Clone, Copy, Debug, PartialEq, Eq, Structural)]
pub enum LoopError {
    /// No live window has the event's id; nothing changed.
    UnknownWindow,
    /// The window could not get its surface and was dropped; the loop goes on.
    CreateFailed(SurfaceError),
    /// Presenting a frame failed: fatal to the loop.
    RedrawFailed(SurfaceError),
}

/// A live window and the id events reach it by.
pub struct Entry {
    pub id: u64,
    pub window: Window,
}

/// The set of live windows, the renderer they share, and the dispatcher
/// that routes events to them.
pub struct EventLoop {
    renderer: Renderer,
    windows: Vec<Entry>,
    next_id: u64,
}

/// Whether entry `e`'s window presents on the surface with index `k`.
pub open spec fn owns(e: Entry, k: int) -> bool {
    e.window.surface is Some && e.window.surface->Some_0.index == k
}

pub open spec fn has_window(live: Seq<Entry>, id: u64) -> bool {
    exists|i: int| 0 <= i < live.len() && (#[trigger] live[i]).id == id
}

/// Where the window with `id` stands among the live ones.
pub open spec fn position(live: Seq<Entry>, id: u64) -> int {
    choose|i: int| 0 <= i < live.len() && (#[trigger] live[i]).id == id
}

/// The pool after a window presenting on `surface` (if any) is torn down.
pub open spec fn released(s: Seq<SurfaceState>, surface: Option<SurfaceHandle>) -> Seq<
    SurfaceState,
> {
    match surface {
        Some(h) => after_destroy(s, h),
        None => s,
    }
}

/// Entry `e` with its window's size recorded as `width` by `height`.
pub open spec fn resized(e: Entry, width: u32, height: u32) -> Entry {
    Entry {
        id: e.id,
        window: Window {
            surface: e.window.surface,
            width,
            height,
            content: e.window.content,
        },
    }
}

/// Entry `e` with its window presenting on surface `h`.
pub open spec fn with_surface(e: Entry, h: SurfaceHandle) -> Entry {
    Entry {
        id: e.id,
        window: Window {
            surface: Some(h),
            width: e.window.width,
            height: e.window.height,
            content: e.window.content,
        },
    }
}

/// `after` is `before` with its `i`-th window torn down and gone.
pub open spec fn closed(before: EventLoop, after: EventLoop, i: int) -> bool {
    &&& after.live() == before.live().remove(i)
    &&& after.pool().surfaces() == released(
        before.pool().surfaces(),
        before.live()[i].window.surface,
    )
    &&& after.pool().frames() == before.pool().frames()
    &&& after.next_window_id() == before.next_window_id()
}

/// `after` and `r` are what redrawing the `i`-th window of `before` at
/// `width` by `height` gives: the size is recorded, and when both dimensions
/// are positive one frame of the window's content is presented, which fails
/// only for a window that has no surface yet.
pub open spec fn redrawn(
    before: EventLoop,
    after: EventLoop,
    i: int,
    width: u32,
    height: u32,
    r: Result<(), LoopError>,
) -> bool {
    let w = before.live()[i].window;
    &&& after.live() == before.live().update(i, resized(before.live()[i], width, height))
    &&& after.pool().surfaces() == before.pool().surfaces()
    &&& after.next_window_id() == before.next_window_id()
    &&& (width == 0 || height == 0) ==> r is Ok && after.pool().frames() == before.pool().frames()
    &&& (width > 0 && height > 0 && w.surface is Some) ==> {
        &&& r is Ok
        &&& after.pool().frames().len() == before.pool().frames().len() + 1
        &&& after.pool().frames().drop_last() == before.pool().frames()
        &&& after.pool().frames().last().surface == w.surface->Some_0
        &&& after.pool().frames().last().vertices@ == batch_vertices(w.content@)
        &&& after.pool().frames().last().indices@ == batch_indices(w.content@)
    }
    &&& (width > 0 && height > 0 && w.surface is None) ==> r == Err::<(), LoopError>(
        LoopError::RedrawFailed(SurfaceError::StateViolation),
    ) && after.pool().frames() == before.pool().frames()
}

/// `after` and `r` are what delivering `Create { target }` to the `i`-th
/// window of `before` gives: a window without a surface gets a fresh one
/// bound to `target` when the target can take one; otherwise the window is
/// torn down and dropped.
pub open spec fn created(
    before: EventLoop,
    after: EventLoop,
    i: int,
    target: u64,
    r: Result<(), LoopError>,
) -> bool {
    let s = before.pool().surfaces();
    let w = before.live()[i].window;
    let ok = w.surface is None && can_create(s, target);
    &&& after.pool().frames() == before.pool().frames()
    &&& after.next_window_id() == before.next_window_id()
    &&& ok ==> r is Ok && after.live() == before.live().update(
        i,
        with_surface(before.live()[i], SurfaceHandle { index: s.len() as usize }),
    ) && after.pool().surfaces() == after_create(s, target)
    &&& (!ok && w.surface is Some) ==> r == Err::<(), LoopError>(
        LoopError::CreateFailed(SurfaceError::StateViolation),
    ) && closed(before, after, i)
    &&& (!ok && w.surface is None) ==> r == Err::<(), LoopError>(
        LoopError::CreateFailed(SurfaceError::AllocationFailure),
    ) && closed(before, after, i)
}

/// `after` is what a mouse button event on the `i`-th window of `before`
/// leads to: a released left button registers a fresh window with the same
/// content, if an id is left; a released right button closes the window;
/// anything else changes nothing.
pub open spec fn clicked(
    before: EventLoop,
    after: EventLoop,
    i: int,
    button: MouseButton,
    state: ButtonState,
) -> bool {
    let w = before.live()[i].window;
    &&& (button == MouseButton::Left && state == ButtonState::Released) ==> {
        &&& after.pool() == before.pool()
        &&& before.next_window_id() < u64::MAX ==> {
            &&& after.live().len() == before.live().len() + 1
            &&& after.live().drop_last() == before.live()
            &&& after.live().last().id == before.next_window_id()
            &&& is_fresh(after.live().last().window, w.content@)
        }
        &&& before.next_window_id() == u64::MAX ==> after.live() == before.live()
    }
    &&& (button == MouseButton::Right && state == ButtonState::Released) ==> closed(
        before,
        after,
        i,
    )
    &&& !(button != MouseButton::Middle && state == ButtonState::Released) ==> after.live()
        == before.live() && after.pool() == before.pool()
}

impl EventLoop {
    /// The live windows, in the order they were registered.
    pub closed spec fn live(&self) -> Seq<Entry> {
        self.windows@
    }

    /// The renderer the windows share.
    pub closed spec fn pool(&self) -> Renderer {
        self.renderer
    }

    /// The id the next registered window gets.
    pub closed spec fn next_window_id(&self) -> u64 {
        self.next_id
    }

    /// Ids are unique and fresh; every window's surface is live and idle and
    /// its own; and every live surface belongs to a live window.
    pub closed spec fn wf(&self) -> bool {
        let live = self.windows@;
        let s = self.renderer.surfaces();
        &&& forall|i: int|
            0 <= i < live.len() ==> (#[trigger] live[i]).window.wf() && live[i].id < self.next_id
        &&& forall|i: int, j: int|
            0 <= i < live.len() && 0 <= j < live.len() && i != j ==> (#[trigger] live[i]).id
                != (#[trigger] live[j]).id
        &&& forall|i: int|
            0 <= i < live.len() && (#[trigger] live[i]).window.surface is Some ==> is_idle(
                s,
                live[i].window.surface->Some_0,
            )
        &&& forall|i: int, j: int|
            0 <= i < live.len() && 0 <= j < live.len() && i != j && (#[trigger] live[i]).window.surface is Some
                ==> (#[trigger] live[j]).window.surface != live[i].window.surface
        &&& forall|k: int|
            0 <= k < s.len() && (#[trigger] s[k]) is Live ==> exists|j: int|
                0 <= j < live.len() && #[trigger] owns(live[j], k)
    }

    /// An event loop with no windows, over a fresh renderer.
    pub fn new() -> (r: EventLoop)
        ensures
            r.wf(),
            r.live().len() == 0,
            r.next_window_id() == 0,
            r.pool().surfaces().len() == 0,
            r.pool().frames().len() == 0,
    {
        EventLoop { renderer: Renderer::new(), windows: Vec::new(), next_id: 0 }
    }

    /// Registers a window that has no surface yet; its `Create` event follows
    /// once the platform has made it. Fails, dropping the window, only when
    /// the ids have run out.
    pub fn create_window(&mut self, window: Window) -> (r: Option<u64>)
        requires
            old(self).wf(),
            window.wf(),
            window.surface is None,
        ensures
            final(self).wf(),
            final(self).pool() == old(self).pool(),
            old(self).next_window_id() < u64::MAX ==> r == Some(old(self).next_window_id())
                && final(self).live() == old(self).live().push(
                Entry { id: old(self).next_window_id(), window },
            ) && final(self).live().drop_last() == old(self).live()
                && final(self).next_window_id() == old(self).next_window_id() + 1,
            old(self).next_window_id() == u64::MAX ==> r is None && final(self).live() == old(
                self,
            ).live() && final(self).next_window_id() == old(self).next_window_id(),
    {
        if self.next_id == u64::MAX {
            return None;
        }
        let id = self.next_id;
        self.windows.push(Entry { id, window });
        self.next_id = id + 1;
        assert(self.windows@.drop_last() =~= old(self).windows@);
        proof {
            let live = self.windows@;
            let s = self.renderer.surfaces();
            let n = old(self).windows@.len() as int;
            assert forall|k: int| 0 <= k < s.len() && (#[trigger] s[k]) is Live implies exists|
                j: int,
            | 0 <= j < live.len() && #[trigger] owns(live[j], k) by {
                let j = choose|j: int| 0 <= j < n && #[trigger] owns(old(self).windows@[j], k);
                assert(live[j] == old(self).windows@[j]);
                assert(owns(live[j], k));
            }
        }
        Some(id)
    }

    /// The index of the live window with `id`, if there is one.
    fn find(&self, id: u64) -> (r: Option<usize>)
        requires
            self.wf(),
        ensures
            r is None <==> !has_window(self.live(), id),
            r is Some ==> r->Some_0 == position(self.live(), id) && r->Some_0 < self.live().len(),
    {
        let mut i: usize = 0;
        while i < self.windows.len()
            invariant
                self.wf(),
                i <= self.windows@.len(),
                forall|j: int| 0 <= j < i ==> (#[trigger] self.windows@[j]).id != id,
            decreases self.windows@.len() - i,
        {
            if self.windows[i].id == id {
                proof {
                    assert(self.windows@[i as int].id == id);
                    assert(has_window(self.windows@, id));
                    let p = position(self.windows@, id);
                    assert(self.windows@[p].id == id);
                    assert(p == i);
                }
                return Some(i);
            }
            i = i + 1;
        }
        None
    }

    /// Tears down the `i`-th window and takes it out of the live set.
    fn destroy_at(&mut self, i: usize)
        requires
            old(self).wf(),
            i < old(self).live().len(),
        ensures
            final(self).wf(),
            final(self).live() == old(self).live().remove(i as int),
            final(self).next_window_id() == old(self).next_window_id(),
            final(self).pool().surfaces() == released(
                old(self).pool().surfaces(),
                old(self).live()[i as int].window.surface,
            ),
            final(self).pool().frames() == old(self).pool().frames(),
    {
        let mut entry = self.windows.remove(i);
        let ghost old_entry = entry;
        let _ = entry.window.teardown(&mut self.renderer);
        proof {
            let ol = old(self).windows@;
            let live = self.windows@;
            let os = old(self).renderer.surfaces();
            let s = self.renderer.surfaces();
            assert(live == ol.remove(i as int));
            assert forall|a: int|
                0 <= a < live.len() && (#[trigger] live[a]).window.surface is Some implies is_idle(
                s,
                live[a].window.surface->Some_0,
            ) by {
                let oa = if a < i { a } else { a + 1 };
                assert(live[a] == ol[oa]);
                assert(ol[oa].window.surface != ol[i as int].window.surface);
            }
            assert forall|k: int| 0 <= k < s.len() && (#[trigger] s[k]) is Live implies exists|
                j: int,
            | 0 <= j < live.len() && #[trigger] owns(live[j], k) by {
                assert(os[k] is Live);
                let j = choose|j: int| 0 <= j < ol.len() && #[trigger] owns(ol[j], k);
                assert(j != i);
                let nj = if j < i { j } else { j - 1 };
                assert(live[nj] == ol[j]);
                assert(owns(live[nj], k));
            }
            assert forall|a: int, b: int|
                0 <= a < live.len() && 0 <= b < live.len() && a != b implies (#[trigger] live[a]).id
                != (#[trigger] live[b]).id by {
                let oa = if a < i { a } else { a + 1 };
                let ob = if b < i { b } else { b + 1 };
                assert(live[a] == ol[oa] && live[b] == ol[ob]);
            }
            assert forall|a: int, b: int|
                0 <= a < live.len() && 0 <= b < live.len() && a != b && (#[trigger] live[a]).window.surface is Some
                    implies (#[trigger] live[b]).window.surface != live[a].window.surface by {
                let oa = if a < i { a } else { a + 1 };
                let ob = if b < i { b } else { b + 1 };
                assert(live[a] == ol[oa] && live[b] == ol[ob]);
            }
        }
    }

    /// Delivers `Redraw` to the `i`-th window.
    fn redraw_at(&mut self, i: usize, width: u32, height: u32) -> (r: Result<(), LoopError>)
        requires
            old(self).wf(),
            i < old(self).live().len(),
        ensures
            final(self).wf(),
            redrawn(*old(self), *final(self), i as int, width, height, r),
    {
        let mut entry = self.windows.remove(i);
        let res = entry.window.on_redraw(&mut self.renderer, width, height);
        self.windows.insert(i, entry);
        proof {
            let ol = old(self).windows@;
            let live = self.windows@;
            assert(live =~= ol.update(i as int, resized(ol[i as int], width, height)));
            assert forall|k: int|
                0 <= k < self.renderer.surfaces().len() && (#[trigger] self.renderer.surfaces()[k]) is Live
                implies exists|j: int| 0 <= j < live.len() && #[trigger] owns(live[j], k) by {
                let j = choose|j: int| 0 <= j < ol.len() && #[trigger] owns(ol[j], k);
                assert(owns(live[j], k));
            }
        }
        match res {
            Ok(_) => Ok(()),
            Err(e) => Err(LoopError::RedrawFailed(e)),
        }
    }

    /// Delivers `Create` to the `i`-th window; a window that cannot get its
    /// surface is torn down and dropped.
    fn create_at(&mut self, i: usize, target: u64) -> (r: Result<(), LoopError>)
        requires
            old(self).wf(),
            i < old(self).live().len(),
        ensures
            final(self).wf(),
            created(*old(self), *final(self), i as int, target, r),
    {
        let mut entry = self.windows.remove(i);
        let ghost n = self.renderer.surfaces().len();
        let res = entry.window.on_create(&mut self.renderer, target);
        self.windows.insert(i, entry);
        let ghost ol = old(self).windows@;
        match res {
            Ok(_) => {
                proof {
                    let live = self.windows@;
                    let s = self.renderer.surfaces();
                    let h = self.windows@[i as int].window.surface->Some_0;
                    assert(h.index == n);
                    assert(live =~= ol.update(i as int, with_surface(ol[i as int], h)));
                    assert forall|a: int|
                        0 <= a < live.len() && (#[trigger] live[a]).window.surface is Some
                        implies is_idle(s, live[a].window.surface->Some_0) by {
                        if a != i {
                            assert(live[a] == ol[a]);
                        }
                    }
                    assert forall|a: int, b: int|
                        0 <= a < live.len() && 0 <= b < live.len() && a != b && (#[trigger] live[a]).window.surface is Some
                        implies (#[trigger] live[b]).window.surface != live[a].window.surface by {
                        if a != i && b != i {
                            assert(live[a] == ol[a] && live[b] == ol[b]);
                        } else if a == i {
                            assert(live[b] == ol[b]);
                        } else {
                            assert(live[a] == ol[a]);
                        }
                    }
                    assert forall|a: int, b: int|
                        0 <= a < live.len() && 0 <= b < live.len() && a != b implies (#[trigger] live[a]).id
                        != (#[trigger] live[b]).id by {
                        assert(live[a].id == ol[a].id && live[b].id == ol[b].id);
                    }
                    assert forall|k: int| 0 <= k < s.len() && (#[trigger] s[k]) is Live implies exists|
                        j: int,
                    | 0 <= j < live.len() && #[trigger] owns(live[j], k) by {
                        if k == n {
                            assert(owns(live[i as int], k));
                        } else {
                            assert(old(self).renderer.surfaces()[k] is Live);
                            let j = choose|j: int| 0 <= j < ol.len() && #[trigger] owns(ol[j], k);
                            assert(j != i);
                            assert(owns(live[j], k));
                        }
                    }
                }
                Ok(())
            },
            Err(e) => {
                proof {
                    assert(self.windows@ =~= ol);
                }
                self.destroy_at(i);
                Err(LoopError::CreateFailed(e))
            },
        }
    }

    /// Routes `event` to the window with `id` and carries out what its
    /// handler replies: a window asked for is registered, and a window that
    /// is to be destroyed is torn down and leaves the live set.
    pub fn dispatch(&mut self, id: u64, event: Event) -> (r: Result<(), LoopError>)
        requires
            old(self).wf(),
        ensures
            final(self).wf(),
            !has_window(old(self).live(), id) ==> r == Err::<(), LoopError>(LoopError::UnknownWindow)
                && final(self).live() == old(self).live() && final(self).pool() == old(self).pool()
                && final(self).next_window_id() == old(self).next_window_id(),
            has_window(old(self).live(), id) ==> {
                let i = position(old(self).live(), id);
                match event {
                    Event::Create { target } => created(*old(self), *final(self), i, target, r),
                    Event::Close => closed(*old(self), *final(self), i) && r is Ok,
                    Event::Redraw { width, height } => redrawn(*old(self), *final(self), i, width, height, r),
                    Event::MouseMove { .. } => r is Ok && final(self).live() == old(self).live()
                        && final(self).pool() == old(self).pool(),
                    Event::MouseButton { button, state } => r is Ok && clicked(
                        *old(self),
                        *final(self),
                        i,
                        button,
                        state,
                    ),
                }
            },
    {
        let i = match self.find(id) {
            Some(i) => i,
            None => {
                return Err(LoopError::UnknownWindow);
            },
        };
        match event {
            Event::Create { target } => self.create_at(i, target),
            Event::Close => {
                let reply = self.windows[i].window.on_close();
                if reply == EventReply::DestroyWindow {
                    self.destroy_at(i);
                }
                Ok(())
            },
            Event::Redraw { width, height } => self.redraw_at(i, width, height),
            Event::MouseMove { x, y } => {
                let _ = self.windows[i].window.on_mouse_move(x, y);
                Ok(())
            },
            Event::MouseButton { button, state } => {
                let mut control = Control::new();
                let reply = self.windows[i].window.on_mouse_button(&mut control, button, state);
                if control.requested.len() == 1 {
                    let w = control.requested.remove(0);
                    let _ = self.create_window(w);
                }
                if reply == EventReply::DestroyWindow {
                    self.destroy_at(i);
                }
                Ok(())
            },
        }
    }

    /// Tears down every window, as when the loop is shut down: afterwards no
    /// window is live and no surface is left live.
    pub fn shutdown(&mut self)
        requires
            old(self).wf(),
        ensures
            final(self).wf(),
            final(self).live().len() == 0,
            final(self).pool().frames() == old(self).pool().frames(),
            forall|h: SurfaceHandle| !is_live(#[trigger] final(self).pool().surfaces(), h),
    {
        while self.windows.len() > 0
            invariant
                self.wf(),
                self.renderer.frames() == old(self).renderer.frames(),
            decreases self.windows@.len(),
        {
            let last = self.windows.len() - 1;
            self.destroy_at(last);
        }
        proof {
            assert forall|h: SurfaceHandle| !is_live(#[trigger] self.renderer.surfaces(), h) by {
                lemma_no_leak_when_finished(*self, h);
            }
        }
    }

    /// Delivers `events` in order, each to the window it names, until no
    /// window is left. Events for windows that are gone, and windows that
    /// fail to get a surface, are passed over. A failed redraw is fatal: every
    /// window is torn down and the error returned. On success, returns how
    /// many events were delivered.
    pub fn run(&mut self, events: &Vec<(u64, Event)>) -> (r: Result<usize, LoopError>)
        requires
            old(self).wf(),
        ensures
            final(self).wf(),
            r is Ok ==> r->Ok_0 <= events@.len(),
            r is Ok ==> r->Ok_0 == events@.len() || final(self).live().len() == 0,
            r is Err ==> r->Err_0 is RedrawFailed && final(self).live().len() == 0,
            final(self).live().len() == 0 ==> forall|h: SurfaceHandle|
                !is_live(#[trigger] final(self).pool().surfaces(), h),
    {
        let mut n: usize = 0;
        while n < events.len() && self.windows.len() > 0
            invariant
                self.wf(),
                n <= events@.len(),
            decreases events@.len() - n,
        {
            let (id, event) = events[n];
            n = n + 1;
            match self.dispatch(id, event) {
                Err(LoopError::RedrawFailed(e)) => {
                    self.shutdown();
                    return Err(LoopError::RedrawFailed(e));
                },
                _ => {},
            }
        }
        proof {
            if self.windows@.len() == 0 {
                assert forall|h: SurfaceHandle| !is_live(#[trigger] self.renderer.surfaces(), h) by {
                    lemma_no_leak_when_finished(*self, h);
                }
            }
        }
        Ok(n)
    }

    /// Whether the last window has gone: the loop is over.
    pub fn is_finished(&self) -> (r: bool)
        ensures
            r == (self.live().len() == 0),
    {
        self.windows.len() == 0
    }

    /// How many windows are live.
    pub fn live_count(&self) -> (r: usize)
        ensures
            r == self.live().len(),
    {
        self.windows.len()
    }

    /// The renderer the windows share.
    pub fn renderer(&self) -> (r: &Renderer)
        ensures
            *r == self.pool(),
    {
        &self.renderer
    }
}

/// Once every window has been closed, no surface is left live: each one
/// that was created has been destroyed.
pub proof fn lemma_no_leak_when_finished(el: EventLoop, h: SurfaceHandle)
    requires
        el.wf(),
        el.live().len() == 0,
    ensures
        !is_live(el.pool().surfaces(), h),
{
    let s = el.pool().surfaces();
    if is_live(s, h) {
        assert(s[h.index as int] is Live);
    }
}

/// Closing one window leaves every other one live and untouched: it keeps
/// its id, its size, its content and its surface, and with it the ability to
/// redraw.
pub proof fn lemma_close_keeps_siblings(before: EventLoop, after: EventLoop, i: int, j: int)
    requires
        closed(before, after, i),
        0 <= i < before.live().len(),
        0 <= j < before.live().len(),
        j != i,
    ensures
        after.live().len() == before.live().len() - 1,
        after.live()[if j < i { j } else { j - 1 }] == before.live()[j],
{
}

} // verus!
