use vstd::prelude::*;
use crate::geometry::{
    Color, MAX_VERTICES, Rect, Shape, Vertex, quad_indices, rect_vertices,
};
use crate::renderer::{
    Renderer, SurfaceError, SurfaceHandle, after_begin, after_create, after_destroy, after_end,
    can_create, is_idle, is_live, state_result,
};

verus! {

/// Most shapes a window can draw: four vertices each must stay addressable
/// by 16-bit indices.
pub const MAX_SHAPES: usize = 16384;

/// What a handler tells the event loop to do with its window.
#[derive(Clone, Copy, Debug, PartialEq, Eq, Structural)]
pub enum EventReply {
    Continue,
    DestroyWindow,
}

#[derive(Clone, Copy, Debug, PartialEq, Eq, Structural)]
pub enum MouseButton {
    Left,
    Right,
    Middle,
}

#[derive(Clone, Copy, Debug, PartialEq, Eq, Structural)]
pub enum ButtonState {
    Pressed,
    Released,
}

/// One on-screen window: the surface it presents on (once created), its last
/// recorded size, and the shapes it draws on each redraw.
pub struct Window {
    pub surface: Option<SurfaceHandle>,
    pub width: u32,
    pub height: u32,
    pub content: Vec<Shape>,
}

/// Structural commands a handler hands back to the event loop: the windows
/// it asks to have created.
pub struct Control {
    pub requested: Vec<Window>,
}

/// The vertices of a batch drawing `shapes` in order.
pub open spec fn batch_vertices(shapes: Seq<Shape>) -> Seq<Vertex>
    decreases shapes.len(),
{
    if shapes.len() == 0 {
        Seq::empty()
    } else {
        batch_vertices(shapes.drop_last()) + rect_vertices(shapes.last().rect, shapes.last().color)
    }
}

/// The indices of a batch drawing `shapes` in order.
pub open spec fn batch_indices(shapes: Seq<Shape>) -> Seq<u16>
    decreases shapes.len(),
{
    if shapes.len() == 0 {
        Seq::empty()
    } else {
        batch_indices(shapes.drop_last()) + quad_indices(4 * (shapes.len() - 1) as nat)
    }
}

/// A batch holds four vertices per shape.
pub proof fn lemma_batch_vertices_len(shapes: Seq<Shape>)
    ensures
        batch_vertices(shapes).len() == 4 * shapes.len(),
    decreases shapes.len(),
{
    if shapes.len() > 0 {
        lemma_batch_vertices_len(shapes.drop_last());
    }
}

/// The window a new one starts from: not yet created, not yet sized.
pub open spec fn is_fresh(w: Window, content: Seq<Shape>) -> bool {
    w.surface is None && w.width == 0 && w.height == 0 && w.content@ == content
}

/// The red column every plain window draws.
pub open spec fn default_content() -> Seq<Shape> {
    seq![
        Shape {
            rect: Rect { top: 0, left: 100, bottom: 984, right: 200 },
            color: Color { r: 255, g: 0, b: 0, a: 255 },
        },
    ]
}

/// Builds the frame batch for `shapes`, each drawn in turn into one pair of
/// vertex and index sequences.
pub fn build_batch(shapes: &Vec<Shape>) -> (r: (Vec<Vertex>, Vec<u16>))
    requires
        shapes@.len() <= MAX_SHAPES,
    ensures
        r.0@ == batch_vertices(shapes@),
        r.1@ == batch_indices(shapes@),
{
    let mut vertices: Vec<Vertex> = Vec::new();
    let mut indices: Vec<u16> = Vec::new();
    let mut i: usize = 0;
    while i < shapes.len()
        invariant
            i <= shapes@.len() <= MAX_SHAPES,
            vertices@ == batch_vertices(shapes@.take(i as int)),
            indices@ == batch_indices(shapes@.take(i as int)),
        decreases shapes@.len() - i,
    {
        proof {
            lemma_batch_vertices_len(shapes@.take(i as int));
            assert(shapes@.take(i + 1).drop_last() =~= shapes@.take(i as int));
        }
        let shape = shapes[i];
        shape.rect.draw(shape.color, &mut vertices, &mut indices);
        i = i + 1;
    }
    assert(shapes@.take(i as int) =~= shapes@);
    (vertices, indices)
}

impl Window {
    /// Whether the window's content fits in one batch.
    pub open spec fn wf(&self) -> bool {
        self.content@.len() <= MAX_SHAPES
    }

    /// A fresh window drawing `default_content`.
    pub fn new() -> (w: Window)
        ensures
            is_fresh(w, default_content()),
            w.wf(),
    {
        let mut content: Vec<Shape> = Vec::new();
        content.push(
            Shape {
                rect: Rect { top: 0, left: 100, bottom: 984, right: 200 },
                color: Color { r: 255, g: 0, b: 0, a: 255 },
            },
        );
        assert(content@ =~= default_content());
        Window { surface: None, width: 0, height: 0, content }
    }

    /// A fresh window drawing `content`.
    pub fn with_content(content: Vec<Shape>) -> (w: Window)
        requires
            content@.len() <= MAX_SHAPES,
        ensures
            is_fresh(w, content@),
            w.wf(),
    {
        Window { surface: None, width: 0, height: 0, content }
    }

    /// The platform has made the native window `target`: obtain its surface.
    /// A window that already has a surface keeps it and fails with a state
    /// violation; a failed allocation leaves the window without one.
    pub fn on_create(&mut self, renderer: &mut Renderer, target: u64) -> (r: Result<
        EventReply,
        SurfaceError,
    >)
        ensures
            final(self).width == old(self).width,
            final(self).height == old(self).height,
            final(self).content == old(self).content,
            final(renderer).frames() == old(renderer).frames(),
            old(self).surface is Some ==> r == Err::<EventReply, SurfaceError>(
                SurfaceError::StateViolation,
            ) && final(self).surface == old(self).surface && *final(renderer) == *old(renderer),
            old(self).surface is None ==> {
                &&& final(renderer).surfaces() == after_create(old(renderer).surfaces(), target)
                &&& can_create(old(renderer).surfaces(), target) ==> r == Ok::<
                    EventReply,
                    SurfaceError,
                >(EventReply::Continue) && final(self).surface == Some(
                    SurfaceHandle { index: old(renderer).surfaces().len() as usize },
                ) && final(self).surface->Some_0.index == old(renderer).surfaces().len()
                &&& !can_create(old(renderer).surfaces(), target) ==> r == Err::<
                    EventReply,
                    SurfaceError,
                >(SurfaceError::AllocationFailure) && final(self).surface is None
            },
    {
        if self.surface.is_some() {
            return Err(SurfaceError::StateViolation);
        }
        match renderer.create_swapchain(target) {
            Ok(h) => {
                self.surface = Some(h);
                Ok(EventReply::Continue)
            },
            Err(e) => Err(e),
        }
    }

    /// The user asked to close the window: have it destroyed.
    pub fn on_close(&self) -> (r: EventReply)
        ensures
            r == EventReply::DestroyWindow,
    {
        EventReply::DestroyWindow
    }

    /// Records the new size and, when both dimensions are positive, presents
    /// one frame of the window's content on its surface. A window without a
    /// surface, or whose surface is not idle, fails with a state violation
    /// and presents nothing.
    pub fn on_redraw(&mut self, renderer: &mut Renderer, width: u32, height: u32) -> (r: Result<
        EventReply,
        SurfaceError,
    >)
        requires
            old(self).wf(),
        ensures
            final(self).width == width,
            final(self).height == height,
            final(self).surface == old(self).surface,
            final(self).content == old(self).content,
            final(renderer).surfaces() == old(renderer).surfaces(),
            (width == 0 || height == 0) ==> r == Ok::<EventReply, SurfaceError>(
                EventReply::Continue,
            ) && final(renderer).frames() == old(renderer).frames(),
            (width > 0 && height > 0) ==> {
                let ok = old(self).surface is Some && is_idle(
                    old(renderer).surfaces(),
                    old(self).surface->Some_0,
                );
                &&& ok ==> r == Ok::<EventReply, SurfaceError>(EventReply::Continue)
                    && final(renderer).frames().len() == old(renderer).frames().len() + 1
                    && final(renderer).frames().drop_last() == old(renderer).frames()
                    && final(renderer).frames().last().surface == old(self).surface->Some_0
                    && final(renderer).frames().last().vertices@ == batch_vertices(
                    old(self).content@,
                ) && final(renderer).frames().last().indices@ == batch_indices(
                    old(self).content@,
                )
                &&& !ok ==> r == Err::<EventReply, SurfaceError>(SurfaceError::StateViolation)
                    && final(renderer).frames() == old(renderer).frames()
            },
    {
        if width != self.width || height != self.height {
            self.width = width;
            self.height = height;
        }
        if width > 0 && height > 0 {
            let h = match self.surface {
                Some(h) => h,
                None => {
                    return Err(SurfaceError::StateViolation);
                },
            };
            match renderer.begin_frame(h) {
                Ok(()) => {},
                Err(e) => {
                    return Err(e);
                },
            }
            let (vertices, indices) = build_batch(&self.content);
            let ended = renderer.end_frame(h, vertices, indices);
            proof {
                assert(after_end(after_begin(old(renderer).surfaces(), h), h) =~= old(
                    renderer,
                ).surfaces());
            }
            match ended {
                Ok(()) => {},
                Err(e) => {
                    return Err(e);
                },
            }
        }
        Ok(EventReply::Continue)
    }

    /// Pointer motion has no effect.
    pub fn on_mouse_move(&self, x: i32, y: i32) -> (r: EventReply)
        ensures
            r == EventReply::Continue,
    {
        EventReply::Continue
    }

    /// Releasing the left button asks for a new window drawing the same
    /// content; releasing the right button has this window destroyed. Any
    /// other button or press does nothing.
    pub fn on_mouse_button(&self, control: &mut Control, button: MouseButton, state: ButtonState) -> (r:
        EventReply)
        requires
            self.wf(),
        ensures
            (button == MouseButton::Left && state == ButtonState::Released) ==> r
                == EventReply::Continue && final(control).requested@.len() == old(
                control,
            ).requested@.len() + 1 && final(control).requested@.drop_last() == old(
                control,
            ).requested@ && is_fresh(final(control).requested@.last(), self.content@)
                && final(control).requested@.last().wf(),
            (button == MouseButton::Right && state == ButtonState::Released) ==> r
                == EventReply::DestroyWindow && final(control).requested@ == old(
                control,
            ).requested@,
            !(button != MouseButton::Middle && state == ButtonState::Released) ==> r
                == EventReply::Continue && final(control).requested@ == old(control).requested@,
    {
        match button {
            MouseButton::Left => match state {
                ButtonState::Pressed => {},
                ButtonState::Released => {
                    let w = Window::with_content(self.copy_content());
                    control.create_window(w);
                    assert(final(control).requested@.drop_last() =~= old(control).requested@);
                },
            },
            MouseButton::Right => {
                if state == ButtonState::Released {
                    return EventReply::DestroyWindow;
                }
            },
            MouseButton::Middle => {},
        }
        EventReply::Continue
    }

    /// A new vector holding the window's shapes.
    fn copy_content(&self) -> (r: Vec<Shape>)
        ensures
            r@ == self.content@,
    {
        let mut r: Vec<Shape> = Vec::new();
        let mut i: usize = 0;
        while i < self.content.len()
            invariant
                i <= self.content@.len(),
                r@ == self.content@.take(i as int),
            decreases self.content@.len() - i,
        {
            r.push(self.content[i]);
            i = i + 1;
            assert(r@ =~= self.content@.take(i as int));
        }
        assert(self.content@.take(i as int) =~= self.content@);
        r
    }

    /// Releases the window's surface, if it has one; the window is left
    /// without a surface either way, so a second teardown releases nothing.
    pub fn teardown(&mut self, renderer: &mut Renderer) -> (r: Result<(), SurfaceError>)
        ensures
            final(self).surface is None,
            final(self).width == old(self).width,
            final(self).height == old(self).height,
            final(self).content == old(self).content,
            final(renderer).frames() == old(renderer).frames(),
            old(self).surface is None ==> r is Ok && *final(renderer) == *old(renderer),
            old(self).surface is Some ==> {
                let h = old(self).surface->Some_0;
                &&& final(renderer).surfaces() == after_destroy(old(renderer).surfaces(), h)
                &&& r == state_result(is_live(old(renderer).surfaces(), h))
            },
    {
        match self.surface {
            Some(h) => {
                self.surface = None;
                renderer.destroy_swapchain(h)
            },
            None => Ok(()),
        }
    }
}

impl Control {
    /// No structural command yet.
    pub fn new() -> (c: Control)
        ensures
            c.requested@.len() == 0,
    {
        Control { requested: Vec::new() }
    }

    /// Asks for `window` to be registered with the event loop.
    pub fn create_window(&mut self, window: Window)
        ensures
            final(self).requested@ == old(self).requested@.push(window),
    {
        self.requested.push(window);
    }
}

} // verus!
