use window_core::event_loop::{Event, EventLoop, LoopError};
use window_core::geometry::{Color, Rect, Shape};
use window_core::renderer::{Renderer, SurfaceError, SurfaceHandle, SurfaceState};
use window_core::window::{ButtonState, Control, EventReply, MouseButton, Window};

fn live_surfaces(r: &Renderer, created: usize) -> usize {
    (0..created)
        .filter(|&i| {
            matches!(r.surface_state(SurfaceHandle { index: i }), Some(SurfaceState::Live { .. }))
        })
        .count()
}

fn open(el: &mut EventLoop, target: u64) -> u64 {
    let id = el.create_window(Window::new()).unwrap();
    assert_eq!(el.dispatch(id, Event::Create { target }), Ok(()));
    id
}

fn click(button: MouseButton) -> Event {
    Event::MouseButton { button, state: ButtonState::Released }
}

#[test]
fn new_window_draws_the_red_column() {
    let w = Window::new();
    assert_eq!(w.surface, None);
    assert_eq!((w.width, w.height), (0, 0));
    assert_eq!(
        w.content,
        vec![Shape {
            rect: Rect { top: 0, left: 100, bottom: 984, right: 200 },
            color: Color { r: 255, g: 0, b: 0, a: 255 },
        }]
    );
}

#[test]
fn on_create_binds_one_surface() {
    let mut r = Renderer::new();
    let mut w = Window::new();
    assert_eq!(w.on_create(&mut r, 0), Err(SurfaceError::AllocationFailure));
    assert_eq!(w.surface, None);
    assert_eq!(w.on_create(&mut r, 9), Ok(EventReply::Continue));
    assert_eq!(w.surface, Some(SurfaceHandle { index: 0 }));
    assert_eq!(w.on_create(&mut r, 10), Err(SurfaceError::StateViolation));
    assert_eq!(w.surface, Some(SurfaceHandle { index: 0 }));
}

#[test]
fn zero_sized_redraw_records_size_without_a_frame() {
    let mut r = Renderer::new();
    let mut w = Window::new();
    w.on_create(&mut r, 1).unwrap();
    assert_eq!(w.on_redraw(&mut r, 0, 480), Ok(EventReply::Continue));
    assert_eq!((w.width, w.height), (0, 480));
    assert_eq!(w.on_redraw(&mut r, 640, 0), Ok(EventReply::Continue));
    assert_eq!((w.width, w.height), (640, 0));
    assert_eq!(r.frame_count(), 0);
    assert_eq!(r.surface_state(SurfaceHandle { index: 0 }), Some(SurfaceState::Live { target: 1, in_frame: false }));
}

#[test]
fn redraw_presents_one_frame_of_the_content() {
    let mut r = Renderer::new();
    let mut w = Window::new();
    w.on_create(&mut r, 1).unwrap();
    assert_eq!(w.on_redraw(&mut r, 640, 480), Ok(EventReply::Continue));
    assert_eq!((w.width, w.height), (640, 480));
    assert_eq!(r.frame_count(), 1);
    assert_eq!(r.frame(0).vertices.len(), 4);
    assert_eq!(r.frame(0).vertices[2].point.x, 200);
    assert_eq!(r.frame(0).vertices[2].point.y, 984);
    assert_eq!(r.frame(0).indices, vec![0, 1, 2, 2, 3, 0]);
}

#[test]
fn redraw_before_create_fails() {
    let mut r = Renderer::new();
    let mut w = Window::new();
    assert_eq!(w.on_redraw(&mut r, 10, 10), Err(SurfaceError::StateViolation));
    assert_eq!((w.width, w.height), (10, 10));
    assert_eq!(r.frame_count(), 0);
}

#[test]
fn mouse_buttons_issue_their_commands() {
    let w = Window::new();
    let mut c = Control::new();
    assert_eq!(w.on_mouse_button(&mut c, MouseButton::Left, ButtonState::Pressed), EventReply::Continue);
    assert_eq!(w.on_mouse_button(&mut c, MouseButton::Middle, ButtonState::Released), EventReply::Continue);
    assert_eq!(w.on_mouse_button(&mut c, MouseButton::Right, ButtonState::Pressed), EventReply::Continue);
    assert!(c.requested.is_empty());
    assert_eq!(w.on_mouse_button(&mut c, MouseButton::Left, ButtonState::Released), EventReply::Continue);
    assert_eq!(c.requested.len(), 1);
    assert_eq!(c.requested[0].content, w.content);
    assert_eq!(c.requested[0].surface, None);
    assert_eq!(
        w.on_mouse_button(&mut c, MouseButton::Right, ButtonState::Released),
        EventReply::DestroyWindow
    );
    assert_eq!(c.requested.len(), 1);
    assert_eq!(w.on_close(), EventReply::DestroyWindow);
    assert_eq!(w.on_mouse_move(3, 4), EventReply::Continue);
}

#[test]
fn teardown_releases_the_surface_once() {
    let mut r = Renderer::new();
    let mut w = Window::new();
    w.on_create(&mut r, 1).unwrap();
    assert_eq!(w.teardown(&mut r), Ok(()));
    assert_eq!(w.surface, None);
    assert_eq!(r.surface_state(SurfaceHandle { index: 0 }), Some(SurfaceState::Destroyed));
    assert_eq!(w.teardown(&mut r), Ok(()));
}

#[test]
fn closing_every_window_ends_the_loop_without_leaks() {
    let mut el = EventLoop::new();
    let ids: Vec<u64> = (1..=5).map(|t| open(&mut el, t)).collect();
    assert_eq!(el.live_count(), 5);
    assert_eq!(live_surfaces(el.renderer(), 5), 5);
    for id in ids {
        assert!(!el.is_finished());
        assert_eq!(el.dispatch(id, Event::Close), Ok(()));
    }
    assert!(el.is_finished());
    assert_eq!(live_surfaces(el.renderer(), 5), 0);
}

#[test]
fn two_windows_click_and_close() {
    let mut el = EventLoop::new();
    let a = open(&mut el, 1);
    let b = open(&mut el, 2);
    assert_eq!(el.dispatch(a, click(MouseButton::Left)), Ok(()));
    assert_eq!(el.live_count(), 3);
    let c = 2;
    assert_eq!(el.dispatch(c, Event::Create { target: 3 }), Ok(()));
    assert_eq!(el.dispatch(b, click(MouseButton::Right)), Ok(()));
    assert_eq!(el.live_count(), 2);
    assert_eq!(el.dispatch(b, Event::Redraw { width: 5, height: 5 }), Err(LoopError::UnknownWindow));
    assert_eq!(el.dispatch(a, Event::Redraw { width: 5, height: 5 }), Ok(()));
    assert_eq!(el.dispatch(c, Event::Redraw { width: 5, height: 5 }), Ok(()));
    assert_eq!(el.renderer().frame_count(), 2);
    assert_eq!(el.dispatch(a, Event::Close), Ok(()));
    assert_eq!(el.dispatch(c, Event::Close), Ok(()));
    assert!(el.is_finished());
    assert_eq!(live_surfaces(el.renderer(), 3), 0);
}

#[test]
fn new_window_closes_without_touching_its_parent() {
    let mut el = EventLoop::new();
    let a = open(&mut el, 1);
    assert_eq!(el.dispatch(a, click(MouseButton::Left)), Ok(()));
    assert_eq!(el.dispatch(1, Event::Create { target: 2 }), Ok(()));
    assert_eq!(el.dispatch(1, Event::Close), Ok(()));
    assert_eq!(el.live_count(), 1);
    assert_eq!(el.dispatch(a, Event::Redraw { width: 8, height: 8 }), Ok(()));
    assert_eq!(el.renderer().frame(0).surface, SurfaceHandle { index: 0 });
    assert_eq!(el.renderer().surface_state(SurfaceHandle { index: 1 }), Some(SurfaceState::Destroyed));
}

#[test]
fn failed_create_drops_only_that_window() {
    let mut el = EventLoop::new();
    let a = open(&mut el, 1);
    let b = el.create_window(Window::new()).unwrap();
    assert_eq!(
        el.dispatch(b, Event::Create { target: 1 }),
        Err(LoopError::CreateFailed(SurfaceError::AllocationFailure))
    );
    assert_eq!(el.live_count(), 1);
    assert_eq!(
        el.dispatch(a, Event::Create { target: 4 }),
        Err(LoopError::CreateFailed(SurfaceError::StateViolation))
    );
    assert!(el.is_finished());
    assert_eq!(live_surfaces(el.renderer(), 1), 0);
}

#[test]
fn redraw_of_uncreated_window_is_fatal() {
    let mut el = EventLoop::new();
    let a = el.create_window(Window::new()).unwrap();
    assert_eq!(
        el.dispatch(a, Event::Redraw { width: 1, height: 1 }),
        Err(LoopError::RedrawFailed(SurfaceError::StateViolation))
    );
    assert_eq!(el.dispatch(a, Event::Redraw { width: 0, height: 1 }), Ok(()));
    assert_eq!(el.dispatch(a, Event::MouseMove { x: 1, y: 1 }), Ok(()));
    assert_eq!(el.live_count(), 1);
}

#[test]
fn shutdown_tears_every_window_down() {
    let mut el = EventLoop::new();
    open(&mut el, 1);
    open(&mut el, 2);
    el.create_window(Window::new()).unwrap();
    el.shutdown();
    assert!(el.is_finished());
    assert_eq!(live_surfaces(el.renderer(), 2), 0);
}

#[test]
fn run_stops_once_the_last_window_closes() {
    let mut el = EventLoop::new();
    el.create_window(Window::new()).unwrap();
    el.create_window(Window::new()).unwrap();
    let events = vec![
        (0, Event::Create { target: 1 }),
        (1, Event::Create { target: 2 }),
        (0, click(MouseButton::Left)),
        (2, Event::Create { target: 3 }),
        (1, click(MouseButton::Right)),
        (9, Event::Close),
        (0, Event::Redraw { width: 4, height: 4 }),
        (0, Event::Close),
        (2, Event::Close),
        (2, Event::Close),
    ];
    assert_eq!(el.run(&events), Ok(9));
    assert!(el.is_finished());
    assert_eq!(el.renderer().frame_count(), 1);
    assert_eq!(live_surfaces(el.renderer(), 3), 0);
}

#[test]
fn run_tears_everything_down_on_a_failed_redraw() {
    let mut el = EventLoop::new();
    el.create_window(Window::new()).unwrap();
    el.create_window(Window::new()).unwrap();
    let events = vec![
        (0, Event::Create { target: 1 }),
        (1, Event::Redraw { width: 2, height: 2 }),
        (0, Event::Close),
    ];
    assert_eq!(
        el.run(&events),
        Err(LoopError::RedrawFailed(SurfaceError::StateViolation))
    );
    assert!(el.is_finished());
    assert_eq!(live_surfaces(el.renderer(), 1), 0);
}

#[test]
fn run_without_events_keeps_the_windows() {
    let mut el = EventLoop::new();
    el.create_window(Window::new()).unwrap();
    assert_eq!(el.run(&Vec::new()), Ok(0));
    assert_eq!(el.live_count(), 1);
}
