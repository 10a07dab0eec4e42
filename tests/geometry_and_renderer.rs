use window_core::geometry::{Color, Point, Rect, Shape, Vertex};
use window_core::renderer::{Renderer, SurfaceError, SurfaceHandle, SurfaceState};
use window_core::session::{Error, Token};
use window_core::window::build_batch;

const RED: Color = Color { r: 255, g: 0, b: 0, a: 255 };
const BLUE: Color = Color { r: 0, g: 0, b: 255, a: 255 };

fn v(x: i32, y: i32, color: Color) -> Vertex {
    Vertex { point: Point { x, y }, color }
}

#[test]
fn draw_appends_four_corners_and_two_triangles() {
    let rect = Rect { top: 0, left: 100, bottom: 984, right: 200 };
    let mut vertices = Vec::new();
    let mut indices = Vec::new();
    rect.draw(RED, &mut vertices, &mut indices);
    assert_eq!(
        vertices,
        vec![v(100, 0, RED), v(200, 0, RED), v(200, 984, RED), v(100, 984, RED)]
    );
    assert_eq!(indices, vec![0, 1, 2, 2, 3, 0]);
}

#[test]
fn draw_keeps_earlier_contents_and_offsets_indices() {
    let mut vertices = Vec::new();
    let mut indices = Vec::new();
    Rect { top: 0, left: 0, bottom: 10, right: 10 }.draw(RED, &mut vertices, &mut indices);
    Rect { top: 5, left: 6, bottom: 7, right: 8 }.draw(BLUE, &mut vertices, &mut indices);
    assert_eq!(vertices.len(), 8);
    assert_eq!(indices.len(), 12);
    assert_eq!(vertices[0], v(0, 0, RED));
    assert_eq!(vertices[4], v(6, 5, BLUE));
    assert_eq!(vertices[6], v(8, 7, BLUE));
    assert_eq!(&indices[6..], &[4, 5, 6, 6, 7, 4]);
    assert!(indices.iter().all(|&i| (i as usize) < vertices.len()));
}

#[test]
fn draw_of_inverted_rect_still_adds_a_quad() {
    let mut vertices = Vec::new();
    let mut indices = Vec::new();
    Rect { top: 10, left: 10, bottom: 0, right: 0 }.draw(RED, &mut vertices, &mut indices);
    assert_eq!(vertices.len(), 4);
    assert_eq!(indices, vec![0, 1, 2, 2, 3, 0]);
}

#[test]
fn draw_next_to_the_index_limit() {
    let mut vertices = vec![v(0, 0, RED); 65532];
    let mut indices = Vec::new();
    Rect { top: 0, left: 0, bottom: 1, right: 1 }.draw(RED, &mut vertices, &mut indices);
    assert_eq!(vertices.len(), 65536);
    assert_eq!(indices, vec![65532, 65533, 65534, 65534, 65535, 65532]);
}

#[test]
fn build_batch_draws_each_shape_in_turn() {
    let shapes = vec![
        Shape { rect: Rect { top: 0, left: 0, bottom: 2, right: 2 }, color: RED },
        Shape { rect: Rect { top: 1, left: 1, bottom: 3, right: 3 }, color: BLUE },
    ];
    let (vertices, indices) = build_batch(&shapes);
    assert_eq!(vertices.len(), 8);
    assert_eq!(vertices[7], v(1, 3, BLUE));
    assert_eq!(indices, vec![0, 1, 2, 2, 3, 0, 4, 5, 6, 6, 7, 4]);
    let (vertices, indices) = build_batch(&Vec::new());
    assert!(vertices.is_empty() && indices.is_empty());
}

#[test]
fn create_swapchain_hands_out_fresh_handles() {
    let mut r = Renderer::new();
    assert_eq!(r.create_swapchain(7), Ok(SurfaceHandle { index: 0 }));
    assert_eq!(r.create_swapchain(8), Ok(SurfaceHandle { index: 1 }));
    assert_eq!(
        r.surface_state(SurfaceHandle { index: 1 }),
        Some(SurfaceState::Live { target: 8, in_frame: false })
    );
    assert_eq!(r.surface_state(SurfaceHandle { index: 2 }), None);
}

#[test]
fn create_swapchain_refuses_null_and_taken_targets() {
    let mut r = Renderer::new();
    assert_eq!(r.create_swapchain(0), Err(SurfaceError::AllocationFailure));
    let h = r.create_swapchain(7).unwrap();
    assert_eq!(r.create_swapchain(7), Err(SurfaceError::AllocationFailure));
    r.destroy_swapchain(h).unwrap();
    assert_eq!(r.create_swapchain(7), Ok(SurfaceHandle { index: 1 }));
}

#[test]
fn frame_protocol_pairs_begin_and_end() {
    let mut r = Renderer::new();
    let h = r.create_swapchain(1).unwrap();
    assert_eq!(r.end_frame(h, Vec::new(), Vec::new()), Err(SurfaceError::StateViolation));
    assert_eq!(r.begin_frame(h), Ok(()));
    assert_eq!(r.begin_frame(h), Err(SurfaceError::StateViolation));
    assert_eq!(r.end_frame(h, vec![v(1, 2, RED)], vec![0, 0, 0]), Ok(()));
    assert_eq!(r.frame_count(), 1);
    assert_eq!(r.frame(0).surface, h);
    assert_eq!(r.frame(0).vertices, vec![v(1, 2, RED)]);
    assert_eq!(r.frame(0).indices, vec![0, 0, 0]);
    assert_eq!(r.begin_frame(h), Ok(()));
    assert_eq!(r.end_frame(h, Vec::new(), Vec::new()), Ok(()));
    assert_eq!(r.frame_count(), 2);
}

#[test]
fn every_operation_fails_after_destroy() {
    let mut r = Renderer::new();
    let h = r.create_swapchain(1).unwrap();
    assert_eq!(r.destroy_swapchain(h), Ok(()));
    assert_eq!(r.surface_state(h), Some(SurfaceState::Destroyed));
    assert_eq!(r.begin_frame(h), Err(SurfaceError::StateViolation));
    assert_eq!(r.end_frame(h, Vec::new(), Vec::new()), Err(SurfaceError::StateViolation));
    assert_eq!(r.destroy_swapchain(h), Err(SurfaceError::StateViolation));
    assert_eq!(r.frame_count(), 0);
}

#[test]
fn unknown_handle_is_refused() {
    let mut r = Renderer::new();
    let h = SurfaceHandle { index: 3 };
    assert_eq!(r.begin_frame(h), Err(SurfaceError::StateViolation));
    assert_eq!(r.destroy_swapchain(h), Err(SurfaceError::StateViolation));
}

#[test]
fn session_errors_describe_themselves() {
    assert_eq!(
        Error::InvalidToken.message(),
        "the provided token is invalid, it may have expired"
    );
    assert_eq!(Error::InvalidCredential.message(), "the provided user credentials are invalid");
    assert_eq!(Token { key: 5 }, Token { key: 5 });
}
