pub mod geometry;
pub mod renderer;
pub mod window;
pub mod event_loop;
pub mod session;
