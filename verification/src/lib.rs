//! A DOM-style terminal UI engine core: geometry, events, virtualization,
//! scrollbar geometry, and the cell grid that frames are painted into.

pub mod geometry;
pub mod virtualize;
pub mod paint_order;
pub mod id;
pub mod style;
pub mod node;
pub mod time;
pub mod render;
pub mod performance;
pub mod event;
pub mod inner;
pub mod headless;
pub mod runtime_event;
pub mod event_loop;
pub mod panic;
