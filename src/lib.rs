//! A spirograph simulator: fixed gears anchor rotating gears that roll around
//! them, each pen tracing a curve, with pointer-driven dragging of the anchors.
pub mod geometry;
pub mod spiro;
pub mod registry;
pub mod engine;
pub mod dragging;
pub mod ui;
