//! The verified core of a terminal Mandelbrot viewer: the escape-time
//! budget, the decisions taken on each key press, and the histogram colouring
//! that turns per-sample escape counts into the colours of a frame.

pub mod depth;
pub mod shading;
pub mod frame;
pub mod controls;
