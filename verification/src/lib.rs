//! A terminal panel demo as a verified library: the layout engine that cuts a
//! region of the screen into panels, the fixed frame that is drawn, and the
//! decisions of the render loop. Terminal I/O lives outside this crate.

pub mod frame;
pub mod layout;
pub mod render_loop;
pub mod tiling;
