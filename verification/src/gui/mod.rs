//! What a window on the renderer needs of it: the thread that renders
//! while the window stays awake.

pub mod render_thread;
