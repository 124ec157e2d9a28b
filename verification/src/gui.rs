//! What the window shows and what its controls ask for.

pub mod arrangement;
pub mod audio_page;
pub mod forms;
pub mod laws;
pub mod logs;
pub mod rows;
pub mod window;
