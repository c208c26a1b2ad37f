//! What the renderer needs to know of the emulated machine: its models, its
//! buttons, the hook on its memory bus, and the rule by which two linked
//! machines take turns.

pub mod joypad;
pub mod link;
pub mod memory;
pub mod model;

pub use joypad::JoypadButton;
pub use memory::MemoryInterceptor;
pub use model::Model;
pub use model::Revision;
pub use model::VideoStandard;
