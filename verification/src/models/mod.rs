pub mod color;
pub mod item;
pub mod priority;
pub mod status;

pub use color::Color;
pub use item::{Item, ItemView};
pub use priority::Priority;
pub use status::Status;
