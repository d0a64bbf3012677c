pub mod dir;
pub mod rect;

pub use dir::Advance;
pub use dir::Dir;
pub use rect::Rect;
pub use rect::SimpleRect;
