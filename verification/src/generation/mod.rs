pub mod error;
pub mod icon;
pub mod rect;
pub mod text;
