//! Terminal message rendering: icon placeholders, a single foreground color,
//! and the escape sequences for row-addressed output.

pub mod icons;
pub mod render;
pub mod text;

pub use icons::IconRegistry;
pub use render::{Printk, PrintkError};
pub use text::{decimal, replace_all};
