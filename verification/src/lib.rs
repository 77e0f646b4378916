//! Layout, hit-testing and drawing plans for the window switcher's
//! anti-aliased painter.

pub mod layout;
pub mod icons;
pub mod shape;
pub mod window;
