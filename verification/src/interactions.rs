//! Ready-made interactive components: stateful wrappers that map semantic
//! events onto which of their visual states is displayed.

pub mod button;
pub mod selectable;
pub mod slider;
pub mod text_input;
