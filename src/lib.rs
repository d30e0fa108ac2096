//! An infinite-canvas workspace core: the entity store that owns what exists in
//! world space, the bounded text-measurement cache used while rendering, and the
//! settings and terminal state that drive them.

pub mod context;
pub mod entity;
pub mod settings;
pub mod settings_window;
pub mod terminal;
pub mod text_metrics;
