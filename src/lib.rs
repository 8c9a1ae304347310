//! State engine of a terminal browser for a threaded discussion forum:
//! stories, lazily expanded comment trees, navigation and the rules that
//! apply background fetch results.

pub mod app;
pub mod client;
pub mod clock;
pub mod control;
pub mod event;
pub mod laws;
pub mod text;
pub mod tree;

pub use app::HNCLIItem;
