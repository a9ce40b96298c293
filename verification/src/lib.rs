//! The file-operation engine of a terminal file manager: best-effort size
//! accounting over a directory tree, progress reporting for a copy that runs
//! elsewhere, and the rendering of permission bits.

pub mod mode;
pub mod progress;
pub mod theme;
pub mod tree;
pub mod walker;

pub use mode::file_mode;
pub use mode::file_mode_narrow;
pub use progress::Phase;
pub use progress::Poller;
pub use progress::ProgressEvent;
pub use progress::Signal;
pub use theme::Marker;
pub use theme::Preview;
pub use theme::Progress;
pub use theme::Selection;
pub use theme::Status;
pub use theme::StatusSeparator;
pub use theme::Tab;
pub use theme::Theme;
pub use tree::calculate_size;
pub use tree::checked_calculate_size;
pub use tree::Tree;
pub use walker::Probe;
pub use walker::SizeWalker;
