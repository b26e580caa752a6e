//! Tab indices, focus targets, and navigation state.
pub mod focus;
pub mod state;
pub mod tabs;

pub use focus::{FocusTarget, Region};
pub use state::{NavCommand, NavigationState, TabSlotState};
pub use tabs::{left_tab_labels, main_tab_labels, LeftNavTab, MainTab};
