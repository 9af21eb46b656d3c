//! Saving and restoring the screen arrangement of application windows.
//!
//! The library holds the data model of a saved arrangement, the rules that
//! decide which applications to launch, and the reconciliation state machine
//! that matches live windows to saved entries. Operating-system calls are made
//! by the caller, who hands the library plain values and performs the actions
//! it returns.
pub mod capture;
pub mod config;
pub mod launch;
pub mod names;
pub mod paths;
pub mod reconcile;
pub mod window_data;

pub use capture::{
    capture_arrangement, capture_entry, reposition_plan, DisplayOp, Placement, WindowRect,
    WindowSnapshot,
};
pub use config::{retry_count_default, retry_interval_default, ConfigData};
pub use launch::select_launch_paths;
pub use names::{check_record_name, get_root_dir_path, validate_name, NameError, ResourceType};
pub use paths::{entry_matches_path, is_system_path, running_module_paths};
pub use reconcile::{entry_match_flags, Reconciler, WindowAction};
pub use window_data::{
    launch_default, path_resolution_index_default, reposition_default,
    resolve_multiple_paths_default, WindowData, WindowDataEntry, WindowPosition, WindowSize,
};
