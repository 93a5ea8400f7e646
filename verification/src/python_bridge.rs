//! Registration tables that mod scripts populate while they load: tabs
//! with dropdown menus, standalone buttons, and script-built windows.

pub mod functions;
pub mod registry;
pub mod types;
pub mod window_api;
pub mod window_types;
