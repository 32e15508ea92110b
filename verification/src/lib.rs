//! Verified core of the WIE Android bridge: storage paths and record ids,
//! the frame blit, key-code mapping, log-line rendering, app-file dispatch and
//! the bridge's session state machine.

pub mod text;
pub mod paths;
pub mod storage;
pub mod file_ops;
pub mod keys;
pub mod screen;
pub mod logline;
pub mod app_file;
pub mod session;
