//! Verified core of the Ajemi input method: the decisions it makes while
//! registering itself with Windows, while picking a keyboard layout for its
//! language profile, while running text-service edit sessions, and the shape
//! of its log lines.
//!
//! Every call into the operating system (COM, the registry, the keyboard
//! layout list, the clock, files) is made by the code around this crate,
//! which hands the plain results to the functions here.

pub mod hex;
pub mod layout;
pub mod registration;
pub mod edit_session;
pub mod log_line;
pub mod categories;
pub mod timestamp;
pub mod wide;
