//! Resolution of the GUI application hosting a background process, and the
//! pure decision logic behind the session actions built on that resolution.
//!
//! The crate classifies raw process command strings into a closed set of
//! application identities, drives a bounded walk up the process tree, and
//! prepares the exact commands, arguments and byte payloads that the
//! surrounding (unverified) shell hands to the operating system.

pub mod classify;
pub mod dispatch;
pub mod identity;
pub mod names;
pub mod text;
pub mod walker;

pub use classify::classify;
pub use classify::get_app_name;
pub use dispatch::OpenPlan;
pub use dispatch::activation_script;
pub use dispatch::decimal_string;
pub use dispatch::interrupt_args;
pub use dispatch::open_plan;
pub use dispatch::project_display_name;
pub use dispatch::resume_args;
pub use dispatch::resume_input_bytes;
pub use dispatch::stop_result;
pub use dispatch::zed_cli_program;
pub use identity::AppIdentity;
pub use identity::display_name;
pub use names::CustomNames;
pub use walker::MAX_HOPS;
pub use walker::WalkState;
