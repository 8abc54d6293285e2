//! Verified core of the Windows Toolbox: domain models, validation, payload
//! codecs, bounded logs, invocation parsing and the decision logic of the
//! background workers.
pub mod model;
pub mod net_addr;
pub mod text;
pub mod process_tree;
pub mod shell;
pub mod diagnostics;
pub mod paths;
pub mod invocation;
pub mod channel;
pub mod clock;
pub mod ipc;
pub mod worker;
pub mod emitter;
pub mod requests;
pub mod navigation;
pub mod session;
pub mod resolve;
pub mod settings;
pub mod presets;
pub mod home;
pub mod platform;
