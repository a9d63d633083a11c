//! Process identity facts: the process id, the machine's host name, the host
//! name with its domain suffix stripped, and the program's short name,
//! gathered once and published as an immutable record.
//!
//! The raw operating-system queries (host name, process id, program name)
//! live outside this library; it receives their raw outcomes as plain values
//! and performs all interpretation here: bounded terminator scanning,
//! permissive decoding, domain stripping and sentinel substitution.

pub mod host_name;
pub mod identity;
pub mod program_name;
pub mod text;

pub use host_name::get_host_name_safely;
pub use host_name::HostNameError;
pub use identity::new;
pub use identity::Process;
pub use program_name::get_program_name_safely;
