//! Diagnostics that make a monorepo fast, the hashes of its tasks, and the syntax
//! trees that a bundler adds to it.
pub mod annotations;
pub mod assoc;
pub mod diagnostics;
pub mod filewatch;
pub mod package_hashes;
pub mod server_to_client_proxy;
pub mod task_id;
pub mod text;
pub mod turbocharge;
