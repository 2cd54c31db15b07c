//! Installs, updates and removes a root-management framework inside the file
//! system of a containerized Android runtime.
//!
//! The library decides and computes; it does no input or output. A workflow
//! is a plan that a [`workflow::Runner`] walks: the caller does the outside
//! work of each step and reports back, and the runner sees to it that a
//! workflow that fails ends unwound. The files of the guest that are patched
//! are handed to the patch engine as values and come back as values.

pub mod backend;
pub mod cli;
pub mod codec;
pub mod config;
pub mod constants;
pub mod container;
pub mod install;
pub mod magisk;
pub mod magisk_files;
pub mod model;
pub mod paths;
pub mod print;
pub mod random;
pub mod selinux;
pub mod service_names;
pub mod su;
pub mod text;
pub mod utils;
pub mod workflow;
