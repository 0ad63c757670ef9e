//! Support for the command line tools.

pub mod playbook;
