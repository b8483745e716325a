//! What the contract-execution collaborator and the state layer share.

pub mod cairo_run_utils;
