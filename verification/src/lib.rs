//! Memory reporting for a Xen guest: the decisions of a daemon that samples RAM
//! and swap usage and publishes the used amount in xenstore.
//!
//! Reading `/proc`, `/sys` and the configuration file, printing, and talking to
//! xenstore are left to the program around this library; everything that is
//! computed from what was read stands here.

pub mod cli;
pub mod config;
pub mod glob;
pub mod mem;
pub mod reporter;
pub mod sum;
pub mod swap;
pub mod text;
pub mod weight;
