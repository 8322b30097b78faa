//! A verified patch-application and backup/restore engine.
//!
//! The library gates binary patches on a CRC-32 check against the checksum
//! embedded in the patch container, applies the delta, and manages the
//! `.bak` backup naming convention that the uninstall pass relies on to
//! restore the original files.

pub mod backup;
pub mod checksum;
pub mod container;
pub mod install;
pub mod paths;
pub mod tree;
pub mod uninstall;
