//! A personal file-backup utility, as a verified library.
//!
//! The library mirrors a source tree into a backup directory, keeps an
//! index of the files it has backed up with a fingerprint of each, and holds
//! the rules of the background daemon that looks at the files again on a
//! timer. It decides; reading and writing the disk, sending signals and
//! sleeping are left to the program around it.

pub mod daemon;
pub mod decimal;
pub mod engine;
pub mod hasher;
pub mod index;
pub mod paths;
pub mod record;
pub mod resync;
pub mod scheduler;
pub mod stop;
pub mod text;
pub mod ui;
