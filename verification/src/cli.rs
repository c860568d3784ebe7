//! The command-line programs: `sb` (workspace tool), `sbc` (controller), `sbk` (kernel).
pub mod sb;
pub mod sbc;
pub mod sbk;
