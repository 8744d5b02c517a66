//! Host-side building blocks for debugging and flashing ARM Cortex-M targets through a
//! debug probe: the ST-Link and CMSIS-DAP command layers, CoreSight access-port
//! discovery and memory transfers, core control, chip identification, and the flash
//! programming engine (algorithm placement, erase and program planning, progress).
//! Every function decides and computes; moving bytes over USB is left to the caller.
pub mod ap_access;
pub mod breakpoints;
pub mod cli;
pub mod core_control;
pub mod daplink;
pub mod flash_algorithm;
pub mod flash_builder;
pub mod gdb;
pub mod memory_ap;
pub mod probe;
pub mod registry;
pub mod stlink;
