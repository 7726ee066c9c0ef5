//! ACPI table assembly for confidential virtual machine measurement.
//!
//! Locates tables in a blob of concatenated ACPI system description tables,
//! and synthesizes the root system description pointer and the firmware
//! loader script that patches pointers and checksums into those tables.

pub mod bytes;
pub mod locate;
pub mod loader;
pub mod tables;

pub use loader::{LoaderCmd, TableLoader};
pub use locate::{find_acpi_table, AcpiError};
pub use tables::{synthesize_loader, synthesize_rsdp, Machine, Tables};
