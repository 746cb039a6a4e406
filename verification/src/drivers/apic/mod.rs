//! The I/O APIC and the local APIC.
pub mod io_apic;
pub mod local_apic;
