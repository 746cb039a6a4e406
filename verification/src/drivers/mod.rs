pub mod acpi;
pub mod apic;
pub mod ata;
pub mod fonts;
pub mod framebuffer;
pub mod mmio;
