//! Device topology and identity resolution for a small x86-64 kernel.
//!
//! Hardware is discovered twice: once by walking the ACPI firmware
//! namespace and once by scanning PCI configuration space. This library
//! decodes the configuration-space header, drives the bus walk, turns
//! firmware objects into PCI addresses, classifies devices, and merges
//! both views into one device graph with stable identities.
pub mod pci;
pub mod acpi;
pub mod device;
pub mod pic;
