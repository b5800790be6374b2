//! Architecture-neutral virtual PCI Type-0 functions, host windows and routing.

pub mod address;
pub mod aperture;
pub mod bar;
pub mod capability;
pub mod config;
pub mod ecam;
pub mod error;
pub mod function;
pub mod graph;
pub mod graph_laws;
pub mod image_laws;
pub mod laws;
pub mod memory;
pub mod msix;
pub mod placement;
pub mod root;
pub mod state;
pub mod topology;
