//! The core of a capability-secure vat kernel: identifier registries,
//! per-vat capability tables, reference mapping in both directions,
//! the run queue and the syscall handler.

pub mod clist;
pub mod consistency;
pub mod delivery;
pub mod error;
pub mod invariants;
pub mod kernel;
pub mod kernel_types;
pub mod laws;
pub mod map_inbound;
pub mod map_outbound;
pub mod object_table;
pub mod promise;
pub mod syscall;
pub mod vat;
pub mod vat_data;
pub mod vat_names;
