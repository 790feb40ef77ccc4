//! Trace-and-debug-info reconstruction for a field-arithmetic virtual machine.
//!
//! Given a raw execution trace (program-counter snapshots), a relocated
//! memory image (sparse array of field elements) and compiler-emitted debug
//! metadata, this library reconstructs a decoded, addressable view of the
//! executed program: per-program-counter decoded instructions, a one-indexed
//! hexadecimal memory dump, and the inverse mapping from generated-instruction
//! indices to the intermediate statements that lowered into them.

pub mod felt;
pub mod instruction;
pub mod trace_data;
pub mod sierra_map;
pub mod payloads;
