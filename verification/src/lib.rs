//! A verified block-storage translation layer.
//!
//! The crate models a read-only virtual-disk stack in three layers: a generic
//! mapping contract with a request-splitting read loop (`driver`), a concrete
//! translation driver for the Bochs "growing" image layout (`bochs`), and a
//! typed I/O buffer capability for decoding raw bytes into typed values
//! (`iobuffer`). Beside the stack stand a lock-guard state machine for the
//! global lock of the surrounding device framework (`bql`) and the decision
//! logic of that framework's derive layer: well-known attribute names
//! (`symbols`) and the classification of `repr` attributes (`utilities`).

pub mod bochs;
pub mod bql;
pub mod driver;
pub mod iobuffer;
pub mod symbols;
pub mod utilities;
