//! Inventory of a directory of pumpkins: image files, each optionally paired
//! with a sidecar file that holds the pumpkin's weight.
//!
//! The library works on plain values. A caller probes the file system and
//! lists the directory, and hands over what it found; every decision about
//! what the entries mean is taken, and proved, here.
//!
//! - [`resolve`] classifies the directory from one probe of its path.
//! - [`name`] tells images and sidecars apart by their names.
//! - [`scan`] pairs each image with its sidecar and makes the pumpkins.
//! - [`weight`] reads the weight that a sidecar holds.
//! - [`text`] holds the comparisons on characters that the others share.

pub mod name;
pub mod resolve;
pub mod scan;
pub mod text;
pub mod weight;

pub use name::{entry_kind, sidecar_name, EntryKind};
pub use resolve::{initial_scan, FollowUp, Probe, I1, PUMPKIN_DIR};
pub use scan::{
    assemble, build_pumpkin, partition_entries, plan_scan, Failure, Pairing, Pumpkin, PumpkinMeta,
    ScanError,
};
pub use weight::{parse_weight, WeightError};
