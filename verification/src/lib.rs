//! A typed accessor over a named shared-memory region.
//!
//! A [`region::POSIXShm`] handle records a region name and a byte size,
//! attaches to the backing object of that name inside a shared-memory
//! facility, and exposes typed read/write/fill operations over the first
//! `byte_width` bytes of the region. Independent handles opened with the
//! same name address the same backing bytes.
//!
//! The facility itself is an injected capability ([`facility::Facility`])
//! offering create-or-open, resize, mapping and byte-level access, so the
//! region logic is verified against an explicit model of the shared store.
//! The classification of raw operating-system outcomes (descriptors, return
//! codes, mapped addresses) lives in [`outcome`], for use by an unverified
//! shell that drives the real system calls.

pub mod errors;
pub mod facility;
pub mod laws;
pub mod outcome;
pub mod region;
pub mod value;
