//! Engine packages on disk: their manifests, digests and certificates. Files are read and
//! written by the caller; here are the rules.

pub mod names;
pub mod manifest;
pub mod digest;
pub mod scan;
pub mod scan_laws;
pub mod trial;
pub mod smoke;
