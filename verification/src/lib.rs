//! Magnetic-resonance encoding: k-space trajectories over spatially varying
//! encoding fields, and the local trajectory induced at a position by the
//! fields' gradients.
//!
//! All arithmetic is exact fixed-point arithmetic over [`fixed::Fix`], so that
//! every trajectory value and every transform is pinned down by a contract.

pub mod encodingfield;
pub mod errors;
pub mod fixed;
pub mod kspace;
pub mod localkspace;
pub mod parameterized;
pub mod projections;
pub mod rf;
pub mod spatialdims;

pub use encodingfield::EncodingField;
pub use errors::KError;
pub use fixed::Fix;
pub use kspace::KSample;
pub use kspace::KSpace;
pub use localkspace::LocalKSpace;
pub use rf::RFSensitivity;
pub use spatialdims::SpatialDims;
