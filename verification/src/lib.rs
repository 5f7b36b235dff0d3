//! Wire-level gateway for a threshold proxy-re-encryption workflow.
//!
//! The cryptographic engine itself is a sealed capability that lives outside
//! this library. What is here is everything around it: the packed encoding of
//! sparse secret keys, the threshold policy, the length-prefixed bundles that
//! carry several fields as one blob, the table of buffers handed across calls,
//! and the decisions each of the four operations takes before and after the
//! engine is asked.

pub mod be32;
pub mod buffers;
pub mod bundle;
pub mod comm;
pub mod dispatch;
pub mod error;
pub mod hexcodec;
pub mod keycodec;
pub mod lhe;
pub mod lhe_v1;
pub mod lhe_v2;
pub mod policy;
