//! Find the function bodies in a C source tree where a heap object of a
//! kernel struct type is allocated through a slab-allocator call.
//!
//! The library holds the verified core: the struct-type catalog filtered by
//! binary size, corpus path selection with glob exclusion, the cheap textual
//! prefilter, interpretation of structural-query matches, the flags-argument
//! filter, and report rendering. Binary decoding, parsing/structural matching,
//! glob and regex evaluation are outside collaborators reached through small
//! trusted wrappers; file I/O and the concurrent pipeline live in the
//! surrounding application.

pub mod bytes;
pub mod catalog;
pub mod corpus;
pub mod debuginfo;
pub mod flags;
pub mod lines;
pub mod pipeline;
pub mod prefilter;
pub mod query;
pub mod render;
