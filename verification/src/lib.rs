//! Clock diagnostics collector for a distributed database cluster.
//!
//! Each cluster node serves a diagnostics page that carries one HTML table of
//! per-server clock readings.  This library extracts the first table of such
//! a page, maps its columns onto named record fields by header text (so that
//! column order and missing columns never break a pass), aggregates the
//! records of every node of an address space into one collection, and renders
//! the collection relative to the cluster leader.
//!
//! Network probing, HTTP transport, snapshot persistence and leader discovery
//! are collaborators outside this library: callers fetch each page, hand the
//! raw text in, and print the rendered lines out.

pub mod collect;
pub mod extract;
pub mod mapping;
pub mod records;
pub mod render;
