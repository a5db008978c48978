//! Verified engine for placing vertical timeline annotations on the
//! metric widgets of monitoring dashboards.
//!
//! The library holds the pure logic: the widget selection predicate, the
//! transform that appends an annotation object to every selected metric
//! widget of a dashboard document, dashboard-name discovery over paged
//! listings, the per-dashboard orchestration decision, and the document
//! serializer.  Network calls, the command line and the process live in
//! the surrounding application.

pub mod json;
pub mod text;
pub mod annotate;
pub mod serialize;
pub mod discover;
pub mod orchestrate;
pub mod cli;
