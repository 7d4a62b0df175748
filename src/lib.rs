//! GPU metrics exporter: reads the comma-separated report of the GPU query
//! tool, maps each row onto a fixed catalog of metric names, and renders the
//! result in the plain-text metrics exposition format.
pub mod catalog;
pub mod error;
pub mod exposition;
pub mod guarantees;
pub mod sample;
pub mod scrape;
pub mod tabular;
pub mod trim;
