//! Firmware memory-map analysis library.

pub mod text;
pub mod sorting;
pub mod model;
pub mod demangle;

pub mod analyze;
pub mod grouping;
pub mod cpp;
pub mod rust_view;
pub mod diff;
pub mod metadata;
pub mod git;
pub mod history;
pub mod linkage;
pub mod rules;
pub mod rust_ingest;
pub mod policy;
pub mod dto;
pub mod args;
pub mod desktop;
pub mod timeline;
pub mod trend;
pub mod calendar;
pub mod record;
pub mod run;
pub mod detail;
pub mod stored;
pub mod regression;
