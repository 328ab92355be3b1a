//! Crash-signature extraction and duplicate correlation for compiler crash reports.

pub mod aggregate;
pub mod canon;
pub mod correlate;
pub mod extract;
pub mod model;
pub mod order;
pub mod pattern;
pub mod text;
pub mod tracker;
