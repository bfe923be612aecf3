//! Elastic alignment distance between sequences, and the sampling plan of
//! the radio capture files the sequences are drawn from.

pub mod metric;
pub mod metric_dtw;
pub mod number;
pub mod old_reader;
pub mod reader;
pub mod theorems;
pub mod warping_path;
