//! Reading of recorded data.
pub mod asl_dataset;
pub mod calibration;
pub mod yaml;
