//! Verified core of a visual-inertial mapping pipeline: the decisions, layouts
//! and data structures around patch depth, local occupancy, coordinate charts
//! and configuration. Numeric kernels live outside; they hand in and take back
//! floating-point numbers as bit patterns.
pub mod ieee;
pub mod alignment;
pub mod cli;
pub mod config;
pub mod coordinate_suite;
pub mod core_types;
pub mod dataserver;
pub mod depth;
pub mod layout;
pub mod ordering;
pub mod seqs;
pub mod text;
