//! Depth estimation: keyframes, occupancy, patch depth and optical-flow depth.
pub mod flowdep;
pub mod flowdep_kernels;
pub mod keyframe_pool;
pub mod occupancy;
pub mod patch_depth;
