//! The kernels this engine drives, each with the records it exchanges.
pub mod ray_tracer;
pub mod example;
pub mod workgroup;
