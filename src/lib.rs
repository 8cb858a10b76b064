//! Verified core of a sphere path tracer: the fixed-layout records that carry
//! a scene to a compute device, the batching of device work, the split of an
//! image into row ranges for worker threads and their reassembly, and the
//! bounce budget of the radiance estimator.
pub mod packed;
pub mod material;
pub mod scene;
pub mod config;
pub mod dispatch;
pub mod rows;
pub mod radiance;
