//! Backend-agnostic GPU resource caching and kernel dispatch.
//!
//! A host supplies opaque device, queue and buffer handles and a
//! [`capability::GpuCapability`] that performs the native work (allocation,
//! shader compilation, kernel launches). This crate supplies the logic around
//! those calls: a buffer cache keyed by device and allocation shape, a
//! compiled-kernel cache keyed by device, source identity and entry point,
//! include expansion for shader sources, launch-geometry computation, and the
//! dispatch protocol that binds the five fixed argument slots.

pub mod assoc;
pub mod buffer;
pub mod capability;
pub mod dispatch;
pub mod errors;
pub mod framework;
pub mod pipeline;
pub mod pixel;
pub mod shaders;
pub mod stub;
pub mod types;
