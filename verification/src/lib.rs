//! Verified core of a compute-dispatch-and-readback renderer.
//!
//! The library models the decisions of the pipeline: how big the output and
//! staging resources are, how many workgroups a dispatch needs to cover a
//! resolution, whether a bind group agrees with a pipeline's binding layout,
//! how the host/device readback handshake may progress, and how raw readback
//! bytes decode into 8-bit pixels. The device itself (adapter acquisition,
//! command submission, the asynchronous map) is driven by an unverified shell
//! that performs each action the verified plan dictates and hands the outcome
//! back as plain values.

pub mod dispatch;
pub mod error;
pub mod layout;
pub mod pipeline;
pub mod pixel;
pub mod protocol;
pub mod renderer;
