//! Core of a dynamically reconfigurable HTTP reverse proxy: route matching,
//! access filtering, upstream selection, passive outlier detection, and the
//! configuration-snapshot operations driven by the control plane.
pub mod access;
pub mod balancer;
pub mod admin;
pub mod dispatch;
pub mod errors;
pub mod laws;
pub mod model;
pub mod store;
pub mod tls;
pub mod matcher;
pub mod strutil;
pub mod tracker;
