//! Minimal native application host: a window/surface lifecycle state machine,
//! a per-frame presentation plan, the GPU adapter/format negotiation rules,
//! and a small persisted configuration document with a verified text codec.
//!
//! The platform work itself (window system, GPU driver, file system) is done
//! by an unverified host program; this crate holds every decision and every
//! computation those calls are built around, each with a proved contract.

pub mod codec;
pub mod config;
pub mod controller;
pub mod surface;
