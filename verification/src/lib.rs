//! Core of a bulk file-transfer engine: a batch of source items is copied
//! between the local filesystem and a remote object store. This crate holds
//! the verified decision logic — direction classification, per-item
//! destination resolution, work-queue accounting and completion tracking —
//! while the surrounding binary performs the actual I/O.

pub mod batch;
pub mod paths;
pub mod resolve;
