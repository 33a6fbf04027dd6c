//! Offline browsing of a cluster snapshot: classification of log files, health analysis
//! of pods and deployments, and the navigation state of a menu-driven viewer.
//!
//! - `text`: character-level text operations and their specifications
//! - `json`: JSON documents as plain values, read with serde_json
//! - `logs`: log entries, their classification, ordering, filtering and search
//! - `kubernetes`: namespaces, pods, deployments and the health analysis
//! - `source`: where the logs of a component may be found
//! - `app`: the navigation state machine
//! - `details`: the texts that the views show
//! - `error`: the error type
pub mod error;
pub mod text;
pub mod json;
pub mod logs;
pub mod kubernetes;
pub mod source;
pub mod app;
pub mod details;
