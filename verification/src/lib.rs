//! Monitoring and control logic for an Elegoo Centauri Carbon 2 printer.
pub mod status_map;
pub mod mqtt;
pub mod text;
pub mod models;
pub mod phase;
pub mod state;
pub mod json;
pub mod session;
pub mod discovery;
pub mod error;
pub mod control;
pub mod config;
pub mod notify;
pub mod camera;
pub mod upload;
pub mod snapshots;
pub mod api;
pub mod detection;
pub mod update;
pub mod obico;
pub mod live;
pub mod storage;
