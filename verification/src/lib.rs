//! A relay for live classroom screen sharing: students push still-image
//! frames, the relay keeps the latest frame of each student and fans every
//! frame out to all connected viewers over one tagged binary stream.

pub mod agents;
pub mod cache;
pub mod chat;
pub mod commands;
pub mod config;
pub mod ingest;
pub mod json;
pub mod keys;
pub mod laws;
pub mod message;
pub mod models;
pub mod order;
pub mod registry;
pub mod relay;
pub mod text;
pub mod viewer;
pub mod violations;
pub mod wire;
