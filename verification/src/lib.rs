//! LanIoT Hub core: device registry, capability model, scenes, routing and
//! protocol decisions, with their contracts.

pub mod text;
pub mod json;
pub mod store;
pub mod registry;
pub mod capability;
pub mod brand;
pub mod faker;
pub mod encode;
pub mod adapter;
pub mod ha;
pub mod router;
pub mod scene;
pub mod config;
pub mod companion;
pub mod lan;
pub mod agent;
pub mod auth;
pub mod mcp;
pub mod events;
pub mod api;
pub mod ws;
pub mod laws;
