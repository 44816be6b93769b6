//! Verified core of the eSmart to MQTT bridge: the statistics that each
//! eSmart reading stands for, the Home Assistant discovery documents, and the
//! throttling of MQTT updates.

pub mod stats;
pub mod text;
pub mod data;
pub mod ids;
pub mod throttle;
pub mod mqtt;
