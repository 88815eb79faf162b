//! Decision logic of an automatic Bluetooth LE interface.

pub mod announce;
pub mod backend;
pub mod backend_laws;
pub mod budget;
pub mod central;
pub mod central_events;
pub mod central_laws;
pub mod decision_laws;
pub mod dial;
pub mod dialing_laws;
pub mod discovery;
pub mod error;
pub mod gatt_write;
pub mod handoff_laws;
pub mod host;
pub mod host_laws;
pub mod ingress;
pub mod inspection;
pub mod peer;
pub mod peer_map;
pub mod pending;
pub mod peripheral;
pub mod peripheral_events;
pub mod peripheral_laws;
pub mod profile;
pub mod radio;
pub mod recent_set;
pub mod registry;
pub mod registry_laws;
pub mod registry_model;
pub mod restoration;
pub mod restored;
pub mod search;
pub mod session;
pub mod session_laws;
pub mod signals;
