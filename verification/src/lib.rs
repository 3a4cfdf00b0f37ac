//! Controller remapping core: event codes, profiles, slots and device logic.

pub mod text;
pub mod event_code;
pub mod glob;
pub mod devices;
pub mod profiles;
pub mod outputs;
pub mod profile_build;
pub mod macro_build;
pub mod mapping_build;
pub mod layer_build;
pub mod profile_doc;
pub mod profile_errors;
pub mod catalog;
pub mod blocklist;
pub mod bluetooth;
pub mod gimx;
pub mod bthid;
pub mod power;
pub mod logging;
pub mod slots;
pub mod presets;
pub mod linux;
pub mod leds;
pub mod autodetect;
pub mod vision;
pub mod service;
pub mod engine_spec;
pub mod engine;
pub mod engine_laws;
pub mod analog;
pub mod mobile;
