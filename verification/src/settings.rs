//! Process configuration as plain values.
//!
//! Reading the configuration files and the environment is the binary's job;
//! the library only defines the shape of the settings the pipeline consumes.

use vstd::prelude::*;

use crate::mitaffald::settings::AffaldVarmeConfig;

verus! {

/// Everything one synchronization pass needs to know.
#[derive(Debug)]
pub struct Settings {
    pub mqtt: MQTTConfig,
    pub affaldvarme: AffaldVarmeConfig,
}

/// Connection parameters for the message broker session.
#[derive(Debug)]
pub struct MQTTConfig {
    pub host: String,
    pub port: u16,
    pub username: String,
    pub password: String,
    pub client_id: String,
}

} // verus!
