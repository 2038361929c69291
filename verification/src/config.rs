//! Settings of the application and the protocol's constants.
use vstd::prelude::*;

verus! {

/// The name of the application.
pub const APP_NAME: &'static str = "SnapLAN";

/// The version of the peer protocol.
pub const PROTOCOL_VERSION: u16 = 1;

/// The port on which devices look for each other.
pub const DISCOVERY_PORT: u16 = 45454;

/// How often (in milliseconds) discovery announces the device.
pub const DISCOVERY_INTERVAL_WS: u64 = 1000;

/// The port of the QUIC transport.
pub const QUIC_PORT: u16 = 50000;

/// The port of the TCP transport.
pub const TCP_PORT: u16 = 50001;

/// The size of a transfer chunk unless asked otherwise (one mebibyte).
pub const DEFAULT_CHUNK_SIZE: usize = 1048576;

/// The largest transfer chunk (four mebibytes).
pub const MAX_CHUNK_SIZE: usize = 4194304;

/// The length in bytes of a session key.
pub const SESSION_KEY_SIZE: usize = 32;

/// The length in bytes of an encryption nonce.
pub const NONCE_SIZE: usize = 12;

/// Seconds to wait for a connection.
pub const CONNECTION_TIMEOUT_SECS: u64 = 10;

/// Seconds to wait for a transfer.
pub const TRANSFER_TIMEOUT_SECS: u64 = 60;

/// The settings of a running device.
#[derive(Debug)]
pub struct Config {
    pub device_name: String,
    pub port: u16,
    pub discovery_port: u16,
}

impl Clone for Config {
    fn clone(&self) -> (r: Self)
        ensures
            r == *self,
    {
        Config { device_name: self.device_name.clone(), port: self.port, discovery_port: self.discovery_port }
    }
}

impl Default for Config {
    /// A device called "SnapLAN Device" serving on port 9000 and discovering
    /// on port 8888.
    fn default() -> (c: Self)
        ensures
            c.device_name@ == "SnapLAN Device"@,
            c.port == 9000,
            c.discovery_port == 8888,
    {
        Config { device_name: String::from_str("SnapLAN Device"), port: 9000, discovery_port: 8888 }
    }
}

} // verus!
