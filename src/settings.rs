//! Startup configuration of the engine and of the control server.

use crate::models::{Device, Driver};
use crate::text::{int_text, int_to_text};
use vstd::prelude::*;
use vstd::string::*;

verus! {

/// Startup configuration.
pub struct Settings {
    /// Samples per render block.
    pub buffer_size: usize,
    pub database_connection_string: String,
    pub driver: Driver,
    pub hifiberry_enabled: bool,
    /// Address the control server binds to.
    pub host: String,
    pub input_channels: u16,
    pub input_device: Device,
    pub input_sample_rate: u32,
    /// Name of the most verbose log level to emit.
    pub log_level: String,
    /// Latency, in samples, that the capture may run ahead of the render.
    pub max_latency_in_samples: usize,
    pub output_channels: u16,
    pub output_device: Device,
    pub output_sample_rate: u32,
    pub port: i32,
}

/// `host:port`, the port in decimal.
pub open spec fn connection_text(host: Seq<char>, port: int) -> Seq<char> {
    host + seq![':'] + int_text(port)
}

impl Settings {
    /// The address the control server listens on, `host:port`.
    pub fn connection_string(&self) -> (r: String)
        ensures
            r@ == connection_text(self.host@, self.port as int),
    {
        proof {
            reveal_strlit(":");
        }
        let s = self.host.clone().concat(":");
        let port = int_to_text(self.port);
        let r = s.concat(port.as_str());
        assert(r@ =~= connection_text(self.host@, self.port as int));
        r
    }
}

/// The control server's listening address.
pub struct Server {
    connection_string: String,
}

impl Server {
    /// A server for the address that `settings` give.
    pub fn new(settings: &Settings) -> (r: Server)
        ensures
            r.address()@ == connection_text(settings.host@, settings.port as int),
    {
        Server { connection_string: settings.connection_string() }
    }

    /// The address to bind.
    pub closed spec fn address(&self) -> String {
        self.connection_string
    }

    /// The address to bind, `host:port`.
    pub fn connection_string(&self) -> (r: &String)
        ensures
            r@ == self.address()@,
    {
        &self.connection_string
    }
}

} // verus!
