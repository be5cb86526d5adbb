//! The collaborator's configuration, and the listen addresses it names.

use vstd::prelude::*;
use crate::text::{chars_of, string_of, append_chars, decimal, u64_decimal};

verus! {

/// All of the configuration.
#[derive(Debug)]
pub struct AppConfig {
    pub server: BindConfig,
    pub http: BindConfig,
    pub dns: DnsConfig,
    pub domain: DomainConfig,
    pub database: DatabaseConfig,
    pub security: SecurityConfig,
    pub tls: TlsConfig,
}

/// A host and port to listen on.
#[derive(Debug)]
pub struct BindConfig {
    pub host: String,
    pub port: u16,
}

/// The host and the UDP and TCP ports of the DNS listener.
#[derive(Debug)]
pub struct DnsConfig {
    pub host: String,
    pub udp_port: u16,
    pub tcp_port: u16,
}

/// The root domain under which payload hostnames are made.
#[derive(Debug)]
pub struct DomainConfig {
    pub root: String,
}

/// The store's driver name and file path.
#[derive(Debug)]
pub struct DatabaseConfig {
    pub driver: String,
    pub path: String,
}

/// The API key and the largest accepted request body.
#[derive(Debug)]
pub struct SecurityConfig {
    pub api_key: String,
    pub max_body_bytes: usize,
}

/// The optional HTTPS callback listener: whether it runs, where, and its
/// certificate and key files.
#[derive(Debug)]
pub struct TlsConfig {
    pub enabled: bool,
    pub host: String,
    pub port: u16,
    pub cert: String,
    pub key: String,
}

/// The address text `<host>:<port>`.
pub open spec fn address_text(host: Seq<char>, port: u16) -> Seq<char> {
    host + seq![':'] + decimal(port as nat)
}

fn address(host: &str, port: u16) -> (s: String)
    ensures
        s@ == address_text(host@, port),
{
    let mut out = chars_of(host);
    out.push(':');
    append_chars(&mut out, &chars_of(u64_decimal(port as u64).as_str()));
    string_of(&out)
}

impl BindConfig {
    /// The text of the address to listen on.
    pub fn address(&self) -> (s: String)
        ensures
            s@ == address_text(self.host@, self.port),
    {
        address(self.host.as_str(), self.port)
    }
}

impl DnsConfig {
    /// The text of the UDP address to listen on.
    pub fn udp_address(&self) -> (s: String)
        ensures
            s@ == address_text(self.host@, self.udp_port),
    {
        address(self.host.as_str(), self.udp_port)
    }

    /// The text of the TCP address to listen on.
    pub fn tcp_address(&self) -> (s: String)
        ensures
            s@ == address_text(self.host@, self.tcp_port),
    {
        address(self.host.as_str(), self.tcp_port)
    }
}

impl TlsConfig {
    /// The text of the HTTPS address to listen on, or `None` when the HTTPS
    /// listener is disabled.
    pub fn address(&self) -> (s: Option<String>)
        ensures
            self.enabled == s is Some,
            s matches Some(a) ==> a@ == address_text(self.host@, self.port),
    {
        if !self.enabled {
            return None;
        }
        Some(address(self.host.as_str(), self.port))
    }
}

} // verus!
