//! What both ends configure their QUIC endpoint with: the transport
//! parameters, the client's trust policy and the server's certificate names.
//!
//! The values are plain data. Turning them into an endpoint is the caller's
//! business, as binding the socket is.

use std::sync::Arc;
use vstd::prelude::*;

verus! {

/// Milliseconds of silence after which a connection is given up.
pub const IDLE_TIMEOUT_MS: u32 = 60_000;

/// Seconds between keep-alive packets.
pub const KEEP_ALIVE_SECS: u64 = 1;

/// Transport parameters of an endpoint. `None` leaves a parameter at the
/// transport's own default.
#[derive(Clone, Copy, Debug, PartialEq, Eq, Structural)]
pub struct TransportParams {
    /// Idle timeout in milliseconds.
    pub max_idle_timeout_ms: Option<u32>,
    /// Keep-alive interval in seconds.
    pub keep_alive_interval_secs: Option<u64>,
    /// How many unidirectional streams the peer may open at a time.
    pub max_concurrent_uni_streams: Option<u32>,
    /// Whether path MTU discovery is switched on.
    pub mtu_discovery: bool,
}

/// The transport's defaults, with MTU discovery switched on where the
/// platform supports it.
pub open spec fn mtud_params(supported: bool) -> TransportParams {
    TransportParams {
        max_idle_timeout_ms: None,
        keep_alive_interval_secs: None,
        max_concurrent_uni_streams: None,
        mtu_discovery: supported,
    }
}

/// The parameters of the client's endpoint: a 60 second idle timeout and a
/// keep-alive every second.
pub open spec fn client_params(mtud_supported: bool) -> TransportParams {
    TransportParams {
        max_idle_timeout_ms: Some(IDLE_TIMEOUT_MS),
        keep_alive_interval_secs: Some(KEEP_ALIVE_SECS),
        ..mtud_params(mtud_supported)
    }
}

/// The parameters of the server's endpoint: those of the client, and no
/// unidirectional streams.
pub open spec fn server_params(mtud_supported: bool) -> TransportParams {
    TransportParams { max_concurrent_uni_streams: Some(0), ..client_params(mtud_supported) }
}

/// Default transport parameters, with MTU discovery on where `supported`
/// says the platform can do it.
pub fn enable_mtud_if_supported(supported: bool) -> (params: TransportParams)
    ensures
        params == mtud_params(supported),
{
    TransportParams {
        max_idle_timeout_ms: None,
        keep_alive_interval_secs: None,
        max_concurrent_uni_streams: None,
        mtu_discovery: supported,
    }
}

/// A rule by which a client decides whether to trust the certificate that a
/// server presents.
pub trait CertPolicy {
    /// Whether the DER-encoded end-entity certificate is accepted for the
    /// given server name.
    fn accepts(&self, end_entity: &[u8], server_name: &str) -> bool;
}

/// The policy that trusts every certificate. It authenticates nobody: use it
/// only where the tunnelled protocol authenticates the peer itself.
#[derive(Clone, Copy, Debug, PartialEq, Eq, Structural)]
pub struct SkipServerVerification;

impl SkipServerVerification {
    /// The policy, ready to be shared.
    pub fn new() -> (policy: Arc<Self>)
        ensures
            *policy == SkipServerVerification,
    {
        Arc::new(SkipServerVerification)
    }
}

impl CertPolicy for SkipServerVerification {
    fn accepts(&self, end_entity: &[u8], server_name: &str) -> (ok: bool)
        ensures
            ok,
    {
        true
    }
}

/// What the client's endpoint is made from.
pub struct ClientSetup<V: CertPolicy> {
    pub transport: TransportParams,
    /// The policy that judges the server's certificate.
    pub verifier: Arc<V>,
    /// Whether the client presents a certificate of its own.
    pub client_auth: bool,
}

/// The client's setup with a trust policy of the caller's choice, and without
/// a client certificate.
pub fn configure_client_with<V: CertPolicy>(verifier: Arc<V>, mtud_supported: bool) -> (setup:
    ClientSetup<V>)
    ensures
        setup.transport == client_params(mtud_supported),
        setup.verifier == verifier,
        !setup.client_auth,
{
    let mut transport = enable_mtud_if_supported(mtud_supported);
    transport.max_idle_timeout_ms = Some(IDLE_TIMEOUT_MS);
    transport.keep_alive_interval_secs = Some(KEEP_ALIVE_SECS);
    ClientSetup { transport, verifier, client_auth: false }
}

/// The client's setup as shipped: every server certificate is accepted.
pub fn configure_client(mtud_supported: bool) -> (setup: ClientSetup<SkipServerVerification>)
    ensures
        setup.transport == client_params(mtud_supported),
        *setup.verifier == SkipServerVerification,
        !setup.client_auth,
{
    configure_client_with(SkipServerVerification::new(), mtud_supported)
}

/// What the server's endpoint is made from.
pub struct ServerSetup {
    pub transport: TransportParams,
    /// The names that the server's self-signed certificate is issued for.
    pub cert_names: Vec<String>,
}

/// The server's setup: a certificate for `localhost` alone, and no
/// unidirectional streams.
pub fn configure_server(mtud_supported: bool) -> (setup: ServerSetup)
    ensures
        setup.transport == server_params(mtud_supported),
        setup.cert_names@.len() == 1,
        setup.cert_names@[0]@ == "localhost"@,
{
    let mut transport = enable_mtud_if_supported(mtud_supported);
    transport.max_concurrent_uni_streams = Some(0);
    transport.max_idle_timeout_ms = Some(IDLE_TIMEOUT_MS);
    transport.keep_alive_interval_secs = Some(KEEP_ALIVE_SECS);
    let mut cert_names: Vec<String> = Vec::new();
    cert_names.push("localhost".to_owned());
    ServerSetup { transport, cert_names }
}

} // verus!
