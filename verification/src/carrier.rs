//! What a carrier's catalog entry says.

use vstd::prelude::*;

verus! {

#[derive(Debug, PartialEq, Eq)]
pub struct CarrierMeta {
    pub profile_id: &'static str,
}

#[derive(Debug, PartialEq, Eq)]
pub struct CarrierEpdg {
    pub host: &'static str,
    pub port: u16,
    pub apn: Option<&'static str>,
    pub ip_stack: &'static str,
    pub dns_servers: Vec<&'static str>,
    pub dns_server: Option<&'static str>,
}

/// How a carrier wants REGISTER requests to look.
#[derive(Debug, PartialEq, Eq)]
pub struct CarrierRegister {
    pub initial_authorization: &'static str,
    pub sec_agree_mode: &'static str,
    pub require_sec_agree_headers: bool,
    pub proxy_require_sec_agree_headers: bool,
    pub supported_header: &'static str,
    pub live_header_variant_set: &'static str,
    pub include_mmtel_features: bool,
    pub include_route_header: bool,
    pub include_visited_network: bool,
    pub security_client_mechanisms: Vec<&'static str>,
    pub strict_security_server_offer: bool,
    pub expires_seconds: u32,
    pub always_add_sip_instance: bool,
}

#[derive(Debug, PartialEq, Eq)]
pub struct CarrierIms {
    pub domain: &'static str,
    pub realm: &'static str,
    pub pcscf: Option<&'static str>,
    pub registrar: Option<&'static str>,
    pub user_agent: &'static str,
    pub register: CarrierRegister,
}

#[derive(Debug, PartialEq, Eq)]
pub struct CarrierIdentity {
    pub device_identity_enabled: bool,
}

/// The read-only catalog entry of one carrier.
#[derive(Debug, PartialEq, Eq)]
pub struct CarrierProfile {
    pub meta: CarrierMeta,
    pub identity: CarrierIdentity,
    pub epdg: CarrierEpdg,
    pub ims: CarrierIms,
}

} // verus!
