//! The stable codes that reach `last_error` and the runtime events.
//!
//! The user interface keys its hints off these strings, so each failure keeps
//! one unambiguous code.

use vstd::prelude::*;

verus! {

// Dependencies and environment.
pub const DEPENDENCY_MISSING_IP: &'static str = "volte_dependency_missing:ip";
pub const COMMAND_SPAWN_FAILED: &'static str = "volte_command_spawn_failed";
pub const COMMAND_TIMEOUT: &'static str = "volte_command_timeout";
pub const COMMAND_FAILED: &'static str = "volte_command_failed";
pub const COMMAND_WAIT_FAILED: &'static str = "volte_command_wait_failed";

// Identity and AKA.
pub const IMSI_MISSING: &'static str = "volte_imsi_missing";
pub const MM_IMSI_MISSING: &'static str = "volte_mm_imsi_missing";
pub const CARRIER_PROFILE_MISSING: &'static str = "volte_carrier_profile_missing";
pub const CARRIER_IMS_APN_MISSING: &'static str = "volte_carrier_ims_apn_missing";
pub const USIM_AID_MISSING: &'static str = "volte_usim_aid_missing";
pub const USIM_AID_NOT_USIM: &'static str = "volte_usim_aid_not_usim";
pub const USIM_AKA_FAILED: &'static str = "volte_usim_aka_failed";
pub const AKA_MATERIAL_INVALID: &'static str = "volte_aka_material_invalid";
pub const AKA_RES_EMPTY: &'static str = "volte_aka_res_empty";

// Digest challenges.
pub const DIGEST_CHALLENGE_MISSING: &'static str = "volte_digest_challenge_missing";
pub const DIGEST_REALM_MISSING: &'static str = "volte_digest_realm_missing";
pub const DIGEST_NONCE_MISSING: &'static str = "volte_digest_nonce_missing";
pub const DIGEST_NONCE_DECODE_FAILED: &'static str = "volte_digest_nonce_decode_failed";
pub const DIGEST_QOP_UNSUPPORTED: &'static str = "volte_digest_qop_unsupported";
pub const DIGEST_ALGORITHM_UNSUPPORTED: &'static str = "volte_digest_algorithm_unsupported";
pub const REGISTER_NONCE_NOT_AKA: &'static str = "volte_register_nonce_not_aka";

// IPsec.
pub const IPSEC_IK_INVALID: &'static str = "volte_ipsec_ik_invalid";
pub const IPSEC_REQUIRES_IPV6: &'static str = "volte_ipsec_requires_ipv6";
pub const IPSEC_UDP_BIND_FAILED: &'static str = "volte_ipsec_udp_bind_failed";
pub const SECURITY_SERVER_MISSING: &'static str = "volte_security_server_missing";

// SIP framing.
pub const SIP_STATUS_INVALID: &'static str = "volte_sip_status_invalid";
pub const SIP_STATUS_MISSING: &'static str = "volte_sip_status_missing";
pub const SIP_NOT_UTF8: &'static str = "volte_sip_not_utf8";
pub const SIP_HEADER_NOT_UTF8: &'static str = "volte_sip_header_not_utf8";
pub const SIP_HEADER_MISSING: &'static str = "volte_sip_header_missing";
pub const HEX_INVALID: &'static str = "volte_hex_invalid";

// Bearer, modem and P-CSCF.
pub const RUNTIME_MM_BEARER_ROAMING_FORBIDDEN: &'static str = "volte_runtime_mm_bearer_roaming_forbidden";
pub const RUNTIME_MM_BEARER_NOT_CONNECTED: &'static str = "volte_runtime_mm_bearer_not_connected";
pub const RUNTIME_MM_BEARER_CONNECT_FAILED: &'static str = "volte_runtime_mm_bearer_connect_failed";
pub const RUNTIME_IMS_ENDPOINT_UNAVAILABLE: &'static str = "volte_runtime_ims_endpoint_unavailable";
pub const RUNTIME_IMS_BEARER_START_FAILED: &'static str = "volte_runtime_ims_bearer_start_failed";
pub const RUNTIME_MM_BEARER_PATH_MISSING: &'static str = "volte_runtime_mm_bearer_path_missing";
pub const RUNTIME_MM_MODEM_WAIT_TIMEOUT: &'static str = "volte_runtime_mm_modem_wait_timeout";
pub const RUNTIME_ALL_PCSCF_FAILED: &'static str = "volte_runtime_all_pcscf_failed";
pub const RUNTIME_PROFILE_PCSCF_MISSING: &'static str = "volte_runtime_profile_pcscf_missing";
pub const RUNTIME_IMS_FAMILY_UNSUPPORTED: &'static str = "volte_runtime_ims_family_unsupported";
/// The baseband is at fault and its network interface cannot be used.
pub const BEARER_NETDEV_RUNTIME_ERROR: &'static str = "volte_bearer_netdev_runtime_error";
/// The bearer's network interface could not be opened.
pub const BEARER_NETDEV_NOT_UP: &'static str = "volte_bearer_netdev_not_up";
/// The bearer's network interface stayed down after it was opened.
pub const BEARER_NETDEV_NOT_READY: &'static str = "volte_bearer_netdev_not_ready";
pub const IP_SETTINGS_MISSING: &'static str = "volte_ip_settings_missing";
pub const IPV6_GATEWAY_MISSING: &'static str = "volte_ipv6_gateway_missing";
pub const PCSCF_FAMILY_MISMATCH: &'static str = "volte_pcscf_family_mismatch";

// Data slot allocation.
pub const DATA_SLOT_MODE_MISSING: &'static str = "volte_data_slot_mode_missing";
pub const DATA_SLOT_CONFLICT: &'static str = "volte_data_slot_conflict";

// Registration.
pub const REGISTER_SEND_FAILED: &'static str = "volte_register_send_failed";
pub const REGISTER_AUTH_SEND_FAILED: &'static str = "volte_register_auth_send_failed";
pub const REGISTER_AUTH_UNEXPECTED_STATUS: &'static str = "volte_register_auth_unexpected_status";
pub const REGISTER_INITIAL_UNEXPECTED_STATUS: &'static str = "volte_register_initial_unexpected_status";

// SMS.
pub const SMS_ENCODE_FAILED: &'static str = "volte_sms_encode_failed";
pub const SMSC_MISSING: &'static str = "volte_smsc_missing";
pub const PHONE_URI_INVALID: &'static str = "volte_phone_uri_invalid";
pub const SMS_MESSAGE_ALL_VARIANTS_FAILED: &'static str = "volte_sms_message_all_variants_failed";

// Runtime lifecycle.
pub const RUNTIME_NOT_RUNNING: &'static str = "volte_runtime_not_running";
pub const RUNTIME_SEND_TIMEOUT: &'static str = "volte_runtime_send_timeout";
pub const RANDOM_FAILED: &'static str = "volte_random_failed";

} // verus!
