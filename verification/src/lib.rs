//! Voice over LTE for the lines of a host: the decisions of its IMS stack, apart
//! from the sockets, commands and modems that carry them out.
//!
//! The modules read what modems, the network and users say (`modem_output`, `at`,
//! `sip`, `sdp`, `dns`), hold the rules of the stack (`plan`, `data_slot`,
//! `effective_profile`, `security`, `register`), and drive its work step by step
//! (`bearer`, `native_bearer`, `pcscf`, `connect`, `session`, `calls`): each step
//! takes what came of the last one and says what to do next.

pub mod access_network;
pub mod at;
pub mod auth;
pub mod bearer;
pub mod calls;
pub mod carrier;
pub mod channel;
pub mod command;
pub mod connect;
pub mod data_slot;
pub mod dns;
pub mod effective_profile;
pub mod errors;
pub mod identity;
pub mod ip;
pub mod ip_settings;
pub mod lists;
pub mod modem_output;
pub mod mwi;
pub mod native_bearer;
pub mod pcscf;
pub mod plan;
pub mod profile_override;
pub mod register;
pub mod runtime;
pub mod sdp;
pub mod security;
pub mod session;
pub mod sip;
pub mod sms;
pub mod text;
