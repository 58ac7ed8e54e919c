//! The IMS bearer of a line: how it is requested, recognized and read.

use vstd::prelude::*;
use vstd::string::*;

use crate::errors::{code, failure, ErrorView, VolteError};
use crate::ip::{address_of, parse_ip, IpAddr};
use crate::ip_settings::{ImsIpSettings, SettingsView};
use crate::modem_output;
use crate::modem_output::value_of;
use crate::text;
use crate::text::{
    all_digits, decimal, halves, has_part, has_prefix, lines_of, lower, number, opt, same_folded,
    texts, trimmed, words,
};

pub mod attempt;
pub mod ensure;
pub mod fitting;
pub mod interface;
pub mod routing;

verus! {

/// The access point that IMS uses by default.
pub const IMS_APN: &'static str = "ims";

/// The variable that pins a bearer for a test or an operator.
pub const BEARER_ENV: &'static str = "SIMADMIN_MM_IMS_BEARER";

/// Where ModemManager keeps its bearers.
pub const BEARER_PATH_PREFIX: &'static str = "/org/freedesktop/ModemManager1/Bearer/";

/// What is asked of an IMS bearer.
#[derive(Debug, PartialEq, Eq)]
pub struct BearerRequest {
    pub apn: String,
    pub allow_roaming: bool,
    /// The 3GPP profile to bind to.
    pub profile_id: Option<u32>,
}

pub struct RequestView {
    pub apn: Seq<char>,
    pub allow_roaming: bool,
    pub profile_id: Option<u32>,
}

impl View for BearerRequest {
    type V = RequestView;

    open spec fn view(&self) -> RequestView {
        RequestView {
            apn: self.apn@,
            allow_roaming: self.allow_roaming,
            profile_id: self.profile_id,
        }
    }
}

impl Clone for BearerRequest {
    fn clone(&self) -> (r: Self)
        ensures
            r@ == self@,
    {
        BearerRequest {
            apn: self.apn.clone(),
            allow_roaming: self.allow_roaming,
            profile_id: self.profile_id,
        }
    }
}

impl Default for BearerRequest {
    fn default() -> (r: Self)
        ensures
            r@ == (RequestView { apn: IMS_APN@, allow_roaming: false, profile_id: None }),
    {
        BearerRequest { apn: IMS_APN.to_string(), allow_roaming: false, profile_id: None }
    }
}

/// The argument that starts a network over QMI.
pub open spec fn wds_argument(request: RequestView) -> Seq<char> {
    match request.profile_id {
        Some(id) => "--wds-start-network=apn="@ + request.apn + ",3gpp-profile="@ + decimal(
            id as nat,
        ),
        None => "--wds-start-network=apn="@ + request.apn,
    }
}

impl BearerRequest {
    /// The default access point.
    pub fn ims(allow_roaming: bool) -> (r: Self)
        ensures
            r@ == (RequestView { apn: IMS_APN@, allow_roaming, profile_id: None }),
    {
        BearerRequest { apn: IMS_APN.to_string(), allow_roaming, profile_id: None }
    }

    /// The given access point.
    pub fn for_apn(apn: &str, allow_roaming: bool) -> (r: Self)
        ensures
            r@ == (RequestView { apn: apn@, allow_roaming, profile_id: None }),
    {
        BearerRequest { apn: apn.to_string(), allow_roaming, profile_id: None }
    }

    /// The argument that starts a network over QMI.
    pub fn wds_start_network_arg(&self) -> (r: String)
        ensures
            r@ == wds_argument(self@),
    {
        let mut arg = "--wds-start-network=apn=".to_string();
        arg.append(self.apn.as_str());
        if let Some(id) = self.profile_id {
            arg.append(",3gpp-profile=");
            let digits = text::decimal_string(id as u64);
            arg.append(digits.as_str());
        }
        arg
    }
}

/// The requests to make of ModemManager, one after the other: bound to the profile
/// first, and by access point alone in case the firmware rejects that.
pub fn modemmanager_bearer_requests(request: &BearerRequest) -> (r: Vec<BearerRequest>)
    ensures
        request@.profile_id is None ==> r@.len() == 1 && r@[0]@ == request@,
        request@.profile_id is Some ==> r@.len() == 2 && r@[0]@ == request@ && r@[1]@ == (
        RequestView { profile_id: None, ..request@ }),
{
    let mut out: Vec<BearerRequest> = Vec::new();
    out.push(request.clone());
    if request.profile_id.is_some() {
        let mut apn_only = request.clone();
        apn_only.profile_id = None;
        out.push(apn_only);
    }
    out
}

/// Whether the request by access point alone may be made after this error: the
/// bearer was refused, but not by a wedged baseband.
pub open spec fn may_retry_unbound(error: ErrorView) -> bool {
    error.code == code::RUNTIME_MM_BEARER_CONNECT_FAILED@ && !crate::plan::class_of_details(
        error.detail_or_empty(),
    ).is_unsafe_to_retry()
}

/// Whether the request by access point alone may be made after this error.
pub fn may_retry_modemmanager_profile_binding(error: &VolteError) -> (r: bool)
    ensures
        r == may_retry_unbound(error@),
{
    if !error.is(code::RUNTIME_MM_BEARER_CONNECT_FAILED) {
        return false;
    }
    let details = match error.detail() {
        Some(detail) => detail,
        None => {
            proof {
                reveal_strlit("");
                assert(""@ =~= Seq::<char>::empty());
            }
            ""
        },
    };
    !crate::plan::FailureClass::from_details(details).is_unsafe_to_retry()
}

/// The object path of a bearer: the prefix and a number.
pub open spec fn bearer_path_valid(path: Seq<char>) -> bool {
    has_prefix(path, BEARER_PATH_PREFIX@) && path.len() > BEARER_PATH_PREFIX@.len() && all_digits(
        path.skip(BEARER_PATH_PREFIX@.len() as int),
    )
}

/// Whether a text is the object path of a bearer.
pub fn is_valid_bearer_path(path: &str) -> (r: bool)
    ensures
        r == bearer_path_valid(path@),
{
    match text::strip_prefix(path, BEARER_PATH_PREFIX) {
        Some(rest) => {
            proof {
                assert(rest@ =~= path@.skip(BEARER_PATH_PREFIX@.len() as int));
            }
            !rest.as_str().is_empty() && text::only_digits(rest.as_str())
        },
        None => false,
    }
}

/// The bearer that the environment pins, where it names one.
pub fn bearer_path_override(raw: Option<&str>) -> (r: Option<String>)
    ensures
        opt(r) == (match raw {
            Some(path) => if bearer_path_valid(trimmed(path@)) {
                Some(trimmed(path@))
            } else {
                None
            },
            None => None,
        }),
{
    match raw {
        Some(path) => {
            let path = text::trim(path);
            if is_valid_bearer_path(path.as_str()) {
                Some(path)
            } else {
                None
            }
        },
        None => None,
    }
}

/// The roaming gate: no bearer abroad unless that is allowed.
pub fn check_roaming(is_roaming: bool, allow_roaming: bool) -> (r: Result<(), VolteError>)
    ensures
        r is Err <==> is_roaming && !allow_roaming,
        r is Err ==> r->Err_0@ == failure(code::RUNTIME_MM_BEARER_ROAMING_FORBIDDEN@),
{
    if is_roaming && !allow_roaming {
        return Err(VolteError::new(code::RUNTIME_MM_BEARER_ROAMING_FORBIDDEN));
    }
    Ok(())
}

// ---------------------------------------------------------------------------
// Properties of a bearer.

/// The value of `key` is `wanted`.
pub open spec fn says(output: Seq<char>, key: Seq<char>, wanted: Seq<char>) -> bool {
    value_of(output, key) == Some(wanted)
}

fn output_says(output: &str, key: &str, wanted: &str) -> (r: bool)
    ensures
        r == says(output@, key@, wanted@),
{
    match modem_output::key_value(output, key) {
        Some(value) => text::same(value.as_str(), wanted),
        None => false,
    }
}

/// The bearer is connected.
pub open spec fn connected(output: Seq<char>) -> bool {
    says(output, "bearer.status.connected"@, "yes"@)
}

/// Whether the bearer is connected.
pub fn is_connected(output: &str) -> (r: bool)
    ensures
        r == connected(output@),
{
    output_says(output, "bearer.status.connected", "yes")
}

/// The bearer was requested for both families.
pub open spec fn dual_stack(details: Seq<char>) -> bool {
    match value_of(details, "bearer.properties.ip-type"@) {
        Some(ip_type) => same_folded(ip_type, "ipv4v6"@),
        None => false,
    }
}

/// Whether the bearer was requested for both families.
pub fn is_dual_stack_bearer(details: &str) -> (r: bool)
    ensures
        r == dual_stack(details@),
{
    match modem_output::key_value(details, "bearer.properties.ip-type") {
        Some(ip_type) => text::same_ignoring_case(ip_type.as_str(), "ipv4v6"),
        None => false,
    }
}

/// What a roaming property says, where it can be read.
pub open spec fn roaming_word(raw: Seq<char>) -> Option<bool> {
    let word = lower(trimmed(raw));
    if word == "yes"@ || word == "true"@ || word == "1"@ || word == "allowed"@ || word == "any"@ {
        Some(true)
    } else if word == "no"@ || word == "false"@ || word == "0"@ || word == "forbidden"@ || word
        == "none"@ || word == "home"@ {
        Some(false)
    } else if has_part(word, "partner"@) || has_part(word, "non-partner"@) {
        Some(true)
    } else {
        None
    }
}

pub open spec fn roaming_in(details: Seq<char>, key: Seq<char>) -> Option<bool> {
    match value_of(details, key) {
        Some(raw) => roaming_word(raw),
        None => None,
    }
}

/// Whether the bearer allows roaming, where it says so under either name.
pub open spec fn allows_roaming(details: Seq<char>) -> Option<bool> {
    match roaming_in(details, "bearer.properties.roaming-allowance"@) {
        Some(allowed) => Some(allowed),
        None => roaming_in(details, "bearer.properties.allow-roaming"@),
    }
}

fn read_roaming_word(raw: &str) -> (r: Option<bool>)
    ensures
        r == roaming_word(raw@),
{
    let folded = text::lower_case(text::trim(raw).as_str());
    let word = folded.as_str();
    if text::same(word, "yes") || text::same(word, "true") || text::same(word, "1") || text::same(
        word,
        "allowed",
    ) || text::same(word, "any") {
        Some(true)
    } else if text::same(word, "no") || text::same(word, "false") || text::same(word, "0")
        || text::same(word, "forbidden") || text::same(word, "none") || text::same(word, "home") {
        Some(false)
    } else if text::contains(word, "partner") || text::contains(word, "non-partner") {
        Some(true)
    } else {
        None
    }
}

fn read_roaming(details: &str, key: &str) -> (r: Option<bool>)
    ensures
        r == roaming_in(details@, key@),
{
    match modem_output::key_value(details, key) {
        Some(raw) => read_roaming_word(raw.as_str()),
        None => None,
    }
}

/// Whether the bearer allows roaming, where it says so.
pub fn bearer_allows_roaming(details: &str) -> (r: Option<bool>)
    ensures
        r == allows_roaming(details@),
{
    match read_roaming(details, "bearer.properties.roaming-allowance") {
        Some(allowed) => Some(allowed),
        None => read_roaming(details, "bearer.properties.allow-roaming"),
    }
}

/// The bearer's roaming policy is the requested one, or not known.
pub open spec fn roaming_matches(details: Seq<char>, allow_roaming: bool) -> bool {
    match allows_roaming(details) {
        Some(actual) => actual == allow_roaming,
        None => true,
    }
}

/// Whether the bearer's roaming policy is the requested one. One that cannot be
/// read is no reason to recreate the bearer.
pub fn bearer_roaming_policy_matches(details: &str, allow_roaming: bool) -> (r: bool)
    ensures
        r == roaming_matches(details@, allow_roaming),
{
    match bearer_allows_roaming(details) {
        Some(actual) => actual == allow_roaming,
        None => true,
    }
}

/// The bearer is bound to the requested profile, where one is requested.
pub open spec fn profile_matches(details: Seq<char>, expected: Option<u32>) -> bool {
    match expected {
        Some(expected) => number_in(details, "bearer.properties.profile-id"@, 0xffff_ffff) == Some(
            expected as nat,
        ),
        None => true,
    }
}

/// The number that `output` gives for `key`.
pub open spec fn number_in(output: Seq<char>, key: Seq<char>, max: nat) -> Option<nat> {
    match value_of(output, key) {
        Some(value) => number(value, max),
        None => None,
    }
}

fn number_value(output: &str, key: &str, max: u64) -> (r: Option<u64>)
    ensures
        match r {
            Some(n) => number_in(output@, key@, max as nat) == Some(n as nat) && n <= max,
            None => number_in(output@, key@, max as nat) is None,
        },
{
    match modem_output::key_value(output, key) {
        Some(value) => text::parse_number(value.as_str(), max),
        None => None,
    }
}

/// Whether the bearer is bound to the requested profile.
pub fn bearer_profile_matches(details: &str, expected: Option<u32>) -> (r: bool)
    ensures
        r == profile_matches(details@, expected),
{
    match expected {
        Some(expected) => match number_value(
            details,
            "bearer.properties.profile-id",
            0xffff_ffff,
        ) {
            Some(n) => n == expected as u64,
            None => false,
        },
        None => true,
    }
}

/// The properties of a new bearer.
pub open spec fn bearer_properties(request: RequestView, ip_type: Seq<char>) -> Seq<char> {
    let head = match request.profile_id {
        Some(id) => "profile-id="@ + decimal(id as nat) + ",apn="@ + request.apn,
        None => "apn="@ + request.apn,
    };
    head + ",ip-type="@ + ip_type + ",allow-roaming="@ + (if request.allow_roaming {
        "yes"@
    } else {
        "no"@
    })
}

/// Writes the properties of a new bearer.
pub fn create_bearer_properties(request: &BearerRequest, ip_type: &str) -> (r: String)
    ensures
        r@ == bearer_properties(request@, ip_type@),
{
    let mut properties = match request.profile_id {
        Some(id) => {
            let mut head = "profile-id=".to_string();
            let digits = text::decimal_string(id as u64);
            head.append(digits.as_str());
            head.append(",apn=");
            head
        },
        None => "apn=".to_string(),
    };
    properties.append(request.apn.as_str());
    properties.append(",ip-type=");
    properties.append(ip_type);
    properties.append(",allow-roaming=");
    properties.append(
        if request.allow_roaming {
            "yes"
        } else {
            "no"
        },
    );
    properties
}

// ---------------------------------------------------------------------------
// A connected bearer.

/// A connected bearer.
#[derive(Debug, PartialEq, Eq)]
pub struct BearerConnection {
    pub path: String,
    pub interface: String,
    pub ip_type: String,
    pub settings: ImsIpSettings,
    pub ipv4_prefix: Option<u8>,
    pub ipv6_prefix: Option<u8>,
    pub mtu: Option<u32>,
}

pub struct ConnectionView {
    pub path: Seq<char>,
    pub interface: Seq<char>,
    pub ip_type: Seq<char>,
    pub settings: SettingsView,
    pub ipv4_prefix: Option<u8>,
    pub ipv6_prefix: Option<u8>,
    pub mtu: Option<u32>,
}

impl View for BearerConnection {
    type V = ConnectionView;

    open spec fn view(&self) -> ConnectionView {
        ConnectionView {
            path: self.path@,
            interface: self.interface@,
            ip_type: self.ip_type@,
            settings: self.settings@,
            ipv4_prefix: self.ipv4_prefix,
            ipv6_prefix: self.ipv6_prefix,
            mtu: self.mtu,
        }
    }
}

impl Clone for BearerConnection {
    fn clone(&self) -> (r: Self)
        ensures
            r@ == self@,
    {
        BearerConnection {
            path: self.path.clone(),
            interface: self.interface.clone(),
            ip_type: self.ip_type.clone(),
            settings: self.settings.clone(),
            ipv4_prefix: self.ipv4_prefix,
            ipv6_prefix: self.ipv6_prefix,
            mtu: self.mtu,
        }
    }
}

impl BearerConnection {
    /// The preferred local address.
    pub fn local_addr(&self) -> (r: Result<IpAddr, VolteError>)
        ensures
            match r {
                Ok(addr) => self@.settings.preferred() == Some(addr),
                Err(error) => self@.settings.preferred() is None && error@ == failure(
                    code::IP_SETTINGS_MISSING@,
                ),
            },
    {
        match self.settings.local_addr() {
            Some(addr) => Ok(addr),
            None => Err(VolteError::new(code::IP_SETTINGS_MISSING)),
        }
    }
}

/// The address that `output` gives for `key`; `--` is none.
pub open spec fn address_in(output: Seq<char>, key: Seq<char>) -> Option<IpAddr> {
    match value_of(output, key) {
        Some(value) => if value == "--"@ {
            None
        } else {
            address_of(value)
        },
        None => None,
    }
}

fn ip_value(output: &str, key: &str) -> (r: Option<IpAddr>)
    ensures
        r == address_in(output@, key@),
{
    match modem_output::key_value(output, key) {
        Some(value) => if text::same(value.as_str(), "--") {
            None
        } else {
            parse_ip(value.as_str())
        },
        None => None,
    }
}

/// The address in a line whose key begins with `prefix`.
pub open spec fn listed_address(line: Seq<char>, prefix: Seq<char>) -> Option<IpAddr> {
    match halves(line, ':') {
        Some((key, value)) => if has_prefix(trimmed(key), prefix) {
            address_of(trimmed(value))
        } else {
            None
        },
        None => None,
    }
}

/// The addresses of the lines whose keys begin with `prefix`.
pub open spec fn addresses_under(lines: Seq<Seq<char>>, prefix: Seq<char>) -> Seq<IpAddr>
    decreases lines.len(),
{
    if lines.len() == 0 {
        Seq::empty()
    } else {
        let front = addresses_under(lines.drop_last(), prefix);
        match listed_address(lines.last(), prefix) {
            Some(addr) => front.push(addr),
            None => front,
        }
    }
}

fn list_ip_values(output: &str, key_prefix: &str) -> (r: Vec<IpAddr>)
    ensures
        r@ == addresses_under(lines_of(output@), key_prefix@),
{
    let lines = text::lines(output);
    let ghost all = texts(lines@);
    let mut out: Vec<IpAddr> = Vec::new();
    let mut i: usize = 0;
    proof {
        assert(all.take(0) =~= Seq::<Seq<char>>::empty());
    }
    while i < lines.len()
        invariant
            i <= lines@.len(),
            all == texts(lines@),
            out@ == addresses_under(all.take(i as int), key_prefix@),
        decreases lines@.len() - i,
    {
        proof {
            assert(all.take(i as int + 1).drop_last() =~= all.take(i as int));
            assert(all.take(i as int + 1).last() == lines@[i as int]@);
        }
        if let Some((key, value)) = text::split_once(lines[i].as_str(), ':') {
            if text::starts_with(text::trim(key.as_str()).as_str(), key_prefix) {
                if let Some(addr) = parse_ip(text::trim(value.as_str()).as_str()) {
                    out.push(addr);
                }
            }
        }
        i += 1;
    }
    proof {
        assert(all.take(all.len() as int) =~= all);
    }
    out
}

/// The settings that the output of a bearer gives.
pub open spec fn bearer_settings(output: Seq<char>) -> SettingsView {
    SettingsView {
        ipv4_address: address_in(output, "bearer.ipv4-config.address"@),
        ipv4_gateway: address_in(output, "bearer.ipv4-config.gateway"@),
        ipv4_dns: addresses_under(lines_of(output), "bearer.ipv4-config.dns.value"@),
        ipv6_address: address_in(output, "bearer.ipv6-config.address"@),
        ipv6_gateway: address_in(output, "bearer.ipv6-config.gateway"@),
        ipv6_dns: addresses_under(lines_of(output), "bearer.ipv6-config.dns.value"@),
        pcscf: Seq::empty(),
    }
}

pub open spec fn opt_u8(n: Option<nat>) -> Option<u8> {
    match n {
        Some(n) => Some(n as u8),
        None => None,
    }
}

pub open spec fn opt_u32(n: Option<nat>) -> Option<u32> {
    match n {
        Some(n) => Some(n as u32),
        None => None,
    }
}

/// The connected bearer that an output describes, or why it describes none.
pub open spec fn connection_in(path: Seq<char>, output: Seq<char>) -> Result<
    ConnectionView,
    ErrorView,
> {
    let interface = value_of(output, "bearer.status.interface"@);
    if !connected(output) {
        Err(failure(code::RUNTIME_MM_BEARER_NOT_CONNECTED@))
    } else if interface is None || interface->0 == "--"@ || bearer_settings(output).preferred()
        is None {
        Err(failure(code::IP_SETTINGS_MISSING@))
    } else {
        Ok(
            ConnectionView {
                path,
                interface: interface->0,
                ip_type: match value_of(output, "bearer.properties.ip-type"@) {
                    Some(ip_type) => ip_type,
                    None => "unknown"@,
                },
                settings: bearer_settings(output),
                ipv4_prefix: opt_u8(number_in(output, "bearer.ipv4-config.prefix"@, 255)),
                ipv6_prefix: opt_u8(number_in(output, "bearer.ipv6-config.prefix"@, 255)),
                mtu: match number_in(output, "bearer.ipv6-config.mtu"@, 0xffff_ffff) {
                    Some(mtu) => Some(mtu as u32),
                    None => opt_u32(number_in(output, "bearer.ipv4-config.mtu"@, 0xffff_ffff)),
                },
            },
        )
    }
}

fn read_prefix(output: &str, key: &str) -> (r: Option<u8>)
    ensures
        r == opt_u8(number_in(output@, key@, 255)),
{
    match number_value(output, key, 255) {
        Some(n) => Some(n as u8),
        None => None,
    }
}

fn read_mtu(output: &str, key: &str) -> (r: Option<u32>)
    ensures
        r == opt_u32(number_in(output@, key@, 0xffff_ffff)),
{
    match number_value(output, key, 0xffff_ffff) {
        Some(n) => Some(n as u32),
        None => None,
    }
}

/// Reads a connected bearer.
pub fn parse_bearer_connection(path: &str, output: &str) -> (r: Result<
    BearerConnection,
    VolteError,
>)
    ensures
        match r {
            Ok(bearer) => connection_in(path@, output@) == Ok::<ConnectionView, ErrorView>(bearer@),
            Err(error) => connection_in(path@, output@) == Err::<ConnectionView, ErrorView>(error@),
        },
{
    if !is_connected(output) {
        return Err(VolteError::new(code::RUNTIME_MM_BEARER_NOT_CONNECTED));
    }
    let interface = match modem_output::key_value(output, "bearer.status.interface") {
        Some(interface) => interface,
        None => return Err(VolteError::new(code::IP_SETTINGS_MISSING)),
    };
    if text::same(interface.as_str(), "--") {
        return Err(VolteError::new(code::IP_SETTINGS_MISSING));
    }
    let settings = ImsIpSettings {
        ipv4_address: ip_value(output, "bearer.ipv4-config.address"),
        ipv4_gateway: ip_value(output, "bearer.ipv4-config.gateway"),
        ipv4_dns: list_ip_values(output, "bearer.ipv4-config.dns.value"),
        ipv6_address: ip_value(output, "bearer.ipv6-config.address"),
        ipv6_gateway: ip_value(output, "bearer.ipv6-config.gateway"),
        ipv6_dns: list_ip_values(output, "bearer.ipv6-config.dns.value"),
        pcscf: Vec::new(),
    };
    if settings.local_addr().is_none() {
        return Err(VolteError::new(code::IP_SETTINGS_MISSING));
    }
    let mtu = match read_mtu(output, "bearer.ipv6-config.mtu") {
        Some(mtu) => Some(mtu),
        None => read_mtu(output, "bearer.ipv4-config.mtu"),
    };
    let ip_type = match modem_output::key_value(output, "bearer.properties.ip-type") {
        Some(ip_type) => ip_type,
        None => "unknown".to_string(),
    };
    Ok(
        BearerConnection {
            path: path.to_string(),
            interface,
            ip_type,
            settings,
            ipv4_prefix: read_prefix(output, "bearer.ipv4-config.prefix"),
            ipv6_prefix: read_prefix(output, "bearer.ipv6-config.prefix"),
            mtu,
        },
    )
}

// ---------------------------------------------------------------------------
// Object paths in tool output.

/// The bearer that a line of the modem's output lists.
pub open spec fn listed_bearer(line: Seq<char>) -> Option<Seq<char>> {
    match halves(line, ':') {
        Some((key, value)) => if has_prefix(trimmed(key), "modem.generic.bearers.value"@)
            && bearer_path_valid(trimmed(value)) {
            Some(trimmed(value))
        } else {
            None
        },
        None => None,
    }
}

/// The bearers that the modem's output lists.
pub open spec fn listed_bearers(lines: Seq<Seq<char>>) -> Seq<Seq<char>>
    decreases lines.len(),
{
    if lines.len() == 0 {
        Seq::empty()
    } else {
        let front = listed_bearers(lines.drop_last());
        match listed_bearer(lines.last()) {
            Some(path) => front.push(path),
            None => front,
        }
    }
}

/// Reads the bearers that the modem's output lists.
pub fn parse_bearer_paths(output: &str) -> (r: Vec<String>)
    ensures
        texts(r@) == listed_bearers(lines_of(output@)),
{
    let lines = text::lines(output);
    let ghost all = texts(lines@);
    let mut out: Vec<String> = Vec::new();
    let mut i: usize = 0;
    proof {
        assert(all.take(0) =~= Seq::<Seq<char>>::empty());
        assert(texts(out@) =~= Seq::<Seq<char>>::empty());
    }
    while i < lines.len()
        invariant
            i <= lines@.len(),
            all == texts(lines@),
            texts(out@) == listed_bearers(all.take(i as int)),
        decreases lines@.len() - i,
    {
        proof {
            assert(all.take(i as int + 1).drop_last() =~= all.take(i as int));
            assert(all.take(i as int + 1).last() == lines@[i as int]@);
        }
        if let Some((key, value)) = text::split_once(lines[i].as_str(), ':') {
            if text::starts_with(text::trim(key.as_str()).as_str(), "modem.generic.bearers.value") {
                let path = text::trim(value.as_str());
                if is_valid_bearer_path(path.as_str()) {
                    let ghost before = out@;
                    out.push(path);
                    proof {
                        assert(texts(out@) =~= texts(before).push(path@));
                    }
                }
            }
        }
        i += 1;
    }
    proof {
        assert(all.take(all.len() as int) =~= all);
    }
    out
}

/// The first word that is the object path of a bearer.
pub open spec fn first_bearer_word(w: Seq<Seq<char>>) -> Option<Seq<char>>
    decreases w.len(),
{
    if w.len() == 0 {
        None
    } else if bearer_path_valid(trimmed(w[0])) {
        Some(trimmed(w[0]))
    } else {
        first_bearer_word(w.drop_first())
    }
}

/// Reads the bearer that was created.
pub fn parse_created_bearer_path(output: &str) -> (r: Option<String>)
    ensures
        opt(r) == first_bearer_word(words(output@)),
{
    let w = text::split_words(output);
    let ghost all = texts(w@);
    let mut i: usize = 0;
    proof {
        assert(all.skip(0) =~= all);
    }
    while i < w.len()
        invariant
            i <= w@.len(),
            all == texts(w@),
            first_bearer_word(all) == first_bearer_word(all.skip(i as int)),
            all == words(output@),
        decreases w@.len() - i,
    {
        proof {
            assert(all.skip(i as int).drop_first() =~= all.skip(i as int + 1));
            assert(all.skip(i as int)[0] == w@[i as int]@);
        }
        let path = text::trim(w[i].as_str());
        if is_valid_bearer_path(path.as_str()) {
            return Some(path);
        }
        i += 1;
    }
    None
}

} // verus!
