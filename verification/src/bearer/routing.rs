//! Addresses and routes of a bearer: the commands that install and remove them, in
//! the host's own tables or in the line's worker.

use vstd::prelude::*;
use vstd::string::*;

use crate::bearer::{BearerConnection, ConnectionView};
use crate::errors::{code, detailed, failure, ErrorView, VolteError};
use crate::ip::IpAddr;
use crate::lists::add_text;
use crate::text;
use crate::text::{decimal, texts};

verus! {

/// The code of a destination that the bearer has no address for.
pub const ROUTE_FAMILY_MISMATCH: &'static str = "volte_route_family_mismatch";

/// The prefix of an IPv6 address that came without one.
pub const IPV6_PREFIX_DEFAULT: u8 = 64;

/// The prefix of an IPv4 address that came without one.
pub const IPV4_PREFIX_DEFAULT: u8 = 32;

/// Where the traffic of one local address is routed.
#[derive(Debug, PartialEq, Eq)]
pub struct SourceRouting {
    /// The table that belongs to the address.
    pub table: u32,
    /// The priority of its rule.
    pub priority: u32,
    /// What selects the address as a source.
    pub source: String,
    /// The network that is reached directly.
    pub connected: String,
}

pub struct RoutingView {
    pub table: u32,
    pub priority: u32,
    pub source: Seq<char>,
    pub connected: Seq<char>,
}

impl View for SourceRouting {
    type V = RoutingView;

    open spec fn view(&self) -> RoutingView {
        RoutingView {
            table: self.table,
            priority: self.priority,
            source: self.source@,
            connected: self.connected@,
        }
    }
}

/// An address with its prefix.
pub open spec fn with_prefix(address: IpAddr, prefix: u8) -> Seq<char> {
    address.text() + "/"@ + decimal(prefix as nat)
}

fn with_prefix_string(address: IpAddr, prefix: u8) -> (r: String)
    ensures
        r@ == with_prefix(address, prefix),
{
    let mut out = address.to_string();
    out.append("/");
    let digits = text::decimal_string(prefix as u64);
    out.append(digits.as_str());
    out
}

/// What selects one host as a destination.
pub open spec fn selector(host: IpAddr) -> Seq<char> {
    with_prefix(
        host,
        if host.is_ipv6() {
            128
        } else {
            32
        },
    )
}

/// What selects one host as a destination.
pub fn host_selector(host: IpAddr) -> (r: String)
    ensures
        r@ == selector(host),
{
    let full: u8 = if host.is_ipv6() {
        128
    } else {
        32
    };
    with_prefix_string(host, full)
}

/// Arguments of `ip`, led by its family switch.
pub open spec fn ip_args(v6: bool, args: Seq<Seq<char>>) -> Seq<Seq<char>> {
    if v6 {
        seq!["-6"@] + args
    } else {
        args
    }
}

fn start_args(v6: bool) -> (r: Vec<String>)
    ensures
        texts(r@) == ip_args(v6, Seq::empty()),
{
    let mut out: Vec<String> = Vec::new();
    if v6 {
        out.push("-6".to_string());
    }
    proof {
        assert(texts(out@) =~= ip_args(v6, Seq::empty()));
    }
    out
}

fn number_arg(args: &mut Vec<String>, n: u32)
    ensures
        texts(final(args)@) == texts(old(args)@).push(decimal(n as nat)),
{
    let digits = text::decimal_string(n as u64);
    add_text(args, digits.as_str());
}

/// Sets the size of the interface's packets.
pub fn mtu_args(interface: &str, mtu: u32) -> (r: Vec<String>)
    ensures
        texts(r@) == seq![
            "link"@,
            "set"@,
            "dev"@,
            interface@,
            "mtu"@,
            decimal(mtu as nat),
        ],
{
    let mut out = start_args(false);
    add_text(&mut out, "link");
    add_text(&mut out, "set");
    add_text(&mut out, "dev");
    add_text(&mut out, interface);
    add_text(&mut out, "mtu");
    number_arg(&mut out, mtu);
    proof {
        assert(texts(out@) =~= seq![
            "link"@,
            "set"@,
            "dev"@,
            interface@,
            "mtu"@,
            decimal(mtu as nat),
        ]);
    }
    out
}

/// Opens the interface.
pub fn open_args(interface: &str) -> (r: Vec<String>)
    ensures
        texts(r@) == seq!["link"@, "set"@, "dev"@, interface@, "up"@],
{
    let mut out = start_args(false);
    add_text(&mut out, "link");
    add_text(&mut out, "set");
    add_text(&mut out, "dev");
    add_text(&mut out, interface);
    add_text(&mut out, "up");
    proof {
        assert(texts(out@) =~= seq!["link"@, "set"@, "dev"@, interface@, "up"@]);
    }
    out
}

/// Installs an address.
pub open spec fn address_args(address: IpAddr, prefix: u8, interface: Seq<char>) -> Seq<Seq<char>> {
    ip_args(
        address.is_ipv6(),
        seq!["address"@, "replace"@, with_prefix(address, prefix), "dev"@, interface],
    )
}

/// Routes one destination over the interface, in one table.
pub open spec fn route_args(
    v6: bool,
    destination: Seq<char>,
    interface: Seq<char>,
    table: u32,
) -> Seq<Seq<char>> {
    ip_args(
        v6,
        seq![
            "route"@,
            "replace"@,
            destination,
            "dev"@,
            interface,
            "table"@,
            decimal(table as nat),
        ],
    )
}

/// Empties a table.
pub open spec fn flush_args(v6: bool, table: u32) -> Seq<Seq<char>> {
    ip_args(v6, seq!["route"@, "flush"@, "table"@, decimal(table as nat)])
}

/// Removes a rule.
pub open spec fn unrule_args(v6: bool, priority: u32) -> Seq<Seq<char>> {
    ip_args(v6, seq!["rule"@, "del"@, "priority"@, decimal(priority as nat)])
}

/// Adds the rule that sends an address's traffic to its table.
pub open spec fn rule_args(v6: bool, routing: RoutingView) -> Seq<Seq<char>> {
    ip_args(
        v6,
        seq![
            "rule"@,
            "add"@,
            "priority"@,
            decimal(routing.priority as nat),
            "from"@,
            routing.source,
            "table"@,
            decimal(routing.table as nat),
        ],
    )
}

fn address_command(address: IpAddr, prefix: u8, interface: &str) -> (r: Vec<String>)
    ensures
        texts(r@) == address_args(address, prefix, interface@),
{
    let mut out = start_args(address.is_ipv6());
    add_text(&mut out, "address");
    add_text(&mut out, "replace");
    let cidr = with_prefix_string(address, prefix);
    add_text(&mut out, cidr.as_str());
    add_text(&mut out, "dev");
    add_text(&mut out, interface);
    proof {
        assert(texts(out@) =~= address_args(address, prefix, interface@));
    }
    out
}

fn route_command(v6: bool, destination: &str, interface: &str, table: u32) -> (r: Vec<String>)
    ensures
        texts(r@) == route_args(v6, destination@, interface@, table),
{
    let mut out = start_args(v6);
    add_text(&mut out, "route");
    add_text(&mut out, "replace");
    add_text(&mut out, destination);
    add_text(&mut out, "dev");
    add_text(&mut out, interface);
    add_text(&mut out, "table");
    number_arg(&mut out, table);
    proof {
        assert(texts(out@) =~= route_args(v6, destination@, interface@, table));
    }
    out
}

fn flush_command(v6: bool, table: u32) -> (r: Vec<String>)
    ensures
        texts(r@) == flush_args(v6, table),
{
    let mut out = start_args(v6);
    add_text(&mut out, "route");
    add_text(&mut out, "flush");
    add_text(&mut out, "table");
    number_arg(&mut out, table);
    proof {
        assert(texts(out@) =~= flush_args(v6, table));
    }
    out
}

fn unrule_command(v6: bool, priority: u32) -> (r: Vec<String>)
    ensures
        texts(r@) == unrule_args(v6, priority),
{
    let mut out = start_args(v6);
    add_text(&mut out, "rule");
    add_text(&mut out, "del");
    add_text(&mut out, "priority");
    number_arg(&mut out, priority);
    proof {
        assert(texts(out@) =~= unrule_args(v6, priority));
    }
    out
}

fn rule_command(v6: bool, routing: &SourceRouting) -> (r: Vec<String>)
    ensures
        texts(r@) == rule_args(v6, routing@),
{
    let mut out = start_args(v6);
    add_text(&mut out, "rule");
    add_text(&mut out, "add");
    add_text(&mut out, "priority");
    number_arg(&mut out, routing.priority);
    add_text(&mut out, "from");
    add_text(&mut out, routing.source.as_str());
    add_text(&mut out, "table");
    number_arg(&mut out, routing.table);
    proof {
        assert(texts(out@) =~= rule_args(v6, routing@));
    }
    out
}

/// Flushes everything of a kind from one interface.
pub open spec fn flush_dev_args(v6: bool, what: Seq<char>, interface: Seq<char>) -> Seq<Seq<char>> {
    ip_args(v6, seq![what, "flush"@, "dev"@, interface])
}

fn flush_dev_command(v6: bool, what: &str, interface: &str) -> (r: Vec<String>)
    ensures
        texts(r@) == flush_dev_args(v6, what@, interface@),
{
    let mut out = start_args(v6);
    add_text(&mut out, what);
    add_text(&mut out, "flush");
    add_text(&mut out, "dev");
    add_text(&mut out, interface);
    proof {
        assert(texts(out@) =~= flush_dev_args(v6, what@, interface@));
    }
    out
}

/// A run of `ip`, and whether its failure ends the whole.
#[derive(Debug, PartialEq, Eq)]
pub struct IpCommand {
    pub args: Vec<String>,
    pub required: bool,
}

pub struct CommandView {
    pub args: Seq<Seq<char>>,
    pub required: bool,
}

impl View for IpCommand {
    type V = CommandView;

    open spec fn view(&self) -> CommandView {
        CommandView { args: texts(self.args@), required: self.required }
    }
}

pub open spec fn commands(list: Seq<IpCommand>) -> Seq<CommandView> {
    list.map_values(|command: IpCommand| command@)
}

pub open spec fn required(args: Seq<Seq<char>>) -> CommandView {
    CommandView { args, required: true }
}

pub open spec fn optional(args: Seq<Seq<char>>) -> CommandView {
    CommandView { args, required: false }
}

fn add_command(list: &mut Vec<IpCommand>, args: Vec<String>, required: bool)
    ensures
        commands(final(list)@) == commands(old(list)@).push(
            CommandView { args: texts(args@), required },
        ),
{
    let ghost command = CommandView { args: texts(args@), required };
    list.push(IpCommand { args, required });
    proof {
        assert(commands(list@) =~= commands(old(list)@).push(command));
    }
}

/// Removes what is left of an address's routing.
pub open spec fn clearing(v6: bool, table: u32, priority: u32) -> Seq<CommandView> {
    seq![optional(flush_args(v6, table)), optional(unrule_args(v6, priority))]
}

/// Routes by source: old state goes, the rule and the connected network come.
pub open spec fn source_policy(
    interface: Seq<char>,
    address: IpAddr,
    routing: RoutingView,
) -> Seq<CommandView> {
    clearing(address.is_ipv6(), routing.table, routing.priority) + seq![
        required(rule_args(address.is_ipv6(), routing)),
        required(route_args(address.is_ipv6(), routing.connected, interface, routing.table)),
    ]
}

/// Installs one address and the routing of its traffic.
pub open spec fn address_setup(
    interface: Seq<char>,
    address: IpAddr,
    prefix: u8,
    routing: RoutingView,
) -> Seq<CommandView> {
    seq![required(address_args(address, prefix, interface))] + source_policy(
        interface,
        address,
        routing,
    )
}

/// The address of a family, where it is one of that family.
pub open spec fn own_address(bearer: ConnectionView, v6: bool) -> Option<IpAddr> {
    let address = if v6 {
        bearer.settings.ipv6_address
    } else {
        bearer.settings.ipv4_address
    };
    match address {
        Some(address) => if address.is_ipv6() == v6 {
            Some(address)
        } else {
            None
        },
        None => None,
    }
}

/// The prefix of a family's address.
pub open spec fn own_prefix(bearer: ConnectionView, v6: bool) -> u8 {
    if v6 {
        match bearer.ipv6_prefix {
            Some(prefix) => prefix,
            None => IPV6_PREFIX_DEFAULT,
        }
    } else {
        match bearer.ipv4_prefix {
            Some(prefix) => prefix,
            None => IPV4_PREFIX_DEFAULT,
        }
    }
}

fn prefix_of(bearer: &BearerConnection, v6: bool) -> (r: u8)
    ensures
        r == own_prefix(bearer@, v6),
{
    if v6 {
        match bearer.ipv6_prefix {
            Some(prefix) => prefix,
            None => IPV6_PREFIX_DEFAULT,
        }
    } else {
        match bearer.ipv4_prefix {
            Some(prefix) => prefix,
            None => IPV4_PREFIX_DEFAULT,
        }
    }
}

/// The commands that install one family's address and the routing of its traffic.
/// The routes to the name servers of that family follow.
pub fn configure_family(bearer: &BearerConnection, v6: bool, routing: &SourceRouting) -> (r: Result<
    Vec<IpCommand>,
    VolteError,
>)
    ensures
        match r {
            Ok(list) => own_address(bearer@, v6) is Some && commands(list@) == address_setup(
                bearer@.interface,
                own_address(bearer@, v6)->0,
                own_prefix(bearer@, v6),
                routing@,
            ),
            Err(error) => own_address(bearer@, v6) is None && error@ == failure(
                code::IP_SETTINGS_MISSING@,
            ),
        },
{
    let address = if v6 {
        bearer.settings.ipv6_address
    } else {
        bearer.settings.ipv4_address
    };
    let address = match address {
        Some(address) => address,
        None => return Err(VolteError::new(code::IP_SETTINGS_MISSING)),
    };
    if address.is_ipv6() != v6 {
        return Err(VolteError::new(code::IP_SETTINGS_MISSING));
    }
    let interface = bearer.interface.as_str();
    let mut list: Vec<IpCommand> = Vec::new();
    proof {
        assert(commands(list@) =~= Seq::<CommandView>::empty());
    }
    let prefix = prefix_of(bearer, v6);
    add_command(&mut list, address_command(address, prefix, interface), true);
    add_command(&mut list, flush_command(v6, routing.table), false);
    add_command(&mut list, unrule_command(v6, routing.priority), false);
    add_command(&mut list, rule_command(v6, routing), true);
    add_command(
        &mut list,
        route_command(v6, routing.connected.as_str(), interface, routing.table),
        true,
    );
    proof {
        assert(commands(list@) =~= address_setup(interface@, address, prefix, routing@));
    }
    Ok(list)
}

/// The bearer's address for a destination's family.
pub open spec fn local_for(bearer: ConnectionView, host: IpAddr) -> Option<IpAddr> {
    if host.is_ipv6() {
        bearer.settings.ipv6_address
    } else {
        bearer.settings.ipv4_address
    }
}

/// The bearer can reach the host: it has an address of the host's family.
pub open spec fn reaches(bearer: ConnectionView, host: IpAddr) -> bool {
    match local_for(bearer, host) {
        Some(local) => local.is_ipv6() == host.is_ipv6(),
        None => false,
    }
}

/// The arguments that route one host over the bearer, in the table of the host's
/// family. The table is chosen by the bearer's own address of that family, so a
/// host is never compared with an address of the other one.
pub fn route_host_on_bearer(bearer: &BearerConnection, host: IpAddr, table: u32) -> (r: Result<
    Vec<String>,
    VolteError,
>)
    ensures
        match r {
            Ok(args) => reaches(bearer@, host) && texts(args@) == route_args(
                host.is_ipv6(),
                selector(host),
                bearer@.interface,
                table,
            ),
            Err(error) => !reaches(bearer@, host) && error@ == failure(ROUTE_FAMILY_MISMATCH@),
        },
{
    let local = match bearer.settings.local_addr_for_family(host) {
        Some(local) => local,
        None => return Err(VolteError::new(ROUTE_FAMILY_MISMATCH)),
    };
    if local.is_ipv6() != host.is_ipv6() {
        return Err(VolteError::new(ROUTE_FAMILY_MISMATCH));
    }
    let destination = host_selector(host);
    Ok(route_command(host.is_ipv6(), destination.as_str(), bearer.interface.as_str(), table))
}

/// What the configuration of the families amounts to: one that worked is enough,
/// and an error of the other is dropped.
pub open spec fn configured(
    v6: Option<Result<(), ErrorView>>,
    v4: Option<Result<(), ErrorView>>,
) -> Option<ErrorView> {
    match (v6, v4) {
        (Some(Ok(_)), _) => None,
        (_, Some(Ok(_))) => None,
        (_, Some(Err(error))) => Some(error),
        (Some(Err(error)), None) => Some(error),
        (None, None) => Some(failure(code::IP_SETTINGS_MISSING@)),
    }
}

pub open spec fn family_result(value: Option<Result<(), VolteError>>) -> Option<
    Result<(), ErrorView>,
> {
    match value {
        Some(Ok(_)) => Some(Ok(())),
        Some(Err(error)) => Some(Err(error@)),
        None => None,
    }
}

/// What the configuration of the families amounts to. A family that the bearer has
/// no address of gives no result.
pub fn families_configured(
    v6: Option<Result<(), VolteError>>,
    v4: Option<Result<(), VolteError>>,
) -> (r: Result<(), VolteError>)
    ensures
        match r {
            Ok(_) => configured(family_result(v6), family_result(v4)) is None,
            Err(error) => configured(family_result(v6), family_result(v4)) == Some(error@),
        },
{
    match (v6, v4) {
        (Some(Ok(_)), _) => Ok(()),
        (_, Some(Ok(_))) => Ok(()),
        (_, Some(Err(error))) => Err(error),
        (Some(Err(error)), None) => Err(error),
        (None, None) => Err(VolteError::new(code::IP_SETTINGS_MISSING)),
    }
}

/// A family that was configured is kept, whatever becomes of the other one.
pub proof fn working_family_is_kept(
    v6: Option<Result<(), ErrorView>>,
    v4: Option<Result<(), ErrorView>>,
)
    ensures
        configured(v6, v4) is None <==> v6 == Some(Ok::<(), ErrorView>(())) || v4 == Some(
            Ok::<(), ErrorView>(()),
        ),
{
    if v6 is Some && v6->0 is Ok {
        assert(v6->0->Ok_0 == ());
    }
    if v4 is Some && v4->0 is Ok {
        assert(v4->0->Ok_0 == ());
    }
}

/// Where one address was routed.
pub open spec fn address_clearing(address: Option<IpAddr>, table: u32, priority: u32) -> Seq<
    CommandView,
> {
    match address {
        Some(address) => clearing(address.is_ipv6(), table, priority),
        None => Seq::empty(),
    }
}

/// Removes the bearer's network state: the routing of each address, then all that
/// is on the interface. No failure ends it.
pub open spec fn teardown(bearer: ConnectionView, v4: RoutingView, v6: RoutingView) -> Seq<
    CommandView,
> {
    address_clearing(bearer.settings.ipv4_address, v4.table, v4.priority) + address_clearing(
        bearer.settings.ipv6_address,
        v6.table,
        v6.priority,
    ) + seq![
        optional(flush_dev_args(true, "route"@, bearer.interface)),
        optional(flush_dev_args(false, "route"@, bearer.interface)),
        optional(flush_dev_args(false, "address"@, bearer.interface)),
    ]
}

fn add_clearing(list: &mut Vec<IpCommand>, address: Option<IpAddr>, routing: &SourceRouting)
    ensures
        commands(final(list)@) == commands(old(list)@) + address_clearing(
            address,
            routing.table,
            routing.priority,
        ),
{
    if let Some(address) = address {
        add_command(list, flush_command(address.is_ipv6(), routing.table), false);
        add_command(list, unrule_command(address.is_ipv6(), routing.priority), false);
    }
    proof {
        assert(commands(list@) =~= commands(old(list)@) + address_clearing(
            address,
            routing.table,
            routing.priority,
        ));
    }
}

/// The commands that remove the bearer's network state.
pub fn teardown_bearer_network(
    bearer: &BearerConnection,
    v4: &SourceRouting,
    v6: &SourceRouting,
) -> (r: Vec<IpCommand>)
    ensures
        commands(r@) == teardown(bearer@, v4@, v6@),
{
    let mut list: Vec<IpCommand> = Vec::new();
    proof {
        assert(commands(list@) =~= Seq::<CommandView>::empty());
    }
    add_clearing(&mut list, bearer.settings.ipv4_address, v4);
    add_clearing(&mut list, bearer.settings.ipv6_address, v6);
    let interface = bearer.interface.as_str();
    add_command(&mut list, flush_dev_command(true, "route", interface), false);
    add_command(&mut list, flush_dev_command(false, "route", interface), false);
    add_command(&mut list, flush_dev_command(false, "address", interface), false);
    proof {
        assert(commands(list@) =~= teardown(bearer@, v4@, v6@));
    }
    list
}

// ---------------------------------------------------------------------------
// The line's worker.

/// An operation on the network of a worker.
#[derive(Debug, PartialEq, Eq)]
pub enum NetConfigOp {
    LinkSetMtu { ifname: String, mtu: u32 },
    AddrReplace { ifname: String, cidr: String },
    RouteReplace {
        target: String,
        via: Option<String>,
        dev: Option<String>,
        src: Option<String>,
        table: Option<u32>,
    },
    LinkSetUp { ifname: String },
    FlushRoutesForDevice { ifname: String, ipv6: bool },
    AddrDel { ifname: String, cidr: String },
}

pub enum OpView {
    LinkSetMtu { ifname: Seq<char>, mtu: u32 },
    AddrReplace { ifname: Seq<char>, cidr: Seq<char> },
    RouteReplace {
        target: Seq<char>,
        via: Option<Seq<char>>,
        dev: Option<Seq<char>>,
        src: Option<Seq<char>>,
        table: Option<u32>,
    },
    LinkSetUp { ifname: Seq<char> },
    FlushRoutesForDevice { ifname: Seq<char>, ipv6: bool },
    AddrDel { ifname: Seq<char>, cidr: Seq<char> },
}

impl View for NetConfigOp {
    type V = OpView;

    open spec fn view(&self) -> OpView {
        match *self {
            NetConfigOp::LinkSetMtu { ifname, mtu } => OpView::LinkSetMtu { ifname: ifname@, mtu },
            NetConfigOp::AddrReplace { ifname, cidr } => OpView::AddrReplace {
                ifname: ifname@,
                cidr: cidr@,
            },
            NetConfigOp::RouteReplace { target, via, dev, src, table } => OpView::RouteReplace {
                target: target@,
                via: text::opt(via),
                dev: text::opt(dev),
                src: text::opt(src),
                table,
            },
            NetConfigOp::LinkSetUp { ifname } => OpView::LinkSetUp { ifname: ifname@ },
            NetConfigOp::FlushRoutesForDevice { ifname, ipv6 } => OpView::FlushRoutesForDevice {
                ifname: ifname@,
                ipv6,
            },
            NetConfigOp::AddrDel { ifname, cidr } => OpView::AddrDel {
                ifname: ifname@,
                cidr: cidr@,
            },
        }
    }
}

pub open spec fn ops(list: Seq<NetConfigOp>) -> Seq<OpView> {
    list.map_values(|op: NetConfigOp| op@)
}

fn add_op(list: &mut Vec<NetConfigOp>, op: NetConfigOp)
    ensures
        ops(final(list)@) == ops(old(list)@).push(op@),
{
    list.push(op);
    proof {
        assert(ops(list@) =~= ops(old(list)@).push(op@));
    }
}

/// The route to one host in the worker's own table.
pub open spec fn host_route(bearer: ConnectionView, host: IpAddr) -> OpView {
    OpView::RouteReplace {
        target: selector(host),
        via: None,
        dev: Some(bearer.interface),
        src: Some(local_for(bearer, host)->0.text()),
        table: None,
    }
}

/// The route to one host in the worker's own table.
pub fn worker_host_route_op(bearer: &BearerConnection, host: IpAddr) -> (r: Result<
    NetConfigOp,
    VolteError,
>)
    ensures
        match r {
            Ok(op) => local_for(bearer@, host) is Some && op@ == host_route(bearer@, host),
            Err(error) => local_for(bearer@, host) is None && error@ == failure(
                ROUTE_FAMILY_MISMATCH@,
            ),
        },
{
    let source = match bearer.settings.local_addr_for_family(host) {
        Some(source) => source,
        None => return Err(VolteError::new(ROUTE_FAMILY_MISMATCH)),
    };
    Ok(
        NetConfigOp::RouteReplace {
            target: host_selector(host),
            via: None,
            dev: Some(bearer.interface.clone()),
            src: Some(source.to_string()),
            table: None,
        },
    )
}

/// The bearer has an address for each of the hosts.
pub open spec fn all_local(bearer: ConnectionView, hosts: Seq<IpAddr>) -> bool {
    forall|i: int| 0 <= i < hosts.len() ==> local_for(bearer, #[trigger] hosts[i]) is Some
}

pub open spec fn host_routes(bearer: ConnectionView, hosts: Seq<IpAddr>) -> Seq<OpView> {
    hosts.map_values(|host: IpAddr| host_route(bearer, host))
}

/// The operations that install one address and the routes to its name servers.
pub open spec fn worker_family(bearer: ConnectionView, v6: bool) -> Seq<OpView> {
    let address = if v6 {
        bearer.settings.ipv6_address
    } else {
        bearer.settings.ipv4_address
    };
    let dns = if v6 {
        bearer.settings.ipv6_dns
    } else {
        bearer.settings.ipv4_dns
    };
    match address {
        Some(address) => seq![
            OpView::AddrReplace {
                ifname: bearer.interface,
                cidr: with_prefix(address, own_prefix(bearer, v6)),
            },
        ] + host_routes(bearer, dns),
        None => Seq::empty(),
    }
}

/// The family has an address, and name servers that the bearer has no address for.
pub open spec fn worker_family_fails(bearer: ConnectionView, v6: bool) -> bool {
    if v6 {
        bearer.settings.ipv6_address is Some && !all_local(bearer, bearer.settings.ipv6_dns)
    } else {
        bearer.settings.ipv4_address is Some && !all_local(bearer, bearer.settings.ipv4_dns)
    }
}

pub open spec fn worker_mtu(bearer: ConnectionView) -> Seq<OpView> {
    match bearer.mtu {
        Some(mtu) => seq![OpView::LinkSetMtu { ifname: bearer.interface, mtu }],
        None => Seq::empty(),
    }
}

/// The operations that set the bearer up in a worker, or why there are none.
pub open spec fn worker_setup(bearer: ConnectionView) -> Result<Seq<OpView>, ErrorView> {
    if worker_family_fails(bearer, true) || worker_family_fails(bearer, false) {
        Err(failure(ROUTE_FAMILY_MISMATCH@))
    } else if bearer.settings.preferred() is None {
        Err(failure(code::IP_SETTINGS_MISSING@))
    } else {
        Ok(
            worker_mtu(bearer) + worker_family(bearer, true) + worker_family(bearer, false) + seq![
                OpView::LinkSetUp { ifname: bearer.interface },
            ],
        )
    }
}

fn add_host_routes(
    list: &mut Vec<NetConfigOp>,
    bearer: &BearerConnection,
    hosts: &Vec<IpAddr>,
) -> (r: Result<(), VolteError>)
    ensures
        match r {
            Ok(_) => all_local(bearer@, hosts@) && ops(final(list)@) == ops(old(list)@)
                + host_routes(bearer@, hosts@),
            Err(error) => !all_local(bearer@, hosts@) && error@ == failure(
                ROUTE_FAMILY_MISMATCH@,
            ),
        },
{
    let ghost before = ops(list@);
    let mut i: usize = 0;
    proof {
        assert(before + host_routes(bearer@, hosts@.take(0)) =~= before);
    }
    while i < hosts.len()
        invariant
            i <= hosts@.len(),
            ops(list@) == before + host_routes(bearer@, hosts@.take(i as int)),
            forall|j: int| 0 <= j < i ==> local_for(bearer@, #[trigger] hosts@[j]) is Some,
        decreases hosts@.len() - i,
    {
        let op = match worker_host_route_op(bearer, hosts[i]) {
            Ok(op) => op,
            Err(error) => {
                assert(local_for(bearer@, hosts@[i as int]) is None);
                return Err(error);
            },
        };
        add_op(list, op);
        proof {
            assert(before + host_routes(bearer@, hosts@.take(i as int + 1)) =~= (before
                + host_routes(bearer@, hosts@.take(i as int))).push(op@));
        }
        i += 1;
    }
    proof {
        assert(hosts@.take(hosts@.len() as int) =~= hosts@);
    }
    Ok(())
}

fn add_worker_family(list: &mut Vec<NetConfigOp>, bearer: &BearerConnection, v6: bool) -> (r:
    Result<(), VolteError>)
    ensures
        match r {
            Ok(_) => !worker_family_fails(bearer@, v6) && ops(final(list)@) == ops(old(list)@)
                + worker_family(bearer@, v6),
            Err(error) => worker_family_fails(bearer@, v6) && error@ == failure(
                ROUTE_FAMILY_MISMATCH@,
            ),
        },
{
    let address = if v6 {
        bearer.settings.ipv6_address
    } else {
        bearer.settings.ipv4_address
    };
    let address = match address {
        Some(address) => address,
        None => {
            proof {
                assert(ops(list@) =~= ops(list@) + Seq::<OpView>::empty());
            }
            return Ok(());
        },
    };
    let cidr = with_prefix_string(address, prefix_of(bearer, v6));
    add_op(list, NetConfigOp::AddrReplace { ifname: bearer.interface.clone(), cidr });
    let done = if v6 {
        add_host_routes(list, bearer, &bearer.settings.ipv6_dns)
    } else {
        add_host_routes(list, bearer, &bearer.settings.ipv4_dns)
    };
    proof {
        if done is Ok {
            assert(ops(list@) =~= ops(old(list)@) + worker_family(bearer@, v6));
        }
    }
    done
}

/// The operations that set the bearer up in a worker. The worker is a routing
/// domain of its own, so no rules or tables are needed.
pub fn configure_bearer_network_in_worker(bearer: &BearerConnection) -> (r: Result<
    Vec<NetConfigOp>,
    VolteError,
>)
    ensures
        match r {
            Ok(list) => worker_setup(bearer@) == Ok::<Seq<OpView>, ErrorView>(ops(list@)),
            Err(error) => worker_setup(bearer@) == Err::<Seq<OpView>, ErrorView>(error@),
        },
{
    let mut list: Vec<NetConfigOp> = Vec::new();
    proof {
        assert(ops(list@) =~= Seq::<OpView>::empty());
    }
    if let Some(mtu) = bearer.mtu {
        add_op(&mut list, NetConfigOp::LinkSetMtu { ifname: bearer.interface.clone(), mtu });
    }
    proof {
        assert(ops(list@) =~= worker_mtu(bearer@));
    }
    match add_worker_family(&mut list, bearer, true) {
        Ok(_) => {},
        Err(error) => return Err(error),
    }
    match add_worker_family(&mut list, bearer, false) {
        Ok(_) => {},
        Err(error) => return Err(error),
    }
    if bearer.settings.local_addr().is_none() {
        return Err(VolteError::new(code::IP_SETTINGS_MISSING));
    }
    add_op(&mut list, NetConfigOp::LinkSetUp { ifname: bearer.interface.clone() });
    proof {
        assert(ops(list@) =~= worker_setup(bearer@)->Ok_0);
    }
    Ok(list)
}

pub open spec fn worker_address_removal(bearer: ConnectionView, v6: bool) -> Seq<OpView> {
    let address = if v6 {
        bearer.settings.ipv6_address
    } else {
        bearer.settings.ipv4_address
    };
    match address {
        Some(address) => seq![
            OpView::AddrDel {
                ifname: bearer.interface,
                cidr: with_prefix(address, own_prefix(bearer, v6)),
            },
        ],
        None => Seq::empty(),
    }
}

/// The operations that remove from a worker what belongs to the bearer, and
/// nothing else.
pub open spec fn worker_teardown(bearer: ConnectionView) -> Seq<OpView> {
    seq![
        OpView::FlushRoutesForDevice { ifname: bearer.interface, ipv6: true },
        OpView::FlushRoutesForDevice { ifname: bearer.interface, ipv6: false },
    ] + worker_address_removal(bearer, true) + worker_address_removal(bearer, false)
}

fn add_address_removal(list: &mut Vec<NetConfigOp>, bearer: &BearerConnection, v6: bool)
    ensures
        ops(final(list)@) == ops(old(list)@) + worker_address_removal(bearer@, v6),
{
    let address = if v6 {
        bearer.settings.ipv6_address
    } else {
        bearer.settings.ipv4_address
    };
    if let Some(address) = address {
        let cidr = with_prefix_string(address, prefix_of(bearer, v6));
        add_op(list, NetConfigOp::AddrDel { ifname: bearer.interface.clone(), cidr });
    }
    proof {
        assert(ops(list@) =~= ops(old(list)@) + worker_address_removal(bearer@, v6));
    }
}

/// The operations that remove from a worker what belongs to the bearer.
pub fn teardown_bearer_network_in_worker(bearer: &BearerConnection) -> (r: Vec<NetConfigOp>)
    ensures
        ops(r@) == worker_teardown(bearer@),
{
    let mut list: Vec<NetConfigOp> = Vec::new();
    add_op(
        &mut list,
        NetConfigOp::FlushRoutesForDevice { ifname: bearer.interface.clone(), ipv6: true },
    );
    add_op(
        &mut list,
        NetConfigOp::FlushRoutesForDevice { ifname: bearer.interface.clone(), ipv6: false },
    );
    add_address_removal(&mut list, bearer, true);
    add_address_removal(&mut list, bearer, false);
    proof {
        assert(ops(list@) =~= worker_teardown(bearer@));
    }
    list
}

/// What came of handing operations to a worker.
#[derive(Debug, PartialEq, Eq)]
pub enum WorkerReply {
    Applied,
    /// The worker refused, and may have said why.
    Refused(Option<String>),
    /// The worker could not be reached.
    Unreachable(String),
}

/// What came of handing operations to a worker.
pub fn apply_worker_ops(reply: &WorkerReply) -> (r: Result<(), VolteError>)
    ensures
        match *reply {
            WorkerReply::Applied => r is Ok,
            WorkerReply::Refused(reason) => r is Err && r->Err_0@ == detailed(
                code::COMMAND_FAILED@,
                match reason {
                    Some(reason) => reason@,
                    None => "worker net-config failed"@,
                },
            ),
            WorkerReply::Unreachable(reason) => r is Err && r->Err_0@ == detailed(
                code::COMMAND_FAILED@,
                "worker net-config: "@ + reason@,
            ),
        },
{
    match reply {
        WorkerReply::Applied => Ok(()),
        WorkerReply::Refused(Some(reason)) => Err(
            VolteError::with_detail(code::COMMAND_FAILED, reason.as_str()),
        ),
        WorkerReply::Refused(None) => Err(
            VolteError::with_detail(code::COMMAND_FAILED, "worker net-config failed"),
        ),
        WorkerReply::Unreachable(reason) => {
            let mut detail = "worker net-config: ".to_string();
            detail.append(reason.as_str());
            Err(VolteError::with_detail(code::COMMAND_FAILED, detail.as_str()))
        },
    }
}

/// Every address that is installed in a worker is removed from it again.
pub proof fn worker_teardown_undoes_setup(bearer: ConnectionView, cidr: Seq<char>)
    requires
        worker_setup(bearer) is Ok,
        worker_setup(bearer)->Ok_0.contains(
            OpView::AddrReplace { ifname: bearer.interface, cidr },
        ),
    ensures
        worker_teardown(bearer).contains(OpView::AddrDel { ifname: bearer.interface, cidr }),
{
    let setup = worker_setup(bearer)->Ok_0;
    let added = OpView::AddrReplace { ifname: bearer.interface, cidr };
    let gone = OpView::AddrDel { ifname: bearer.interface, cidr };
    let mtu = worker_mtu(bearer);
    let six = worker_family(bearer, true);
    let four = worker_family(bearer, false);
    let k = setup.index_of(added);
    assert(setup[k] == added);
    let removals = worker_teardown(bearer);
    let six_removal = worker_address_removal(bearer, true);
    if k < mtu.len() {
        assert(setup[k] == mtu[k]);
    } else if k < mtu.len() + six.len() {
        assert(setup[k] == six[k - mtu.len()]);
        if k == mtu.len() {
            assert(six_removal[0] == gone);
            assert(removals[2] == gone);
        } else {
            assert(six[k - mtu.len()] is RouteReplace);
        }
    } else if k < mtu.len() + six.len() + four.len() {
        assert(setup[k] == four[k - mtu.len() - six.len()]);
        if k == mtu.len() + six.len() {
            assert(worker_address_removal(bearer, false)[0] == gone);
            assert(removals[2 + six_removal.len() as int] == gone);
        } else {
            assert(four[k - mtu.len() - six.len()] is RouteReplace);
        }
    } else {
        assert(setup[k] is LinkSetUp);
    }
}

} // verus!
