//! The SIP channel of a line over its bearer: which addresses it uses and
//! advertises, and the frames that wait in it. The sockets themselves are opened
//! elsewhere; what came of that is handed in.

use vstd::prelude::*;
use vstd::string::*;

use crate::ip::SocketAddr;
use crate::register::ImsError;
use crate::text::opt;

verus! {

/// The largest SIP datagram.
pub const MAX_SIP_DATAGRAM: usize = 65_535;

/// How SIP is carried.
#[derive(Debug, Clone, Copy, PartialEq, Eq, Structural)]
pub enum SipTransport {
    Udp,
    Tcp,
}

impl SipTransport {
    /// The name in a URI.
    pub open spec fn name(self) -> Seq<char> {
        match self {
            SipTransport::Udp => "udp"@,
            SipTransport::Tcp => "tcp"@,
        }
    }

    /// The name in a URI.
    pub fn as_str(self) -> (r: &'static str)
        ensures
            r@ == self.name(),
    {
        match self {
            SipTransport::Udp => "udp",
            SipTransport::Tcp => "tcp",
        }
    }
}

/// Where SIP goes from and to.
#[derive(Debug, Clone, Copy, PartialEq, Eq, Structural)]
pub struct ImsRoute {
    pub local_addr: SocketAddr,
    pub pcscf_addr: SocketAddr,
    pub transport: SipTransport,
}

/// What came of opening a socket.
#[derive(Debug, Clone, Copy, PartialEq, Eq, Structural)]
pub enum SocketOutcome {
    /// It is bound to this address.
    Bound(SocketAddr),
    /// It is open, but its address cannot be told.
    AddressUnknown,
    /// It is of another sort than was asked for.
    OtherSort,
    Failed,
}

// ---------------------------------------------------------------------------
// Frames that wait.

/// Frames that were set aside, first in first out, up to a limit.
#[derive(Debug, PartialEq, Eq)]
pub struct ImsRequeue {
    frames: Vec<Vec<u8>>,
    max_frames: usize,
    max_bytes: usize,
}

/// The frames as sequences.
pub open spec fn frames_of(list: Seq<Vec<u8>>) -> Seq<Seq<u8>> {
    list.map_values(|frame: Vec<u8>| frame@)
}

/// The bytes in all frames.
pub open spec fn total_bytes(frames: Seq<Seq<u8>>) -> nat
    decreases frames.len(),
{
    if frames.len() == 0 {
        0
    } else {
        total_bytes(frames.drop_last()) + frames.last().len()
    }
}

proof fn lemma_total_without_first(frames: Seq<Seq<u8>>)
    requires
        frames.len() > 0,
    ensures
        total_bytes(frames) == frames[0].len() + total_bytes(frames.drop_first()),
    decreases frames.len(),
{
    if frames.len() == 1 {
        assert(frames.drop_last() =~= Seq::empty());
        assert(frames.drop_first() =~= Seq::empty());
    } else {
        lemma_total_without_first(frames.drop_last());
        assert(frames.drop_first().drop_last() =~= frames.drop_last().drop_first());
    }
}

proof fn lemma_total_grows(frames: Seq<Seq<u8>>, n: int)
    requires
        0 <= n <= frames.len(),
    ensures
        total_bytes(frames.take(n)) <= total_bytes(frames),
    decreases frames.len(),
{
    if n == frames.len() {
        assert(frames.take(n) =~= frames);
    } else {
        lemma_total_grows(frames.drop_last(), n);
        assert(frames.drop_last().take(n) =~= frames.take(n));
    }
}

pub struct RequeueView {
    pub frames: Seq<Seq<u8>>,
    /// The most frames and bytes that are kept.
    pub max_frames: usize,
    pub max_bytes: usize,
}

impl View for ImsRequeue {
    type V = RequeueView;

    closed spec fn view(&self) -> RequeueView {
        RequeueView {
            frames: frames_of(self.frames@),
            max_frames: self.max_frames,
            max_bytes: self.max_bytes,
        }
    }
}

impl RequeueView {
    /// A frame can be set aside without passing a limit.
    pub open spec fn has_room(self, frame: Seq<u8>) -> bool {
        self.frames.len() < self.max_frames && total_bytes(self.frames) + frame.len()
            <= self.max_bytes
    }

    /// The queue with a frame set aside, where there is room for it.
    pub open spec fn pushed(self, frame: Seq<u8>) -> RequeueView {
        if self.has_room(frame) {
            RequeueView { frames: self.frames.push(frame), ..self }
        } else {
            self
        }
    }

    /// The queue without the frame that has waited longest.
    pub open spec fn popped(self) -> RequeueView {
        if self.frames.len() > 0 {
            RequeueView { frames: self.frames.drop_first(), ..self }
        } else {
            self
        }
    }
}

impl ImsRequeue {
    /// The limits hold.
    #[verifier::type_invariant]
    pub closed spec fn wf(&self) -> bool {
        &&& self.frames@.len() <= self.max_frames
        &&& total_bytes(frames_of(self.frames@)) <= self.max_bytes
    }

    /// An empty queue with these limits.
    pub fn with_limits(max_frames: usize, max_bytes: usize) -> (r: Self)
        ensures
            r@ == (RequeueView { frames: Seq::empty(), max_frames, max_bytes }),
    {
        let frames: Vec<Vec<u8>> = Vec::new();
        proof {
            assert(frames_of(frames@) =~= Seq::<Seq<u8>>::empty());
        }
        ImsRequeue { frames, max_frames, max_bytes }
    }

    /// The number of frames.
    pub fn len(&self) -> (r: usize)
        ensures
            r == self@.frames.len(),
            r <= self@.max_frames,
    {
        proof {
            use_type_invariant(self);
        }
        self.frames.len()
    }

    /// The number of bytes in all frames.
    pub fn bytes(&self) -> (r: usize)
        ensures
            r == total_bytes(self@.frames),
            r <= self@.max_bytes,
    {
        proof {
            use_type_invariant(self);
            assert(self@.frames.take(0) =~= Seq::<Seq<u8>>::empty());
        }
        let mut total: usize = 0;
        let mut i: usize = 0;
        while i < self.frames.len()
            invariant
                i <= self.frames@.len(),
                self@.frames == frames_of(self.frames@),
                total_bytes(self@.frames) <= self@.max_bytes,
                total == total_bytes(self@.frames.take(i as int)),
            decreases self.frames@.len() - i,
        {
            proof {
                assert(self@.frames.take(i as int + 1).drop_last() =~= self@.frames.take(i as int));
                assert(self@.frames.take(i as int + 1).last() == self.frames@[i as int]@);
                lemma_total_grows(self@.frames, i as int + 1);
            }
            total = total + self.frames[i].len();
            i += 1;
        }
        proof {
            assert(self@.frames.take(self@.frames.len() as int) =~= self@.frames);
        }
        total
    }

    /// Sets a frame aside. A frame that would pass a limit is dropped.
    pub fn push_back(&mut self, frame: Vec<u8>) -> (r: bool)
        ensures
            r == old(self)@.has_room(frame@),
            final(self)@ == old(self)@.pushed(frame@),
    {
        proof {
            use_type_invariant(&*self);
        }
        let count = self.len();
        let bytes = self.bytes();
        let limit = self.max_bytes;
        if count >= self.max_frames || frame.len() > limit - bytes {
            return false;
        }
        let ghost before = self.frames@;
        proof {
            let after = frames_of(before.push(frame));
            assert(after =~= frames_of(before).push(frame@));
            assert(after.drop_last() =~= frames_of(before));
            assert(frames_of(Seq::<Vec<u8>>::empty()) =~= Seq::<Seq<u8>>::empty());
        }
        let mut frames: Vec<Vec<u8>> = Vec::new();
        proof {
            assert(frames@ =~= Seq::<Vec<u8>>::empty());
        }
        core::mem::swap(&mut self.frames, &mut frames);
        frames.push(frame);
        self.frames = frames;
        true
    }

    /// Hands out the frame that has waited longest.
    pub fn pop_front(&mut self) -> (r: Option<Vec<u8>>)
        ensures
            final(self)@ == old(self)@.popped(),
            match r {
                Some(frame) => old(self)@.frames.len() > 0 && frame@ == old(self)@.frames[0],
                None => old(self)@.frames.len() == 0,
            },
    {
        proof {
            use_type_invariant(&*self);
        }
        if self.frames.len() == 0 {
            return None;
        }
        let ghost before = self.frames@;
        proof {
            assert(frames_of(before.remove(0)) =~= frames_of(before).drop_first());
            lemma_total_without_first(frames_of(before));
            assert(frames_of(Seq::<Vec<u8>>::empty()) =~= Seq::<Seq<u8>>::empty());
        }
        let mut frames: Vec<Vec<u8>> = Vec::new();
        proof {
            assert(frames@ =~= Seq::<Vec<u8>>::empty());
        }
        core::mem::swap(&mut self.frames, &mut frames);
        let first = frames.remove(0);
        self.frames = frames;
        Some(first)
    }
}

/// First in, first out: a frame that is set aside leaves after all that waited
/// before it, and changes nothing of what they leave as.
pub proof fn frames_leave_in_order(queue: RequeueView, frame: Seq<u8>)
    requires
        queue.has_room(frame),
    ensures
        queue.pushed(frame).frames[0] == (if queue.frames.len() == 0 {
            frame
        } else {
            queue.frames[0]
        }),
        queue.pushed(frame).popped().frames == (if queue.frames.len() == 0 {
            Seq::empty()
        } else {
            queue.popped().frames.push(frame)
        }),
{
    let after = queue.pushed(frame).popped().frames;
    if queue.frames.len() == 0 {
        assert(after =~= Seq::<Seq<u8>>::empty());
    } else {
        assert(after =~= queue.popped().frames.push(frame));
    }
}

// ---------------------------------------------------------------------------
// The channel.

/// A port that was reserved for protected packets from the P-CSCF.
#[derive(Debug, Clone, Copy, PartialEq, Eq, Structural)]
pub struct ReservedReceive {
    pub local: SocketAddr,
    /// The socket was opened in the line's worker.
    pub in_worker: bool,
}

/// The SIP channel of a line.
#[derive(Debug, PartialEq, Eq)]
pub struct VolteSipChannel {
    pub route: ImsRoute,
    /// The port to advertise once a security association is active.
    pub advertised_local_port: Option<u16>,
    pub interface: Option<String>,
    pub security_verify: Option<String>,
    pub reserved: Option<ReservedReceive>,
    /// The socket that frames are sent on is open.
    pub can_send: bool,
    /// A socket of its own is open for receiving.
    pub receives_apart: bool,
    pub requeued: ImsRequeue,
}

/// Both addresses of the route are of one family.
pub open spec fn one_family(route: ImsRoute) -> bool {
    route.local_addr.ip.is_ipv6() == route.pcscf_addr.ip.is_ipv6()
}

/// The error of a socket that was opened on the host.
pub open spec fn host_error(socket: SocketOutcome, failed: Seq<char>) -> Option<Seq<char>> {
    match socket {
        SocketOutcome::Bound(_) => None,
        SocketOutcome::AddressUnknown => Some("volte_channel_local_addr_failed"@),
        _ => Some(failed),
    }
}

/// The error of a socket that was opened in the line's worker.
pub open spec fn worker_error(socket: SocketOutcome) -> Option<Seq<char>> {
    match socket {
        SocketOutcome::Bound(_) => None,
        SocketOutcome::AddressUnknown => Some("volte_channel_local_addr_failed"@),
        SocketOutcome::OtherSort => Some("volte_channel_worker_socket_type"@),
        SocketOutcome::Failed => Some("volte_channel_worker_socket_failed"@),
    }
}

fn check_host(socket: SocketOutcome, failed: &'static str) -> (r: Result<SocketAddr, ImsError>)
    ensures
        match r {
            Ok(addr) => socket == SocketOutcome::Bound(addr),
            Err(error) => host_error(socket, failed@) == Some(error.code@),
        },
{
    match socket {
        SocketOutcome::Bound(addr) => Ok(addr),
        SocketOutcome::AddressUnknown => Err(ImsError::new("volte_channel_local_addr_failed")),
        _ => Err(ImsError::new(failed)),
    }
}

fn check_worker(socket: SocketOutcome) -> (r: Result<SocketAddr, ImsError>)
    ensures
        match r {
            Ok(addr) => socket == SocketOutcome::Bound(addr),
            Err(error) => worker_error(socket) == Some(error.code@),
        },
{
    match socket {
        SocketOutcome::Bound(addr) => Ok(addr),
        SocketOutcome::AddressUnknown => Err(ImsError::new("volte_channel_local_addr_failed")),
        SocketOutcome::OtherSort => Err(ImsError::new("volte_channel_worker_socket_type")),
        SocketOutcome::Failed => Err(ImsError::new("volte_channel_worker_socket_failed")),
    }
}

/// Why security cannot be activated on the receiving side.
pub open spec fn receive_error(
    reserved: Option<ReservedReceive>,
    in_worker: bool,
    receive_local: SocketAddr,
    connected: bool,
) -> Option<Seq<char>> {
    match reserved {
        None => Some("volte_channel_receive_not_reserved"@),
        Some(reserved) => if reserved.in_worker && !in_worker {
            Some("volte_channel_worker_receive_requires_async"@)
        } else if !reserved.in_worker && in_worker {
            Some("volte_channel_worker_receive_mismatch"@)
        } else if reserved.local != receive_local {
            Some("volte_channel_receive_port_mismatch"@)
        } else if !connected {
            Some("volte_channel_receive_connect_failed"@)
        } else {
            None
        },
    }
}

fn check_receive(
    reserved: Option<ReservedReceive>,
    in_worker: bool,
    receive_local: SocketAddr,
    connected: bool,
) -> (r: Result<(), ImsError>)
    ensures
        match r {
            Ok(_) => receive_error(reserved, in_worker, receive_local, connected) is None,
            Err(error) => receive_error(reserved, in_worker, receive_local, connected) == Some(
                error.code@,
            ),
        },
{
    match reserved {
        None => Err(ImsError::new("volte_channel_receive_not_reserved")),
        Some(reserved) => {
            if reserved.in_worker && !in_worker {
                return Err(ImsError::new("volte_channel_worker_receive_requires_async"));
            }
            if !reserved.in_worker && in_worker {
                return Err(ImsError::new("volte_channel_worker_receive_mismatch"));
            }
            if reserved.local != receive_local {
                return Err(ImsError::new("volte_channel_receive_port_mismatch"));
            }
            if !connected {
                return Err(ImsError::new("volte_channel_receive_connect_failed"));
            }
            Ok(())
        },
    }
}

fn new_channel(
    route: ImsRoute,
    local: SocketAddr,
    interface: Option<String>,
    security_verify: Option<String>,
    requeued: ImsRequeue,
) -> (r: VolteSipChannel)
    ensures
        fresh_channel(r, route, local, opt(interface), opt(security_verify)),
        r.requeued == requeued,
{
    VolteSipChannel {
        route: ImsRoute { local_addr: local, ..route },
        advertised_local_port: None,
        interface,
        security_verify,
        reserved: None,
        can_send: true,
        receives_apart: false,
        requeued,
    }
}

/// A channel with one socket, bound to `local`.
pub open spec fn fresh_channel(
    channel: VolteSipChannel,
    route: ImsRoute,
    local: SocketAddr,
    interface: Option<Seq<char>>,
    security_verify: Option<Seq<char>>,
) -> bool {
    &&& channel.route == ImsRoute { local_addr: local, ..route }
    &&& channel.advertised_local_port is None
    &&& opt(channel.interface) == interface
    &&& opt(channel.security_verify) == security_verify
    &&& channel.reserved is None
    &&& channel.can_send
    &&& !channel.receives_apart
}

impl VolteSipChannel {
    /// A channel on the host. Its addresses must be of one family.
    pub fn bind(
        route: ImsRoute,
        interface: Option<String>,
        security_verify: Option<String>,
        requeued: ImsRequeue,
        socket: SocketOutcome,
    ) -> (r: Result<Self, ImsError>)
        ensures
            match r {
                Ok(channel) => one_family(route) && socket is Bound && fresh_channel(
                    channel,
                    route,
                    socket->Bound_0,
                    opt(interface),
                    opt(security_verify),
                ) && channel.requeued == requeued,
                Err(error) => if one_family(route) {
                    host_error(socket, "volte_channel_bind_failed"@) == Some(error.code@)
                } else {
                    error.code@ == "volte_channel_bind_failed"@
                },
            },
    {
        if route.local_addr.ip.is_ipv6() != route.pcscf_addr.ip.is_ipv6() {
            return Err(ImsError::new("volte_channel_bind_failed"));
        }
        match check_host(socket, "volte_channel_bind_failed") {
            Ok(local) => Ok(new_channel(route, local, interface, security_verify, requeued)),
            Err(error) => Err(error),
        }
    }

    /// A channel in the line's worker.
    pub fn bind_in_worker(
        route: ImsRoute,
        interface: Option<String>,
        security_verify: Option<String>,
        requeued: ImsRequeue,
        socket: SocketOutcome,
    ) -> (r: Result<Self, ImsError>)
        ensures
            match r {
                Ok(channel) => socket is Bound && fresh_channel(
                    channel,
                    route,
                    socket->Bound_0,
                    opt(interface),
                    opt(security_verify),
                ) && channel.requeued == requeued,
                Err(error) => worker_error(socket) == Some(error.code@),
            },
    {
        match check_worker(socket) {
            Ok(local) => Ok(new_channel(route, local, interface, security_verify, requeued)),
            Err(error) => Err(error),
        }
    }

    /// The port that is reserved already.
    pub fn reserved_port(&self) -> (r: Option<u16>)
        ensures
            r == (match self.reserved {
                Some(reserved) => Some(reserved.local.port),
                None => None,
            }),
    {
        match self.reserved {
            Some(reserved) => Some(reserved.local.port),
            None => None,
        }
    }

    /// Reserves a second port for protected packets from the P-CSCF. A port that is
    /// reserved already stays.
    pub fn reserve_security_receive_port(&mut self, socket: SocketOutcome) -> (r: Result<
        u16,
        ImsError,
    >)
        ensures
            old(self).reserved is Some ==> *final(self) == *old(self) && r == Ok::<u16, ImsError>(
                old(self).reserved->0.local.port,
            ),
            old(self).reserved is None ==> match r {
                Ok(port) => socket is Bound && port == socket->Bound_0.port && *final(self) == (
                VolteSipChannel {
                    reserved: Some(ReservedReceive { local: socket->Bound_0, in_worker: false }),
                    ..*old(self)
                }),
                Err(error) => *final(self) == *old(self) && host_error(
                    socket,
                    "volte_channel_receive_reserve_failed"@,
                ) == Some(error.code@),
            },
    {
        if let Some(reserved) = self.reserved {
            return Ok(reserved.local.port);
        }
        match check_host(socket, "volte_channel_receive_reserve_failed") {
            Ok(local) => {
                self.reserved = Some(ReservedReceive { local, in_worker: false });
                Ok(local.port)
            },
            Err(error) => Err(error),
        }
    }

    /// Reserves the second port in the line's worker.
    pub fn reserve_security_receive_port_in_worker(&mut self, socket: SocketOutcome) -> (r: Result<
        u16,
        ImsError,
    >)
        ensures
            old(self).reserved is Some ==> *final(self) == *old(self) && r == Ok::<u16, ImsError>(
                old(self).reserved->0.local.port,
            ),
            old(self).reserved is None ==> match r {
                Ok(port) => socket is Bound && port == socket->Bound_0.port && *final(self) == (
                VolteSipChannel {
                    reserved: Some(ReservedReceive { local: socket->Bound_0, in_worker: true }),
                    ..*old(self)
                }),
                Err(error) => *final(self) == *old(self) && worker_error(socket) == Some(
                    error.code@,
                ),
            },
    {
        if let Some(reserved) = self.reserved {
            return Ok(reserved.local.port);
        }
        match check_worker(socket) {
            Ok(local) => {
                self.reserved = Some(ReservedReceive { local, in_worker: true });
                Ok(local.port)
            },
            Err(error) => Err(error),
        }
    }

    /// Activates both protected directions. The reservation is used up, whatever
    /// comes of it, and the socket that sent until then is closed before its port is
    /// bound again.
    pub fn activate_security(
        &mut self,
        send_route: ImsRoute,
        receive_local: SocketAddr,
        security_verify: Option<String>,
        receive_connected: bool,
        send: SocketOutcome,
    ) -> (r: Result<(), ImsError>)
        ensures
            ({
                let refused = receive_error(
                    old(self).reserved,
                    false,
                    receive_local,
                    receive_connected,
                );
                if refused is Some {
                    r is Err && r->Err_0.code@ == refused->0 && *final(self) == (VolteSipChannel {
                        reserved: None,
                        ..*old(self)
                    })
                } else if !one_family(send_route) || !(send is Bound) {
                    r is Err && Some(r->Err_0.code@) == (if one_family(send_route) {
                        host_error(send, "volte_channel_protected_send_bind_failed"@)
                    } else {
                        Some("volte_channel_protected_send_bind_failed"@)
                    }) && *final(self) == (VolteSipChannel {
                        reserved: None,
                        can_send: false,
                        ..*old(self)
                    })
                } else {
                    r is Ok && *final(self) == (VolteSipChannel {
                        route: ImsRoute { local_addr: send->Bound_0, ..send_route },
                        advertised_local_port: Some(receive_local.port),
                        security_verify,
                        reserved: None,
                        can_send: true,
                        receives_apart: true,
                        ..*old(self)
                    })
                }
            }),
    {
        let reserved = self.reserved;
        self.reserved = None;
        match check_receive(reserved, false, receive_local, receive_connected) {
            Ok(_) => {},
            Err(error) => return Err(error),
        }
        self.can_send = false;
        if send_route.local_addr.ip.is_ipv6() != send_route.pcscf_addr.ip.is_ipv6() {
            return Err(ImsError::new("volte_channel_protected_send_bind_failed"));
        }
        match check_host(send, "volte_channel_protected_send_bind_failed") {
            Ok(local) => {
                self.can_send = true;
                self.receives_apart = true;
                self.route = ImsRoute { local_addr: local, ..send_route };
                self.advertised_local_port = Some(receive_local.port);
                self.security_verify = security_verify;
                Ok(())
            },
            Err(error) => Err(error),
        }
    }

    /// Activates both protected directions in the line's worker.
    pub fn activate_security_in_worker(
        &mut self,
        send_route: ImsRoute,
        receive_local: SocketAddr,
        security_verify: Option<String>,
        receive_connected: bool,
        send: SocketOutcome,
    ) -> (r: Result<(), ImsError>)
        ensures
            ({
                let refused = receive_error(
                    old(self).reserved,
                    true,
                    receive_local,
                    receive_connected,
                );
                if refused is Some || !(send is Bound) {
                    r is Err && Some(r->Err_0.code@) == (if refused is Some {
                        refused
                    } else {
                        worker_error(send)
                    }) && *final(self) == (VolteSipChannel { reserved: None, ..*old(self) })
                } else {
                    r is Ok && *final(self) == (VolteSipChannel {
                        route: ImsRoute { local_addr: send->Bound_0, ..send_route },
                        advertised_local_port: Some(receive_local.port),
                        security_verify,
                        reserved: None,
                        can_send: true,
                        receives_apart: true,
                        ..*old(self)
                    })
                }
            }),
    {
        let reserved = self.reserved;
        self.reserved = None;
        match check_receive(reserved, true, receive_local, receive_connected) {
            Ok(_) => {},
            Err(error) => return Err(error),
        }
        match check_worker(send) {
            Ok(local) => {
                self.can_send = true;
                self.receives_apart = true;
                self.route = ImsRoute { local_addr: local, ..send_route };
                self.advertised_local_port = Some(receive_local.port);
                self.security_verify = security_verify;
                Ok(())
            },
            Err(error) => Err(error),
        }
    }

    /// The route to put into `Via` and `Contact`: requests from the P-CSCF arrive at
    /// the protected port.
    pub fn advertised_route(&self) -> (r: ImsRoute)
        ensures
            r == advertised(self.route, self.advertised_local_port),
    {
        let mut route = self.route;
        if let Some(port) = self.advertised_local_port {
            route.local_addr = SocketAddr::new(route.local_addr.ip, port);
        }
        route
    }

    /// The route that frames are sent on.
    pub fn send_route(&self) -> (r: ImsRoute)
        ensures
            r == self.route,
    {
        self.route
    }

    /// The local address of the socket that sends.
    pub fn local_addr(&self) -> (r: Result<SocketAddr, ImsError>)
        ensures
            match r {
                Ok(addr) => self.can_send && addr == self.route.local_addr,
                Err(error) => !self.can_send && error.code@
                    == "volte_channel_send_socket_missing"@,
            },
    {
        if self.can_send {
            Ok(self.route.local_addr)
        } else {
            Err(ImsError::new("volte_channel_send_socket_missing"))
        }
    }

    /// The interface that the sockets are bound to.
    pub fn interface(&self) -> (r: Option<&str>)
        ensures
            match r {
                Some(name) => opt(self.interface) == Some(name@),
                None => self.interface is None,
            },
    {
        match &self.interface {
            Some(name) => Some(name.as_str()),
            None => None,
        }
    }

    /// What to send as `Security-Verify`.
    pub fn security_verify(&self) -> (r: Option<&str>)
        ensures
            match r {
                Some(value) => opt(self.security_verify) == Some(value@),
                None => self.security_verify is None,
            },
    {
        match &self.security_verify {
            Some(value) => Some(value.as_str()),
            None => None,
        }
    }

    /// What came of sending a frame: nothing less than all of it counts.
    pub fn sent(&self, frame: &[u8], written: Option<usize>) -> (r: Result<(), ImsError>)
        ensures
            r is Ok <==> self.can_send && written == Some(frame@.len() as usize),
            r is Err ==> r->Err_0.code@ == (if !self.can_send {
                "volte_channel_send_socket_missing"@
            } else if written is None {
                "volte_channel_send_failed"@
            } else {
                "volte_channel_short_send"@
            }),
    {
        if !self.can_send {
            return Err(ImsError::new("volte_channel_send_socket_missing"));
        }
        match written {
            None => Err(ImsError::new("volte_channel_send_failed")),
            Some(written) => if written != frame.len() {
                Err(ImsError::new("volte_channel_short_send"))
            } else {
                Ok(())
            },
        }
    }

    /// Whether a frame can be received: on the socket for receiving, or else on the
    /// one that sends.
    pub fn can_receive(&self) -> (r: Result<(), ImsError>)
        ensures
            r is Ok <==> self.receives_apart || self.can_send,
            r is Err ==> r->Err_0.code@ == "volte_channel_receive_socket_missing"@,
    {
        if self.receives_apart || self.can_send {
            Ok(())
        } else {
            Err(ImsError::new("volte_channel_receive_socket_missing"))
        }
    }

    /// Sets a frame aside that belongs to another exchange. Says whether it was
    /// kept.
    pub fn requeue(&mut self, frame: Vec<u8>) -> (r: bool)
        ensures
            r == old(self).requeued@.has_room(frame@),
            final(self).requeued@ == old(self).requeued@.pushed(frame@),
            *final(self) == (VolteSipChannel { requeued: final(self).requeued, ..*old(self) }),
    {
        self.requeued.push_back(frame)
    }

    /// The frame to deliver before anything fresh is read.
    pub fn take_requeued(&mut self) -> (r: Option<Vec<u8>>)
        ensures
            match r {
                Some(frame) => old(self).requeued@.frames.len() > 0 && frame@ == old(
                    self,
                ).requeued@.frames[0],
                None => old(self).requeued@.frames.len() == 0,
            },
            final(self).requeued@ == old(self).requeued@.popped(),
            *final(self) == (VolteSipChannel { requeued: final(self).requeued, ..*old(self) }),
    {
        self.requeued.pop_front()
    }
}

/// The route to advertise: with the protected port, once there is one.
pub open spec fn advertised(route: ImsRoute, port: Option<u16>) -> ImsRoute {
    match port {
        Some(port) => ImsRoute {
            local_addr: SocketAddr { ip: route.local_addr.ip, port },
            ..route
        },
        None => route,
    }
}

/// Only the advertised port differs from the route that frames are sent on, and
/// without a security association nothing does.
pub proof fn advertised_route_keeps_addresses(route: ImsRoute, port: Option<u16>)
    ensures
        advertised(route, port).pcscf_addr == route.pcscf_addr,
        advertised(route, port).local_addr.ip == route.local_addr.ip,
        advertised(route, port).transport == route.transport,
        port is None ==> advertised(route, port) == route,
{
}

} // verus!
