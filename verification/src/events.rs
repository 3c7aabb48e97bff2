//! What a simulation run reports of each connection: who opened it, when it
//! started and ended, how its handshake went, how many packets of each kind
//! were sent, received and lost, and why it closed.
//!
//! Times are counted in nanoseconds since the start of the run.

use vstd::prelude::*;
use vstd::std_specs::cmp::{PartialEqSpec, PartialEqSpecImpl};

verus! {

/// Which side of a connection an endpoint is.
#[derive(Clone, Copy, Debug, PartialEq, Eq, Structural)]
pub enum EndpointType {
    Client,
    Server,
}

/// The kinds of packet header that are counted, and one for all others.
#[derive(Clone, Copy, Debug, PartialEq, Eq, Structural)]
pub enum PacketHeader {
    Initial,
    Handshake,
    OneRtt,
    Other,
}

/// The handshake states that are timed, and one for all others.
#[derive(Clone, Copy, Debug, PartialEq, Eq, Structural)]
pub enum HandshakeStatus {
    Complete,
    Confirmed,
    Other,
}

/// Why a connection closed.
#[derive(Clone, Copy, Debug, PartialEq, Eq, Structural)]
pub enum CloseReason {
    /// The peer closed it without an error.
    Closed,
    /// The transport reported the error `code`.
    Transport { code: u64 },
    /// The application reported the error `error`.
    Application { error: u64 },
    /// Nothing arrived for too long.
    IdleTimerExpired,
    /// Anything else.
    Other,
}

/// Packets counted by the kind of their header.
#[derive(Clone, Copy, Debug, Eq)]
pub struct PacketCounts {
    pub initial: u64,
    pub handshake: u64,
    pub retry: u64,
    pub one_rtt: u64,
}

/// When the handshake was complete and when it was confirmed; zero for what
/// has not happened.
#[derive(Clone, Copy, Debug, Eq)]
pub struct Handshake {
    pub complete: u64,
    pub confirmed: u64,
}

/// The report of one connection.
#[derive(Clone, Copy, Debug, Eq)]
pub struct Connection {
    pub client_id: Option<usize>,
    pub server_id: Option<usize>,
    pub seed: u64,
    pub start_time: u64,
    pub end_time: u64,
    pub handshake: Handshake,
    pub transport_error: Option<u64>,
    pub application_error: Option<u64>,
    pub idle_timer_error: bool,
    pub unspecified_error: bool,
    pub tx: PacketCounts,
    pub rx: PacketCounts,
    pub loss: PacketCounts,
    pub congestion: u64,
}

impl PartialEq for PacketCounts {
    fn eq(&self, other: &Self) -> (r: bool) {
        self.initial == other.initial && self.handshake == other.handshake && self.retry
            == other.retry && self.one_rtt == other.one_rtt
    }
}

impl PartialEqSpecImpl for PacketCounts {
    open spec fn obeys_eq_spec() -> bool {
        true
    }

    open spec fn eq_spec(&self, other: &Self) -> bool {
        *self == *other
    }
}

impl PartialEq for Handshake {
    fn eq(&self, other: &Self) -> (r: bool) {
        self.complete == other.complete && self.confirmed == other.confirmed
    }
}

impl PartialEqSpecImpl for Handshake {
    open spec fn obeys_eq_spec() -> bool {
        true
    }

    open spec fn eq_spec(&self, other: &Self) -> bool {
        *self == *other
    }
}

impl PartialEq for Connection {
    fn eq(&self, other: &Self) -> (r: bool) {
        self.client_id == other.client_id && self.server_id == other.server_id && self.seed
            == other.seed && self.start_time == other.start_time && self.end_time
            == other.end_time && self.handshake == other.handshake && self.transport_error
            == other.transport_error && self.application_error == other.application_error
            && self.idle_timer_error == other.idle_timer_error && self.unspecified_error
            == other.unspecified_error && self.tx == other.tx && self.rx == other.rx && self.loss
            == other.loss && self.congestion == other.congestion
    }
}

impl PartialEqSpecImpl for Connection {
    open spec fn obeys_eq_spec() -> bool {
        true
    }

    open spec fn eq_spec(&self, other: &Self) -> bool {
        *self == *other
    }
}

/// The end time under which a report is written out at `now`, or `None`
/// where it is not written: a report without a seed is dropped, and one
/// without an end time ends now.
pub open spec fn end_of_run(seed: u64, end_time: u64, now: u64) -> Option<u64> {
    if seed == 0 {
        None
    } else if end_time == 0 {
        Some(now)
    } else {
        Some(end_time)
    }
}

/// Decides whether a report with `seed` and `end_time` is written out at
/// `now`, and under which end time.
pub fn end_time_at_dump(seed: u64, end_time: u64, now: u64) -> (r: Option<u64>)
    ensures
        r == end_of_run(seed, end_time, now),
{
    if seed == 0 {
        None
    } else if end_time == 0 {
        Some(now)
    } else {
        Some(end_time)
    }
}

impl PacketCounts {
    /// No packet of any kind.
    pub open spec fn zero() -> PacketCounts {
        PacketCounts { initial: 0, handshake: 0, retry: 0, one_rtt: 0 }
    }

    /// The count that a packet with `header` raises.
    pub open spec fn count_of(self, header: PacketHeader) -> u64 {
        match header {
            PacketHeader::Initial => self.initial,
            PacketHeader::Handshake => self.handshake,
            PacketHeader::OneRtt => self.one_rtt,
            PacketHeader::Other => 0,
        }
    }

    /// The counts after one more packet with `header`.
    pub open spec fn counted(self, header: PacketHeader) -> PacketCounts {
        match header {
            PacketHeader::Initial => PacketCounts { initial: (self.initial + 1) as u64, ..self },
            PacketHeader::Handshake => PacketCounts {
                handshake: (self.handshake + 1) as u64,
                ..self
            },
            PacketHeader::OneRtt => PacketCounts { one_rtt: (self.one_rtt + 1) as u64, ..self },
            PacketHeader::Other => self,
        }
    }

    /// Counts one packet with `header`. Only initial, handshake and one-RTT
    /// packets are counted.
    pub fn inc(&mut self, header: PacketHeader)
        requires
            old(self).count_of(header) < u64::MAX,
        ensures
            *final(self) == old(self).counted(header),
    {
        match header {
            PacketHeader::Initial => self.initial += 1,
            PacketHeader::Handshake => self.handshake += 1,
            PacketHeader::OneRtt => self.one_rtt += 1,
            PacketHeader::Other => {},
        }
    }
}

impl Default for PacketCounts {
    fn default() -> (r: PacketCounts)
        ensures
            r == PacketCounts::zero(),
    {
        PacketCounts { initial: 0, handshake: 0, retry: 0, one_rtt: 0 }
    }
}

impl Default for Handshake {
    fn default() -> (r: Handshake)
        ensures
            r == (Handshake { complete: 0, confirmed: 0 }),
    {
        Handshake { complete: 0, confirmed: 0 }
    }
}

impl Connection {
    /// The report in which nothing has happened.
    pub open spec fn blank() -> Connection {
        Connection {
            client_id: None,
            server_id: None,
            seed: 0,
            start_time: 0,
            end_time: 0,
            handshake: Handshake { complete: 0, confirmed: 0 },
            transport_error: None,
            application_error: None,
            idle_timer_error: false,
            unspecified_error: false,
            tx: PacketCounts::zero(),
            rx: PacketCounts::zero(),
            loss: PacketCounts::zero(),
            congestion: 0,
        }
    }

    /// The report of a connection that was just opened.
    pub open spec fn opened(
        seed: u64,
        id: usize,
        endpoint: EndpointType,
        start_time: u64,
    ) -> Connection {
        match endpoint {
            EndpointType::Server => Connection {
                seed,
                start_time,
                server_id: Some(id),
                ..Connection::blank()
            },
            EndpointType::Client => Connection {
                seed,
                start_time,
                client_id: Some(id),
                ..Connection::blank()
            },
        }
    }

    /// The report after the connection closed at `end_time` for `reason`.
    pub open spec fn closed(self, end_time: u64, reason: CloseReason) -> Connection {
        match reason {
            CloseReason::Closed => Connection { end_time, ..self },
            CloseReason::Transport { code } => Connection {
                end_time,
                transport_error: Some(code),
                ..self
            },
            CloseReason::Application { error } => Connection {
                end_time,
                application_error: Some(error),
                ..self
            },
            CloseReason::IdleTimerExpired => Connection { end_time, idle_timer_error: true, ..self },
            CloseReason::Other => Connection { end_time, unspecified_error: true, ..self },
        }
    }

    /// The report as it is written out at `now`, or `None` where it is not
    /// written: a report without a seed is dropped, and a connection that has
    /// not ended is taken to end now.
    pub open spec fn dumped(self, now: u64) -> Option<Connection> {
        match end_of_run(self.seed, self.end_time, now) {
            None => None,
            Some(end_time) => Some(Connection { end_time, ..self }),
        }
    }

    /// Opens the report of the connection that the run with `seed` numbered
    /// `id`, seen from `endpoint`, at `start_time`.
    pub fn open(seed: u64, id: usize, endpoint: EndpointType, start_time: u64) -> (r: Connection)
        ensures
            r == Connection::opened(seed, id, endpoint, start_time),
    {
        let mut conn = Connection { seed, start_time, ..Connection::default() };
        match endpoint {
            EndpointType::Server => {
                conn.server_id = Some(id);
            },
            EndpointType::Client => {
                conn.client_id = Some(id);
            },
        }
        conn
    }

    /// Counts a packet that was sent.
    pub fn on_packet_sent(&mut self, header: PacketHeader)
        requires
            old(self).tx.count_of(header) < u64::MAX,
        ensures
            *final(self) == (Connection { tx: old(self).tx.counted(header), ..*old(self) }),
    {
        self.tx.inc(header);
    }

    /// Counts a packet that was received.
    pub fn on_packet_received(&mut self, header: PacketHeader)
        requires
            old(self).rx.count_of(header) < u64::MAX,
        ensures
            *final(self) == (Connection { rx: old(self).rx.counted(header), ..*old(self) }),
    {
        self.rx.inc(header);
    }

    /// Counts a packet that was lost.
    pub fn on_packet_lost(&mut self, header: PacketHeader)
        requires
            old(self).loss.count_of(header) < u64::MAX,
        ensures
            *final(self) == (Connection { loss: old(self).loss.counted(header), ..*old(self) }),
    {
        self.loss.inc(header);
    }

    /// Counts a congestion event.
    pub fn on_congestion(&mut self)
        requires
            old(self).congestion < u64::MAX,
        ensures
            *final(self) == (Connection {
                congestion: (old(self).congestion + 1) as u64,
                ..*old(self)
            }),
    {
        self.congestion += 1;
    }

    /// Notes when the handshake reached `status`. A later report of the same
    /// status replaces the earlier time.
    pub fn on_handshake_status_updated(&mut self, status: HandshakeStatus, now: u64)
        ensures
            *final(self) == (match status {
                HandshakeStatus::Complete => Connection {
                    handshake: Handshake { complete: now, ..old(self).handshake },
                    ..*old(self)
                },
                HandshakeStatus::Confirmed => Connection {
                    handshake: Handshake { confirmed: now, ..old(self).handshake },
                    ..*old(self)
                },
                HandshakeStatus::Other => *old(self),
            }),
    {
        match status {
            HandshakeStatus::Complete => self.handshake.complete = now,
            HandshakeStatus::Confirmed => self.handshake.confirmed = now,
            HandshakeStatus::Other => {},
        }
    }

    /// Notes that the connection closed at `end_time` for `reason`.
    pub fn on_connection_closed(&mut self, end_time: u64, reason: CloseReason)
        ensures
            *final(self) == old(self).closed(end_time, reason),
    {
        self.end_time = end_time;
        match reason {
            CloseReason::Closed => {},
            CloseReason::Transport { code } => {
                self.transport_error = Some(code);
            },
            CloseReason::Application { error } => {
                self.application_error = Some(error);
            },
            CloseReason::IdleTimerExpired => self.idle_timer_error = true,
            CloseReason::Other => self.unspecified_error = true,
        }
    }
}

/// A report that is written out when its owner lets go of it.
pub trait Dump {
    /// Makes the report ready to be written out at `now` and says whether it
    /// is to be written at all.
    fn dump(&mut self, now: u64) -> (write: bool);
}

impl Dump for Connection {
    /// A report without a seed is not written. One without an end time ends
    /// at `now`.
    fn dump(&mut self, now: u64) -> (write: bool)
        ensures
            write == old(self).dumped(now) is Some,
            *final(self) == (match old(self).dumped(now) {
                Some(report) => report,
                None => *old(self),
            }),
    {
        match end_time_at_dump(self.seed, self.end_time, now) {
            None => false,
            Some(end_time) => {
                self.end_time = end_time;
                true
            },
        }
    }
}

impl Default for Connection {
    fn default() -> (r: Connection)
        ensures
            r == Connection::blank(),
    {
        Connection {
            client_id: None,
            server_id: None,
            seed: 0,
            start_time: 0,
            end_time: 0,
            handshake: Handshake::default(),
            transport_error: None,
            application_error: None,
            idle_timer_error: false,
            unspecified_error: false,
            tx: PacketCounts::default(),
            rx: PacketCounts::default(),
            loss: PacketCounts::default(),
            congestion: 0,
        }
    }
}

/// Whether `v` equals the default value of its type, which is not written
/// out.
pub fn is_default<T: Default + PartialEq>(v: &T) -> (r: bool)
    ensures
        T::obeys_eq_spec() ==> exists|d: T|
            #[trigger] call_ensures(T::default, (), d) && r == d.eq_spec(v),
{
    T::default().eq(v)
}

/// Whether `v` is the largest value, which stands for "no limit" and is not
/// written out.
pub fn is_max(v: &u64) -> (r: bool)
    ensures
        r == (*v == u64::MAX),
{
    *v == u64::MAX
}

/// Whether `v` is the usual largest UDP payload, 1450 bytes, which is not
/// written out.
pub fn is_default_udp_payload(v: &u16) -> (r: bool)
    ensures
        r == (*v == 1450),
{
    *v == 1450
}

/// Whether `v` is one, which is not written out.
pub fn is_one(v: &usize) -> (r: bool)
    ensures
        r == (*v == 1),
{
    *v == 1
}

} // verus!
