//! One client's links: the writer's numbering of cursor frames and the
//! reader's patience.
use vstd::prelude::*;

use crate::clock::{age, elapsed};
use crate::protocol::Message;
use crate::server::hub::Outbound;
use crate::server::net::Endpoint;

verus! {

/// A client silent for longer than this (ns) is gone: asleep, wedged or
/// dead. The keepalive cadence is two seconds; this is five missed
/// keepalives.
pub const CLIENT_SILENT_TIMEOUT: u64 = 10_000_000_000;

/// What the writer of a client does with an outbound item.
#[derive(Debug, PartialEq)]
pub enum WriterStep {
    /// Send over the control channel.
    Tcp(Message),
    /// Send to the client's datagram address, under a sequence number.
    Udp { to: Endpoint, seq: u32, msg: Message },
    /// Drop a cursor frame: the client has no address yet. `first` marks
    /// the first one, which is worth a log line.
    Drop { first: bool },
}

/// The writer's state.
#[derive(Debug, Clone, Copy, PartialEq, Eq, Structural)]
pub struct Writer {
    /// The number of the next cursor frame. It starts at 1: the peer's
    /// receiver initializes to 0, so the first frame counts as newer.
    pub seq: u32,
    /// A frame has been dropped for want of an address.
    pub unregistered: bool,
}

/// The sequence number after `seq`; the last one is followed by 0.
pub open spec fn next_seq(seq: u32) -> u32 {
    if seq == u32::MAX {
        0
    } else {
        (seq + 1) as u32
    }
}

impl Writer {
    /// What becomes of an outbound item, and the writer after it.
    pub open spec fn sends(self, item: Outbound, addr: Option<Endpoint>) -> (Writer, WriterStep) {
        match (item, addr) {
            (Outbound::Tcp(msg), _) => (self, WriterStep::Tcp(msg)),
            (Outbound::Udp(msg), Some(to)) => (
                Writer { seq: next_seq(self.seq), ..self },
                WriterStep::Udp { to, seq: self.seq, msg },
            ),
            (Outbound::Udp(_), None) => (
                Writer { unregistered: true, ..self },
                WriterStep::Drop { first: !self.unregistered },
            ),
        }
    }

    /// A writer that has sent nothing.
    pub fn new() -> (r: Self)
        ensures
            r == (Writer { seq: 1, unregistered: false }),
    {
        Writer { seq: 1, unregistered: false }
    }

    /// One outbound item, with the client's datagram address if it is
    /// known. Reliable frames go over TCP; cursor motion goes over UDP
    /// under a per-client sequence number.
    pub fn next(&mut self, item: Outbound, addr: Option<Endpoint>) -> (r: WriterStep)
        ensures
            match (item, addr) {
                (Outbound::Tcp(msg), _) => r == WriterStep::Tcp(msg) && *final(self) == *old(self),
                (Outbound::Udp(msg), Some(to)) => {
                    &&& r == (WriterStep::Udp { to, seq: old(self).seq, msg })
                    &&& *final(self) == (Writer { seq: next_seq(old(self).seq), ..*old(self) })
                },
                (Outbound::Udp(_), None) => {
                    &&& r == (WriterStep::Drop { first: !old(self).unregistered })
                    &&& *final(self) == (Writer { unregistered: true, ..*old(self) })
                },
            },
            (*final(self), r) == old(self).sends(item, addr),
    {
        match item {
            Outbound::Tcp(msg) => WriterStep::Tcp(msg),
            Outbound::Udp(msg) => match addr {
                Some(to) => {
                    let seq: u32 = self.seq;
                    self.seq = if seq == u32::MAX {
                        0
                    } else {
                        seq + 1
                    };
                    WriterStep::Udp { to, seq, msg }
                },
                None => {
                    let first: bool = !self.unregistered;
                    self.unregistered = true;
                    WriterStep::Drop { first }
                },
            },
        }
    }
}

/// What a read on a client's control channel gave.
#[derive(Debug, Clone, Copy, PartialEq, Eq, Structural)]
pub enum ReadEvent {
    /// A message arrived.
    Arrived,
    /// Nothing within the read window.
    Quiet,
    /// The stream ended or failed.
    Ended,
}

/// What the reader of a client does next.
#[derive(Debug, Clone, Copy, PartialEq, Eq, Structural)]
pub enum ReaderStep {
    /// Dispatch the message.
    Dispatch,
    /// Read again.
    Wait,
    /// Tear the client down.
    Teardown,
}

/// The reader's state: when the client was last heard (ns).
#[derive(Debug, Clone, Copy, PartialEq, Eq, Structural)]
pub struct Reader {
    pub last_seen: u64,
}

impl Reader {
    /// What a read at `now` leads to, and the reader after it.
    pub open spec fn hears(self, event: ReadEvent, now: u64) -> (Reader, ReaderStep) {
        match event {
            ReadEvent::Arrived => (Reader { last_seen: now }, ReaderStep::Dispatch),
            ReadEvent::Ended => (self, ReaderStep::Teardown),
            ReadEvent::Quiet => (
                self,
                if age(now, self.last_seen) > CLIENT_SILENT_TIMEOUT {
                    ReaderStep::Teardown
                } else {
                    ReaderStep::Wait
                },
            ),
        }
    }

    /// A reader that starts at `now`.
    pub fn new(now: u64) -> (r: Self)
        ensures
            r.last_seen == now,
    {
        Reader { last_seen: now }
    }

    /// One read at `now`. Silence within the read window is patience; a
    /// silence longer than [`CLIENT_SILENT_TIMEOUT`] means that the client
    /// is not coming back.
    pub fn next(&mut self, event: ReadEvent, now: u64) -> (r: ReaderStep)
        ensures
            final(self).last_seen == if event is Arrived {
                now
            } else {
                old(self).last_seen
            },
            r == match event {
                ReadEvent::Arrived => ReaderStep::Dispatch,
                ReadEvent::Ended => ReaderStep::Teardown,
                ReadEvent::Quiet => if age(now, old(self).last_seen) > CLIENT_SILENT_TIMEOUT {
                    ReaderStep::Teardown
                } else {
                    ReaderStep::Wait
                },
            },
            (*final(self), r) == old(self).hears(event, now),
    {
        match event {
            ReadEvent::Arrived => {
                self.last_seen = now;
                ReaderStep::Dispatch
            },
            ReadEvent::Quiet => if elapsed(now, self.last_seen) > CLIENT_SILENT_TIMEOUT {
                ReaderStep::Teardown
            } else {
                ReaderStep::Wait
            },
            ReadEvent::Ended => ReaderStep::Teardown,
        }
    }
}

} // verus!
