//! Back-to-back TCP sessions over one data channel.
//!
//! A plain data channel forwards exactly one visitor: closing the connection is the only
//! way to say "this visitor is done". A reusable channel frames the forwarded bytes
//! instead. When a session ends the connection is still open and sits on a frame
//! boundary, ready for the next visitor.
//!
//! Inside a session each direction is a sequence of frames:
//!
//! ```text
//! frame := kind:u8  len:u16le  payload[len]
//! ```
//!
//! * `DATA` carries `len` payload bytes.
//! * `FIN` ends the direction gracefully, like a TCP half-close. `len` is 0.
//! * `RST` aborts the session. `len` is 0.
//!
//! A direction carries any number of `DATA` frames and then exactly one `FIN` or `RST`.
//! The session is over once both directions have ended. Whatever follows on the wire
//! belongs to the next session.
//!
//! The connection itself is read and written by the caller: every step says which bytes
//! to read or write next, and takes what came of it.
use crate::buffers;
use crate::protocol;
use crate::wire;
use vstd::prelude::*;

verus! {

pub const FRAME_DATA: u8 = 0;

pub const FRAME_FIN: u8 = 1;

pub const FRAME_RST: u8 = 2;

pub const HEADER_LEN: usize = 3;

pub const MAX_PAYLOAD: usize = 65535;

pub const READ_BUF_SIZE: usize = 16384;

/// Seconds that bringing a channel back to a frame boundary may take before the channel
/// is given up.
pub const SETTLE_TIMEOUT_SECS: u64 = 5;

/// Payload bytes that are thrown away while waiting for the peer to end its direction.
/// Past that, a new connection is cheaper than draining.
pub const SETTLE_DRAIN_LIMIT: usize = 4194304;

/// Bytes read from the connection but not consumed yet. It outlives sessions because a
/// single read may return the tail of one session together with the head of the next.
pub struct ReadBuffer {
    buf: Vec<u8>,
    pos: usize,
    end: usize,
}

impl ReadBuffer {
    pub closed spec fn wf(self) -> bool {
        self.pos <= self.end <= self.buf@.len() && self.buf@.len() == READ_BUF_SIZE
    }

    /// The bytes that were read and not consumed.
    pub closed spec fn view(&self) -> Seq<u8> {
        self.buf@.subrange(self.pos as int, self.end as int)
    }

    pub fn new() -> (r: Self)
        ensures
            r.wf(),
            r@ == Seq::<u8>::empty(),
    {
        let mut buf: Vec<u8> = Vec::new();
        buf.resize(READ_BUF_SIZE, 0);
        let r = ReadBuffer { buf, pos: 0, end: 0 };
        proof {
            assert(r@ =~= Seq::<u8>::empty());
        }
        r
    }

    pub fn len(&self) -> (n: usize)
        requires
            self.wf(),
        ensures
            n == self@.len(),
    {
        self.end - self.pos
    }

    pub fn is_empty(&self) -> (r: bool)
        requires
            self.wf(),
        ensures
            r == (self@.len() == 0),
    {
        self.pos == self.end
    }

    pub fn chunk(&self) -> (r: &[u8])
        requires
            self.wf(),
        ensures
            r@ == self@,
    {
        &self.buf.as_slice()[self.pos..self.end]
    }

    pub fn consume(&mut self, n: usize)
        requires
            old(self).wf(),
            n <= old(self)@.len(),
        ensures
            final(self).wf(),
            final(self)@ == old(self)@.skip(n as int),
    {
        self.pos += n;
        proof {
            assert(self@ =~= old(self)@.skip(n as int));
        }
    }

    /// Makes room behind the unconsumed bytes and returns how many bytes one read may add.
    pub fn make_room(&mut self) -> (room: usize)
        requires
            old(self).wf(),
            old(self)@.len() < READ_BUF_SIZE,
        ensures
            final(self).wf(),
            final(self)@ == old(self)@,
            room == final(self).room(),
            0 < room,
            old(self)@.len() == 0 ==> room == READ_BUF_SIZE,
    {
        if self.pos == self.end {
            self.pos = 0;
            self.end = 0;
        } else if self.end == self.buf.len() {
            let n: usize = self.end - self.pos;
            let mut i: usize = 0;
            while i < n
                invariant
                    self.pos + n == self.end,
                    self.end == self.buf@.len(),
                    self.buf@.len() == READ_BUF_SIZE,
                    i <= n,
                    self.pos == old(self).pos,
                    self.end == old(self).end,
                    self.buf@.len() == old(self).buf@.len(),
                    forall|j: int| 0 <= j < i ==> self.buf@[j] == old(self).buf@[self.pos + j],
                    forall|j: int|
                        i <= j < self.buf@.len() ==> self.buf@[j] == old(self).buf@[j],
                decreases n - i,
            {
                self.buf[i] = self.buf[self.pos + i];
                i += 1;
            }
            self.end = n;
            self.pos = 0;
        }
        proof {
            assert(self@ =~= old(self)@);
        }
        self.buf.len() - self.end
    }

    /// How many bytes one read may add behind the unconsumed ones.
    pub closed spec fn room(self) -> int {
        self.buf@.len() - self.end
    }

    /// Appends bytes that were read from the connection.
    pub fn fill(&mut self, data: &[u8])
        requires
            old(self).wf(),
            data@.len() <= old(self).room(),
        ensures
            final(self).wf(),
            final(self)@ == old(self)@ + data@,
    {
        let mut i: usize = 0;
        while i < data.len()
            invariant
                self.pos <= self.end,
                self.end + data@.len() <= self.buf@.len(),
                self.buf@.len() == READ_BUF_SIZE,
                i <= data@.len(),
                self.pos == old(self).pos,
                self.end == old(self).end,
                self.buf@.len() == old(self).buf@.len(),
                forall|j: int| 0 <= j < self.end ==> self.buf@[j] == old(self).buf@[j],
                forall|j: int| 0 <= j < i ==> self.buf@[self.end + j] == data@[j],
            decreases data@.len() - i,
        {
            let at: usize = self.end + i;
            self.buf[at] = data[i];
            i += 1;
        }
        self.end += data.len();
        proof {
            assert(self@ =~= old(self)@ + data@);
        }
    }
}

#[derive(Clone, Copy, PartialEq, Eq, Debug, Structural)]
pub enum Direction {
    Open,
    Fin,
    Rst,
}

/// Why a session cannot go on.
#[derive(Clone, Copy, PartialEq, Eq, Debug)]
pub enum SessionError {
    /// The peer aborted the session.
    ConnectionReset,
    /// The connection failed earlier, or the direction has ended.
    BrokenPipe,
    /// The connection was closed inside a session.
    UnexpectedEof,
    /// The connection takes no more bytes.
    WriteZero,
    /// The peer sent something that is not a frame.
    UnknownFrameKind(u8),
    /// The peer keeps sending after the session.
    KeepsSending,
}

/// The inbound half of a session: the bytes read and not consumed, the payload bytes
/// missing from the current frame, how the direction ended, and the kind of a frame that
/// nobody knows.
#[verifier::ext_equal]
pub struct Inbound {
    pub buf: Seq<u8>,
    pub remaining: nat,
    pub rx: Direction,
    pub bad: Option<u8>,
}

/// The inbound half once every frame header that stands in front is consumed.
pub open spec fn skip_headers(i: Inbound) -> Inbound
    decreases i.buf.len(),
{
    if i.rx != Direction::Open || i.bad is Some || i.remaining > 0 || i.buf.len() < HEADER_LEN {
        i
    } else {
        let kind = i.buf[0];
        let rest = i.buf.skip(HEADER_LEN as int);
        if kind == FRAME_DATA {
            skip_headers(
                Inbound {
                    buf: rest,
                    remaining: wire::u16_of(i.buf.subrange(1, 3)),
                    rx: i.rx,
                    bad: i.bad,
                },
            )
        } else if kind == FRAME_FIN {
            Inbound { buf: rest, remaining: 0, rx: Direction::Fin, bad: i.bad }
        } else if kind == FRAME_RST {
            Inbound { buf: rest, remaining: 0, rx: Direction::Rst, bad: i.bad }
        } else {
            Inbound { buf: rest, remaining: 0, rx: i.rx, bad: Some(kind) }
        }
    }
}

/// A data channel that can carry several TCP sessions, one after another.
///
/// Between sessions the connection is read and written as is, which is how the command
/// that opens the next session travels.
pub struct ReusableChannel {
    read_buf: ReadBuffer,
    write_buf: bytes::BytesMut,
}

/// What reading an idle connection without waiting gave.
pub enum Probe {
    /// Nothing to read.
    Pending,
    /// Bytes, or none at the end of the connection.
    Ready(Vec<u8>),
    /// The connection failed.
    Failed,
}

impl ReusableChannel {
    pub closed spec fn wf(self) -> bool {
        self.read_buf.wf() && buffers::buffer_contents(self.write_buf).len() <= MAX_QUEUED
    }

    /// Bytes read from the connection and not consumed.
    pub closed spec fn unread(self) -> Seq<u8> {
        self.read_buf@
    }

    /// Bytes queued for the connection.
    pub closed spec fn queued(self) -> Seq<u8> {
        buffers::buffer_contents(self.write_buf)
    }

    /// How many bytes one read of the connection may add.
    pub closed spec fn room(self) -> int {
        self.read_buf.room()
    }

    pub fn new() -> (r: Self)
        ensures
            r.wf(),
            r.unread() == Seq::<u8>::empty(),
            r.queued() == Seq::<u8>::empty(),
    {
        ReusableChannel { read_buf: ReadBuffer::new(), write_buf: buffers::buffer_new() }
    }

    /// Starts a session.
    pub fn start_session(self) -> (r: SessionState)
        requires
            self.wf(),
            self.queued().len() == 0,
        ensures
            r.wf(),
            r.inbound() == (Inbound {
                buf: self.unread(),
                remaining: 0,
                rx: Direction::Open,
                bad: None,
            }),
            r.queued() == self.queued(),
            r.tx() == Direction::Open,
            !r.broken(),
    {
        SessionState {
            channel: self,
            rx: Direction::Open,
            tx: Direction::Open,
            remaining: 0,
            broken: false,
        }
    }

    /// Makes room for a probe of an idle channel. `None`: bytes are left over, and the
    /// channel need not be probed.
    pub fn probe_room(&mut self) -> (r: Option<usize>)
        requires
            old(self).wf(),
        ensures
            final(self).wf(),
            final(self).unread() == old(self).unread(),
            final(self).queued() == old(self).queued(),
            r is Some <==> old(self).unread().len() == 0,
            r is Some ==> r->0 == READ_BUF_SIZE && final(self).room() == READ_BUF_SIZE,
    {
        if !self.read_buf.is_empty() {
            return None;
        }
        let room: usize = self.read_buf.make_room();
        Some(room)
    }

    /// Checks an idle channel. The peer sends nothing between sessions, so anything
    /// readable is the end of the connection, an error, or a protocol violation.
    pub fn is_idle_healthy(&mut self, probe: Probe) -> (r: bool)
        requires
            old(self).wf(),
            probe matches Probe::Ready(data) ==> data@.len() <= old(self).room(),
        ensures
            final(self).wf(),
            final(self).queued() == old(self).queued(),
            r == (old(self).unread().len() == 0 && probe is Pending),
            final(self).unread() == (match probe {
                Probe::Ready(data) => if old(self).unread().len() == 0 {
                    data@
                } else {
                    old(self).unread()
                },
                _ => old(self).unread(),
            }),
    {
        if !self.read_buf.is_empty() {
            return false;
        }
        match probe {
            Probe::Pending => true,
            Probe::Ready(data) => {
                self.read_buf.fill(data.as_slice());
                proof {
                    assert(self.unread() =~= data@);
                }
                false
            },
            Probe::Failed => false,
        }
    }

    /// Reads between sessions: bytes that are left over come first. `None`: there are
    /// none, and the connection itself is read.
    pub fn read_raw(&mut self, capacity: usize) -> (r: Option<Vec<u8>>)
        requires
            old(self).wf(),
        ensures
            final(self).wf(),
            final(self).queued() == old(self).queued(),
            r is None <==> old(self).unread().len() == 0,
            r is None ==> final(self).unread() == old(self).unread(),
            r matches Some(data) ==> {
                let n = if old(self).unread().len() <= capacity {
                    old(self).unread().len() as int
                } else {
                    capacity as int
                };
                data@ == old(self).unread().take(n) && final(self).unread()
                    == old(self).unread().skip(n)
            },
    {
        if self.read_buf.is_empty() {
            return None;
        }
        let n: usize = if self.read_buf.len() <= capacity {
            self.read_buf.len()
        } else {
            capacity
        };
        let data = protocol::slice_to_vec(&self.read_buf.chunk()[0..n]);
        self.read_buf.consume(n);
        Some(data)
    }
}

/// Bytes of the largest frame.
pub const MAX_FRAME: usize = 65538;

/// At most one frame is queued, and the frame that ends the direction.
pub const MAX_QUEUED: usize = 65541;

/// What a read of a session asks for or gives.
pub enum ReadStep {
    /// These bytes go to the reader.
    Deliver(Vec<u8>),
    /// The peer ended its direction.
    Eof,
    Fail(SessionError),
    /// Read the connection into the channel's own buffer.
    NeedFill,
    /// Read the connection straight into the reader's buffer, at most this many bytes.
    NeedDirect(usize),
}

/// What a write to a session asks for or gives.
#[derive(Clone, Copy, PartialEq, Eq, Debug)]
pub enum WriteStep {
    /// This many bytes were queued as a frame.
    Queued(usize),
    /// Write out what is queued first.
    NeedDrain,
    Fail(SessionError),
}

/// One visitor's byte stream on a reusable channel.
pub struct SessionState {
    channel: ReusableChannel,
    rx: Direction,
    tx: Direction,
    /// Payload bytes of the current inbound `DATA` frame not delivered yet.
    remaining: usize,
    /// The connection failed or lost framing. It can't be reused.
    broken: bool,
}

pub open spec fn min(a: int, b: int) -> int {
    if a <= b {
        a
    } else {
        b
    }
}

/// What a read of at most `capacity` bytes gives, and what it leaves.
pub open spec fn read_outcome(
    before: Inbound,
    broken: bool,
    capacity: int,
    step: ReadStep,
    after: Inbound,
    broken_after: bool,
) -> bool {
    let a = skip_headers(before);
    let n = min(min(a.remaining as int, a.buf.len() as int), capacity);
    if capacity == 0 {
        step matches ReadStep::Deliver(data) && data@.len() == 0 && after == before && broken_after
            == broken
    } else if before.rx == Direction::Fin {
        step is Eof && after == before && broken_after == broken
    } else if before.rx == Direction::Rst {
        step == ReadStep::Fail(SessionError::ConnectionReset) && after == before && broken_after
            == broken
    } else if broken {
        step == ReadStep::Fail(SessionError::BrokenPipe) && after == before && broken_after
    } else if a.bad is Some {
        step == ReadStep::Fail(SessionError::UnknownFrameKind(a.bad->0)) && after == (Inbound {
            buf: a.buf,
            remaining: a.remaining,
            rx: a.rx,
            bad: None,
        }) && broken_after
    } else if a.rx == Direction::Fin {
        step is Eof && after == a && !broken_after
    } else if a.rx == Direction::Rst {
        step == ReadStep::Fail(SessionError::ConnectionReset) && after == a && !broken_after
    } else if a.remaining == 0 {
        step is NeedFill && after == a && !broken_after
    } else if a.buf.len() > 0 {
        step matches ReadStep::Deliver(data) && data@ == a.buf.take(n) && after == (Inbound {
            buf: a.buf.skip(n),
            remaining: (a.remaining - n) as nat,
            rx: a.rx,
            bad: a.bad,
        }) && !broken_after
    } else {
        step matches ReadStep::NeedDirect(max) && max == min(a.remaining as int, capacity) && after
            == a && !broken_after
    }
}

/// The frame that carries `payload`.
pub open spec fn data_frame(payload: Seq<u8>) -> Seq<u8> {
    seq![FRAME_DATA] + wire::u16_le(payload.len() as u16) + payload
}

/// The frame that ends a direction.
pub open spec fn end_frame(how: Direction) -> Seq<u8> {
    seq![
        if how == Direction::Fin {
            FRAME_FIN
        } else {
            FRAME_RST
        },
    ] + wire::u16_le(0)
}

impl SessionState {
    pub closed spec fn wf(self) -> bool {
        self.channel.wf() && self.remaining <= MAX_PAYLOAD && (self.tx == Direction::Open
            ==> buffers::buffer_contents(self.channel.write_buf).len() <= MAX_FRAME) && (self.rx
            != Direction::Open ==> self.remaining == 0)
    }

    pub closed spec fn inbound(self) -> Inbound {
        Inbound {
            buf: self.channel.unread(),
            remaining: self.remaining as nat,
            rx: self.rx,
            bad: None,
        }
    }

    /// Bytes queued for the connection.
    pub closed spec fn queued(self) -> Seq<u8> {
        self.channel.queued()
    }

    pub closed spec fn tx(self) -> Direction {
        self.tx
    }

    pub closed spec fn broken(self) -> bool {
        self.broken
    }

    /// How many bytes one read of the connection may add.
    pub closed spec fn room(self) -> int {
        self.channel.room()
    }

    /// The outbound half is the same.
    pub open spec fn same_outbound(self, other: SessionState) -> bool {
        self.queued() == other.queued() && self.tx() == other.tx()
    }

    /// The inbound half is the same.
    pub open spec fn same_inbound(self, other: SessionState) -> bool {
        self.inbound() == other.inbound()
    }

    /// Marks the connection as failed.
    pub fn fail(&mut self)
        requires
            old(self).wf(),
        ensures
            final(self).wf(),
            final(self).broken(),
            final(self).same_inbound(*old(self)),
            final(self).same_outbound(*old(self)),
    {
        self.broken = true;
    }

    /// Reads at most `capacity` bytes of the session.
    pub fn read_step(&mut self, capacity: usize) -> (step: ReadStep)
        requires
            old(self).wf(),
        ensures
            final(self).wf(),
            final(self).same_outbound(*old(self)),
            read_outcome(
                old(self).inbound(),
                old(self).broken(),
                capacity as int,
                step,
                final(self).inbound(),
                final(self).broken(),
            ),
    {
        if capacity == 0 {
            return ReadStep::Deliver(Vec::new());
        }
        loop
            invariant
                self.wf(),
                capacity > 0,
                self.same_outbound(*old(self)),
                self.broken == old(self).broken,
                self.rx != old(self).rx ==> !self.broken && old(self).rx == Direction::Open,
                self.broken || old(self).rx != Direction::Open ==> self.inbound() == old(
                    self,
                ).inbound(),
                skip_headers(self.inbound()) == skip_headers(old(self).inbound()),
            decreases self.channel.unread().len(),
        {
            match self.rx {
                Direction::Open => {},
                Direction::Fin => return ReadStep::Eof,
                Direction::Rst => return ReadStep::Fail(SessionError::ConnectionReset),
            }
            if self.broken {
                return ReadStep::Fail(SessionError::BrokenPipe);
            }
            if self.remaining == 0 {
                if self.channel.read_buf.len() < HEADER_LEN {
                    return ReadStep::NeedFill;
                }
                let ghost before = self.inbound();
                let header = self.channel.read_buf.chunk();
                let kind: u8 = header[0];
                let len: u16 = wire::read_u16_le(&header[1..3]);
                self.channel.read_buf.consume(HEADER_LEN);
                if kind == FRAME_DATA {
                    self.remaining = len as usize;
                } else if kind == FRAME_FIN {
                    self.rx = Direction::Fin;
                } else if kind == FRAME_RST {
                    self.rx = Direction::Rst;
                } else {
                    self.broken = true;
                    return ReadStep::Fail(SessionError::UnknownFrameKind(kind));
                }
                proof {
                    assert(skip_headers(before) == skip_headers(self.inbound()));
                }
                continue ;
            }
            if !self.channel.read_buf.is_empty() {
                let mut n: usize = self.remaining;
                if self.channel.read_buf.len() < n {
                    n = self.channel.read_buf.len();
                }
                if capacity < n {
                    n = capacity;
                }
                let data = protocol::slice_to_vec(&self.channel.read_buf.chunk()[0..n]);
                self.channel.read_buf.consume(n);
                self.remaining -= n;
                return ReadStep::Deliver(data);
            }
            // Nothing buffered: the payload goes straight to the reader, up to the frame
            // boundary.
            let max: usize = if self.remaining <= capacity {
                self.remaining
            } else {
                capacity
            };
            return ReadStep::NeedDirect(max);
        }
    }

    /// Makes room in the channel's own buffer and returns how many bytes one read may add.
    pub fn fill_room(&mut self) -> (room: usize)
        requires
            old(self).wf(),
            old(self).inbound().buf.len() < HEADER_LEN,
        ensures
            final(self).wf(),
            final(self).same_inbound(*old(self)),
            final(self).same_outbound(*old(self)),
            final(self).broken() == old(self).broken(),
            room == final(self).room(),
            0 < room,
    {
        let room: usize = self.channel.read_buf.make_room();
        room
    }

    /// Takes what a read into the channel's own buffer gave. No bytes: the connection was
    /// closed inside the session.
    pub fn on_fill(&mut self, data: &[u8]) -> (r: Result<(), SessionError>)
        requires
            old(self).wf(),
            data@.len() <= old(self).room(),
        ensures
            final(self).wf(),
            final(self).same_outbound(*old(self)),
            r is Err <==> data@.len() == 0,
            r is Err ==> r->Err_0 == SessionError::UnexpectedEof && final(self).broken()
                && final(self).same_inbound(*old(self)),
            r is Ok ==> final(self).broken() == old(self).broken() && final(self).inbound() == (
            Inbound {
                buf: old(self).inbound().buf + data@,
                remaining: old(self).inbound().remaining,
                rx: old(self).inbound().rx,
                bad: None,
            }),
    {
        if data.len() == 0 {
            self.fail();
            return Err(SessionError::UnexpectedEof);
        }
        self.channel.read_buf.fill(data);
        Ok(())
    }

    /// Takes how many payload bytes went straight to the reader. None: the connection was
    /// closed inside the session.
    pub fn on_direct(&mut self, n: usize) -> (r: Result<(), SessionError>)
        requires
            old(self).wf(),
            n <= old(self).inbound().remaining,
        ensures
            final(self).wf(),
            final(self).same_outbound(*old(self)),
            r is Err <==> n == 0,
            r is Err ==> r->Err_0 == SessionError::UnexpectedEof && final(self).broken()
                && final(self).same_inbound(*old(self)),
            r is Ok ==> final(self).broken() == old(self).broken() && final(self).inbound() == (
            Inbound {
                buf: old(self).inbound().buf,
                remaining: (old(self).inbound().remaining - n) as nat,
                rx: old(self).inbound().rx,
                bad: None,
            }),
    {
        if n == 0 {
            self.fail();
            return Err(SessionError::UnexpectedEof);
        }
        self.remaining -= n;
        Ok(())
    }

    /// Queues a frame with as much of `data` as fits. Header and payload leave in one
    /// write, so a frame never costs an extra packet or TLS record. At most one frame is
    /// queued at a time.
    pub fn write_step(&mut self, data: &[u8]) -> (step: WriteStep)
        requires
            old(self).wf(),
        ensures
            final(self).wf(),
            final(self).same_inbound(*old(self)),
            final(self).tx() == old(self).tx(),
            final(self).broken() == old(self).broken(),
            step == (if old(self).tx() != Direction::Open {
                WriteStep::Fail(SessionError::BrokenPipe)
            } else if data@.len() == 0 {
                WriteStep::Queued(0)
            } else if old(self).queued().len() > 0 {
                WriteStep::NeedDrain
            } else {
                WriteStep::Queued(min(data@.len() as int, MAX_PAYLOAD as int) as usize)
            }),
            final(self).queued() == (match step {
                WriteStep::Queued(n) => if n > 0 {
                    data_frame(data@.take(n as int))
                } else {
                    old(self).queued()
                },
                _ => old(self).queued(),
            }),
    {
        if self.tx != Direction::Open {
            return WriteStep::Fail(SessionError::BrokenPipe);
        }
        if data.len() == 0 {
            return WriteStep::Queued(0);
        }
        if buffers::buffer_as_slice(&self.channel.write_buf).len() > 0 {
            return WriteStep::NeedDrain;
        }
        let n: usize = if data.len() <= MAX_PAYLOAD {
            data.len()
        } else {
            MAX_PAYLOAD
        };
        buffers::buffer_reserve(&mut self.channel.write_buf, HEADER_LEN + n);
        buffers::buffer_put_u8(&mut self.channel.write_buf, FRAME_DATA);
        buffers::buffer_put_u16_le(&mut self.channel.write_buf, n as u16);
        buffers::buffer_put_slice(&mut self.channel.write_buf, &data[0..n]);
        proof {
            assert(self.queued() =~= data_frame(data@.take(n as int)));
        }
        WriteStep::Queued(n)
    }

    /// What is queued for the connection.
    pub fn pending_output(&self) -> (r: &[u8])
        requires
            self.wf(),
        ensures
            r@ == self.queued(),
    {
        buffers::buffer_as_slice(&self.channel.write_buf)
    }

    /// Takes how many queued bytes the connection took. None: it takes no more.
    pub fn on_written(&mut self, n: usize) -> (r: Result<(), SessionError>)
        requires
            old(self).wf(),
            n <= old(self).queued().len(),
        ensures
            final(self).wf(),
            final(self).same_inbound(*old(self)),
            final(self).tx() == old(self).tx(),
            final(self).queued() == old(self).queued().skip(n as int),
            r is Err <==> n == 0,
            r is Err ==> r->Err_0 == SessionError::WriteZero && final(self).broken(),
            r is Ok ==> final(self).broken() == old(self).broken(),
    {
        if n == 0 {
            self.fail();
            proof {
                assert(self.queued() =~= old(self).queued().skip(0));
            }
            return Err(SessionError::WriteZero);
        }
        buffers::buffer_advance(&mut self.channel.write_buf, n);
        Ok(())
    }

    fn end_tx(&mut self, how: Direction)
        requires
            old(self).wf(),
            old(self).tx() == Direction::Open,
            how != Direction::Open,
        ensures
            final(self).wf(),
            final(self).same_inbound(*old(self)),
            final(self).broken() == old(self).broken(),
            final(self).tx() == how,
            final(self).queued() == old(self).queued() + end_frame(how),
    {
        let kind: u8 = match how {
            Direction::Fin => FRAME_FIN,
            _ => FRAME_RST,
        };
        buffers::buffer_put_u8(&mut self.channel.write_buf, kind);
        buffers::buffer_put_u16_le(&mut self.channel.write_buf, 0);
        self.tx = how;
        proof {
            assert(self.queued() =~= old(self).queued() + end_frame(how));
        }
    }

    /// Ends the outbound direction; what is queued then has to be written and flushed. The
    /// connection itself stays open.
    pub fn shutdown(&mut self)
        requires
            old(self).wf(),
        ensures
            final(self).wf(),
            final(self).same_inbound(*old(self)),
            final(self).broken() == old(self).broken(),
            old(self).tx() == Direction::Open ==> final(self).tx() == Direction::Fin
                && final(self).queued() == old(self).queued() + end_frame(Direction::Fin),
            old(self).tx() != Direction::Open ==> final(self).same_outbound(*old(self)),
    {
        if self.tx == Direction::Open {
            self.end_tx(Direction::Fin);
        }
    }
}

/// What bringing a session to its end asks for or gives.
#[derive(Clone, Copy, PartialEq, Eq, Debug)]
pub enum SettleStep {
    /// Both directions have ended: the connection sits on a frame boundary.
    Done,
    /// Read the connection into the channel's own buffer.
    NeedFill,
    /// Read and throw away at most this many bytes of the connection.
    NeedDirect(usize),
    Fail(SessionError),
}

/// The bytes of the payload at the front that one read hands out.
pub open spec fn front(i: Inbound) -> int {
    min(i.remaining as int, i.buf.len() as int)
}

/// The inbound half without the first `n` payload bytes.
pub open spec fn without(i: Inbound, n: int) -> Inbound {
    Inbound { buf: i.buf.skip(n), remaining: (i.remaining - n) as nat, rx: i.rx, bad: i.bad }
}

/// Throwing away the payload that is buffered: what is left, how many bytes were thrown
/// away in all, and what comes next.
pub open spec fn discard(i: Inbound, drained: int) -> (Inbound, int, SettleStep)
    decreases i.buf.len(),
{
    let a = skip_headers(i);
    let n = front(a);
    if a.bad is Some {
        (a, drained, SettleStep::Fail(SessionError::UnknownFrameKind(a.bad->0)))
    } else if a.rx != Direction::Open {
        (a, drained, SettleStep::Done)
    } else if a.remaining == 0 {
        (a, drained, SettleStep::NeedFill)
    } else if a.buf.len() == 0 {
        (a, drained, SettleStep::NeedDirect(min(a.remaining as int, READ_BUF_SIZE as int) as usize))
    } else if drained + n > SETTLE_DRAIN_LIMIT {
        (without(a, n), drained + n, SettleStep::Fail(SessionError::KeepsSending))
    } else {
        proof {
            lemma_skip_headers_shorter(i);
        }
        discard(without(a, n), drained + n)
    }
}

/// Consuming headers adds no bytes, and a frame that nobody knows does not end the
/// direction.
pub proof fn lemma_skip_headers_shorter(i: Inbound)
    ensures
        skip_headers(i).buf.len() <= i.buf.len(),
        i.bad is None && skip_headers(i).bad is Some ==> skip_headers(i).rx == Direction::Open,
    decreases i.buf.len(),
{
    if i.rx != Direction::Open || i.bad is Some || i.remaining > 0 || i.buf.len() < HEADER_LEN {
    } else if i.buf[0] == FRAME_DATA {
        lemma_skip_headers_shorter(
            Inbound {
                buf: i.buf.skip(HEADER_LEN as int),
                remaining: wire::u16_of(i.buf.subrange(1, 3)),
                rx: i.rx,
                bad: i.bad,
            },
        );
    }
}

impl SessionState {
    /// Starts to bring the connection to the frame boundary that ends this session; what
    /// is queued then has to be written and flushed. Forwarding that stopped before the
    /// half-close was cut short.
    pub fn settle_start(&mut self) -> (r: Result<(), SessionError>)
        requires
            old(self).wf(),
        ensures
            final(self).wf(),
            final(self).same_inbound(*old(self)),
            final(self).broken() == old(self).broken(),
            r is Err <==> old(self).broken(),
            r is Err ==> r->Err_0 == SessionError::BrokenPipe,
            r is Err || old(self).tx() != Direction::Open ==> final(self).same_outbound(*old(self)),
            r is Ok && old(self).tx() == Direction::Open ==> final(self).tx() == Direction::Rst
                && final(self).queued() == old(self).queued() + end_frame(Direction::Rst),
    {
        if self.broken {
            return Err(SessionError::BrokenPipe);
        }
        if self.tx == Direction::Open {
            self.end_tx(Direction::Rst);
        }
        Ok(())
    }

    /// Throws away inbound payload until the peer ends its direction. `drained` counts the
    /// bytes thrown away so far. Where the own direction has ended and is written out, the
    /// session is then at its end.
    pub fn settle_step(&mut self, drained: usize) -> (r: (usize, SettleStep))
        requires
            old(self).wf(),
            !old(self).broken(),
            drained <= SETTLE_DRAIN_LIMIT,
        ensures
            final(self).wf(),
            final(self).same_outbound(*old(self)),
            ({
                let (i, total, step) = discard(old(self).inbound(), drained as int);
                &&& r.0 == total
                &&& r.1 == step
                &&& final(self).inbound() == (Inbound {
                    buf: i.buf,
                    remaining: i.remaining,
                    rx: i.rx,
                    bad: None,
                })
                &&& final(self).broken() == (i.bad is Some)
            }),
            r.1 == SettleStep::Done && old(self).tx() != Direction::Open && old(
                self,
            ).queued().len() == 0 ==> final(self).settled(),
    {
        let mut total: usize = drained;
        loop
            invariant
                self.wf(),
                !self.broken(),
                self.same_outbound(*old(self)),
                total <= SETTLE_DRAIN_LIMIT,
                discard(self.inbound(), total as int) == discard(
                    old(self).inbound(),
                    drained as int,
                ),
            decreases self.channel.unread().len(),
        {
            let ghost before = self.inbound();
            proof {
                lemma_skip_headers_shorter(before);
                lemma_buffered(self.channel.read_buf);
            }
            match self.read_step(READ_BUF_SIZE) {
                ReadStep::Deliver(data) => {
                    let n: usize = data.len();
                    total += n;
                    proof {
                        assert(self.inbound() == without(skip_headers(before), n as int));
                    }
                    if total > SETTLE_DRAIN_LIMIT {
                        return (total, SettleStep::Fail(SessionError::KeepsSending));
                    }
                },
                ReadStep::Eof => return (total, SettleStep::Done),
                ReadStep::NeedFill => return (total, SettleStep::NeedFill),
                ReadStep::NeedDirect(max) => return (total, SettleStep::NeedDirect(max)),
                ReadStep::Fail(e) => {
                    if self.rx == Direction::Rst {
                        return (total, SettleStep::Done);
                    }
                    return (total, SettleStep::Fail(e));
                },
            }
        }
    }

    /// Takes how many payload bytes were read and thrown away. None: the connection was
    /// closed inside the session.
    pub fn settle_direct(&mut self, drained: usize, n: usize) -> (r: Result<usize, SessionError>)
        requires
            old(self).wf(),
            drained <= SETTLE_DRAIN_LIMIT,
            n <= old(self).inbound().remaining,
        ensures
            final(self).wf(),
            final(self).same_outbound(*old(self)),
            r == (if n == 0 {
                Err::<usize, SessionError>(SessionError::UnexpectedEof)
            } else if drained + n > SETTLE_DRAIN_LIMIT {
                Err(SessionError::KeepsSending)
            } else {
                Ok((drained + n) as usize)
            }),
            n > 0 ==> final(self).broken() == old(self).broken() && final(self).inbound() == (
            Inbound {
                buf: old(self).inbound().buf,
                remaining: (old(self).inbound().remaining - n) as nat,
                rx: old(self).inbound().rx,
                bad: None,
            }),
            n == 0 ==> final(self).broken() && final(self).same_inbound(*old(self)),
    {
        match self.on_direct(n) {
            Err(e) => return Err(e),
            Ok(()) => {},
        }
        let total: usize = drained + n;
        if total > SETTLE_DRAIN_LIMIT {
            return Err(SessionError::KeepsSending);
        }
        Ok(total)
    }

    /// Whether the peer has ended its direction.
    pub fn inbound_ended(&self) -> (r: bool)
        requires
            self.wf(),
        ensures
            r == (self.inbound().rx != Direction::Open),
    {
        self.rx != Direction::Open
    }

    /// Both directions have ended, and everything is written: the connection sits on a frame
    /// boundary.
    pub open spec fn settled(self) -> bool {
        &&& !self.broken()
        &&& self.tx() != Direction::Open
        &&& self.inbound().rx != Direction::Open
        &&& self.inbound().remaining == 0
        &&& self.queued().len() == 0
    }

    /// Gives the channel back once the session is dropped. `in_time` says whether bringing
    /// the session to its end went through before the deadline; if it did not, or if the
    /// session is not at its end, the channel can't be reused.
    pub fn finish(self, in_time: bool) -> (r: Option<ReusableChannel>)
        requires
            self.wf(),
        ensures
            r is Some <==> in_time && self.settled(),
            r matches Some(channel) ==> channel.wf() && channel.unread() == self.inbound().buf
                && channel.queued() == Seq::<u8>::empty(),
    {
        let queued: usize = buffers::buffer_as_slice(&self.channel.write_buf).len();
        if in_time && !self.broken && self.tx != Direction::Open && self.rx != Direction::Open
            && self.remaining == 0 && queued == 0 {
            Some(self.channel)
        } else {
            None
        }
    }
}

/// The channel's own buffer holds no more than it has room for.
proof fn lemma_buffered(b: ReadBuffer)
    requires
        b.wf(),
    ensures
        b@.len() <= READ_BUF_SIZE,
{
}

/// The payload that the buffered bytes hold, and what is left behind it.
pub open spec fn decode(i: Inbound) -> (Seq<u8>, Inbound)
    decreases i.buf.len(),
{
    let a = skip_headers(i);
    let n = front(a);
    if a.rx == Direction::Open && a.bad is None && n > 0 {
        proof {
            lemma_skip_headers_shorter(i);
        }
        let (payload, last) = decode(without(a, n));
        (a.buf.take(n) + payload, last)
    } else {
        (Seq::empty(), a)
    }
}

/// The frames that carry `chunks`, one for each.
pub open spec fn data_frames(chunks: Seq<Seq<u8>>) -> Seq<u8>
    decreases chunks.len(),
{
    if chunks.len() == 0 {
        Seq::empty()
    } else {
        data_frame(chunks[0]) + data_frames(chunks.skip(1))
    }
}

/// The bytes of `chunks`, one after another.
pub open spec fn joined(chunks: Seq<Seq<u8>>) -> Seq<u8>
    decreases chunks.len(),
{
    if chunks.len() == 0 {
        Seq::empty()
    } else {
        chunks[0] + joined(chunks.skip(1))
    }
}

/// A direction at the start of a session that finds the bytes `buf`.
pub open spec fn fresh(buf: Seq<u8>) -> Inbound {
    Inbound { buf, remaining: 0, rx: Direction::Open, bad: None }
}

/// What one side of a session sent is what the other side receives: the payload of its
/// frames in order, then the end of the direction. Whatever follows on the wire is left
/// for the next session.
pub proof fn law_session_round_trip(chunks: Seq<Seq<u8>>, how: Direction, rest: Seq<u8>)
    requires
        how != Direction::Open,
        forall|i: int| 0 <= i < chunks.len() ==> (#[trigger] chunks[i]).len() <= MAX_PAYLOAD,
    ensures
        decode(fresh(data_frames(chunks) + end_frame(how) + rest)) == (
            joined(chunks),
            Inbound { buf: rest, remaining: 0, rx: how, bad: None },
        ),
    decreases chunks.len(),
{
    let s = data_frames(chunks) + end_frame(how) + rest;
    if chunks.len() == 0 {
        assert(s.skip(3) =~= rest);
        assert(skip_headers(fresh(s)) == (Inbound { buf: rest, remaining: 0, rx: how, bad: None }));
    } else {
        let c = chunks[0];
        let tail = data_frames(chunks.skip(1)) + end_frame(how) + rest;
        law_session_round_trip(chunks.skip(1), how, rest);
        assert(s =~= data_frame(c) + tail);
        wire::lemma_u16_round_trip(c.len() as u16);
        assert(s.subrange(1, 3) =~= wire::u16_le(c.len() as u16));
        assert(s.skip(3) =~= c + tail);
        let i = Inbound { buf: c + tail, remaining: c.len(), rx: Direction::Open, bad: None };
        assert(skip_headers(fresh(s)) == skip_headers(i));
        if c.len() == 0 {
            assert(c + tail =~= tail);
            assert(i == fresh(tail));
            assert(decode(fresh(s)) == decode(fresh(tail)));
            assert(joined(chunks) =~= joined(chunks.skip(1)));
        } else {
            assert(skip_headers(i) == i);
            assert(front(i) == c.len());
            assert((c + tail).take(c.len() as int) =~= c);
            assert((c + tail).skip(c.len() as int) =~= tail);
            assert(without(i, c.len() as int) == fresh(tail));
        }
    }
}

/// The same direction with more bytes behind.
pub open spec fn extended(i: Inbound, more: Seq<u8>) -> Inbound {
    Inbound { buf: i.buf + more, remaining: i.remaining, rx: i.rx, bad: i.bad }
}

proof fn lemma_skip_headers_extended(i: Inbound, more: Seq<u8>)
    ensures
        skip_headers(extended(i, more)) == skip_headers(extended(skip_headers(i), more)),
    decreases i.buf.len(),
{
    if i.rx != Direction::Open || i.bad is Some || i.remaining > 0 || i.buf.len() < HEADER_LEN {
    } else {
        let e = extended(i, more);
        assert(e.buf.subrange(1, 3) =~= i.buf.subrange(1, 3));
        assert(e.buf.skip(3) =~= i.buf.skip(3) + more);
        if i.buf[0] == FRAME_DATA {
            lemma_skip_headers_extended(
                Inbound {
                    buf: i.buf.skip(3),
                    remaining: wire::u16_of(i.buf.subrange(1, 3)),
                    rx: i.rx,
                    bad: i.bad,
                },
                more,
            );
        }
    }
}

/// How the bytes of a direction are cut into reads makes no difference: decoding what
/// came first, and then what is left of it with what comes next, gives what decoding all
/// of it at once gives.
pub proof fn law_reads_may_be_cut_anywhere(i: Inbound, more: Seq<u8>)
    ensures
        decode(extended(i, more)).0 == decode(i).0 + decode(extended(decode(i).1, more)).0,
        decode(extended(i, more)).1 == decode(extended(decode(i).1, more)).1,
    decreases i.buf.len(),
{
    let a = skip_headers(i);
    let n = front(a);
    let e = extended(i, more);
    lemma_skip_headers_extended(i, more);
    lemma_skip_headers_shorter(i);
    lemma_skip_headers_fixed(i);
    if a.rx == Direction::Open && a.bad is None && n > 0 {
        let next = without(a, n);
        let ea = extended(a, more);
        assert(skip_headers(ea) == ea);
        if n == a.remaining {
            law_reads_may_be_cut_anywhere(next, more);
            assert(ea.buf.take(n) =~= a.buf.take(n));
            assert(ea.buf.skip(n) =~= a.buf.skip(n) + more);
            assert(without(ea, n) == extended(next, more));
            let x = decode(extended(next, more)).0;
            let y = decode(next).0;
            let z = decode(extended(decode(next).1, more)).0;
            assert(a.buf.take(n) + (y + z) =~= (a.buf.take(n) + y) + z);
        } else {
            assert(a.buf.take(n) =~= a.buf);
            assert(next.buf =~= Seq::<u8>::empty());
            assert(skip_headers(next) == next);
            assert(decode(next) == (Seq::<u8>::empty(), next));
            assert(decode(i).0 =~= a.buf);
            assert(decode(i).1 == next);
            let en = extended(next, more);
            assert(en.buf =~= more);
            assert(skip_headers(en) == en);
            let m = front(ea);
            let k = front(en);
            assert(m == n + k);
            assert(ea.buf.skip(m) =~= more.skip(k));
            if k == 0 {
                assert(more =~= Seq::<u8>::empty());
                assert(ea.buf =~= a.buf);
                assert(ea == a);
                assert(en == next);
            } else {
                assert(without(ea, m) == without(en, k));
                assert(ea.buf.take(m) =~= a.buf + more.take(k));
                let z = decode(without(en, k)).0;
                assert((a.buf + more.take(k)) + z =~= a.buf + (more.take(k) + z));
            }
        }
    } else {
        assert(decode(i) == (Seq::<u8>::empty(), a));
        assert(decode(e) == decode(extended(a, more)));
        assert(decode(e).0 =~= decode(i).0 + decode(extended(a, more)).0);
    }
}

/// Consuming headers twice is consuming them once.
proof fn lemma_skip_headers_fixed(i: Inbound)
    ensures
        skip_headers(skip_headers(i)) == skip_headers(i),
    decreases i.buf.len(),
{
    if i.rx != Direction::Open || i.bad is Some || i.remaining > 0 || i.buf.len() < HEADER_LEN {
    } else if i.buf[0] == FRAME_DATA {
        lemma_skip_headers_fixed(
            Inbound {
                buf: i.buf.skip(HEADER_LEN as int),
                remaining: wire::u16_of(i.buf.subrange(1, 3)),
                rx: i.rx,
                bad: i.bad,
            },
        );
    }
}

/// Reading never loses, repeats or reorders payload: what a read delivers is the front of
/// what the buffered bytes hold, and the rest stays.
pub proof fn law_read_delivers_the_front(
    before: Inbound,
    capacity: int,
    step: ReadStep,
    after: Inbound,
)
    requires
        before.bad is None,
        capacity > 0,
        read_outcome(before, false, capacity, step, after, false),
    ensures
        step matches ReadStep::Deliver(data) ==> decode(before).0 == data@ + decode(after).0
            && decode(before).1 == decode(after).1 && 0 < data@.len() <= capacity,
        step is Eof ==> decode(before).0.len() == 0 && decode(before).1 == after && after.rx
            == Direction::Fin,
{
    let a = skip_headers(before);
    lemma_skip_headers_fixed(before);
    if let ReadStep::Deliver(data) = step {
        let n = data@.len() as int;
        let m = front(a);
        assert(after == without(a, n));
        assert(n <= m);
        assert(decode(before) == decode(a));
        lemma_payload_comes_in_pieces(a, n);
    }
}

/// A read straight from the connection, past the buffer, loses, repeats and reorders nothing
/// either: the payload bytes `data` that it takes are the front of what decoding the whole
/// stream gives, whatever comes behind them, and the direction goes on with that many bytes
/// less outstanding. The same holds of bytes that are thrown away at the end of a session.
pub proof fn law_a_direct_read_delivers_the_front(i: Inbound, data: Seq<u8>, rest: Seq<u8>)
    requires
        i.rx == Direction::Open,
        i.bad is None,
        i.buf.len() == 0,
        data.len() <= i.remaining,
    ensures
        ({
            let after = Inbound { remaining: (i.remaining - data.len()) as nat, ..i };
            &&& decode(extended(i, data + rest)).0 == data + decode(extended(after, rest)).0
            &&& decode(extended(i, data + rest)).1 == decode(extended(after, rest)).1
        }),
{
    let n = data.len() as int;
    let after = Inbound { remaining: (i.remaining - n) as nat, ..i };
    let e = extended(i, data + rest);
    let ea = extended(after, rest);
    assert(e.buf =~= data + rest);
    assert(ea.buf =~= rest);
    if n == 0 {
        assert(e.buf =~= rest);
        assert(e == ea);
        assert(data + decode(ea).0 =~= decode(ea).0);
    } else {
        assert(e.buf.take(n) =~= data);
        assert(e.buf.skip(n) =~= rest);
        assert(without(e, n) == ea);
        lemma_payload_comes_in_pieces(e, n);
    }
}

/// Inside a frame, the payload at the front is decoded as it is.
proof fn lemma_decode_inside_a_frame(i: Inbound)
    requires
        i.rx == Direction::Open,
        i.bad is None,
        i.remaining > 0,
        i.buf.len() > 0,
    ensures
        front(i) > 0,
        decode(i).0 == i.buf.take(front(i)) + decode(without(i, front(i))).0,
        decode(i).1 == decode(without(i, front(i))).1,
{
    assert(skip_headers(i) == i);
}

/// Inside a frame, taking some of its payload first makes no difference.
proof fn lemma_payload_comes_in_pieces(i: Inbound, n: int)
    requires
        i.rx == Direction::Open,
        i.bad is None,
        0 < n <= front(i),
    ensures
        decode(i).0 == i.buf.take(n) + decode(without(i, n)).0,
        decode(i).1 == decode(without(i, n)).1,
{
    let m = front(i);
    lemma_decode_inside_a_frame(i);
    if n < m {
        let after = without(i, n);
        lemma_decode_inside_a_frame(after);
        assert(front(after) == m - n);
        assert(after.buf.skip(m - n) =~= i.buf.skip(m));
        assert(without(after, m - n) == without(i, m));
        assert(i.buf.take(m) =~= i.buf.take(n) + after.buf.take(m - n));
        let z = decode(without(i, m)).0;
        assert((i.buf.take(n) + after.buf.take(m - n)) + z =~= i.buf.take(n) + (after.buf.take(
            m - n,
        ) + z));
    }
}

/// A session that was brought to its end leaves the connection on a frame boundary: the
/// peer's direction has ended, no payload is outstanding, and exactly the bytes of the
/// session are gone. What the next session sent is still there.
pub proof fn law_settled_channel_sits_on_a_frame_boundary(i: Inbound, drained: int)
    requires
        i.bad is None,
        i.rx != Direction::Open ==> i.remaining == 0,
        discard(i, drained).2 == SettleStep::Done,
    ensures
        discard(i, drained).0 == decode(i).1,
        decode(i).1.rx != Direction::Open,
        decode(i).1.remaining == 0,
    decreases i.buf.len(),
{
    let a = skip_headers(i);
    let n = front(a);
    lemma_skip_headers_shorter(i);
    lemma_ended_has_no_remainder(i);
    if a.bad is None && a.rx == Direction::Open && a.remaining > 0 && a.buf.len() > 0 {
        law_settled_channel_sits_on_a_frame_boundary(without(a, n), drained + n);
    }
}

proof fn lemma_ended_has_no_remainder(i: Inbound)
    requires
        i.rx != Direction::Open ==> i.remaining == 0,
    ensures
        skip_headers(i).rx != Direction::Open ==> skip_headers(i).remaining == 0,
    decreases i.buf.len(),
{
    if i.rx != Direction::Open || i.bad is Some || i.remaining > 0 || i.buf.len() < HEADER_LEN {
    } else if i.buf[0] == FRAME_DATA {
        lemma_ended_has_no_remainder(
            Inbound {
                buf: i.buf.skip(HEADER_LEN as int),
                remaining: wire::u16_of(i.buf.subrange(1, 3)),
                rx: i.rx,
                bad: i.bad,
            },
        );
    }
}

} // verus!
