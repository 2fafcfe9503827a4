use rathole::reuse::{
    Probe, ReadBuffer, ReadStep, ReusableChannel, SessionError, SessionState, SettleStep,
    WriteStep, MAX_PAYLOAD, READ_BUF_SIZE, SETTLE_DRAIN_LIMIT,
};

/// One direction of a connection.
struct Pipe {
    bytes: Vec<u8>,
    closed: bool,
}

impl Pipe {
    fn new() -> Pipe {
        Pipe { bytes: Vec::new(), closed: false }
    }

    /// What a read of at most `max` bytes gives. `None`: it would have to wait.
    fn read(&mut self, max: usize) -> Option<Vec<u8>> {
        if self.bytes.is_empty() && !self.closed {
            return None;
        }
        let n = max.min(self.bytes.len());
        Some(self.bytes.drain(..n).collect())
    }
}

fn flush(s: &mut SessionState, out: &mut Pipe) {
    while !s.pending_output().is_empty() {
        let n = s.pending_output().len().min(30_001);
        let part = s.pending_output()[..n].to_vec();
        out.bytes.extend_from_slice(&part);
        s.on_written(n).unwrap();
    }
}

fn write_all(s: &mut SessionState, out: &mut Pipe, mut data: &[u8]) -> Result<(), SessionError> {
    while !data.is_empty() {
        match s.write_step(data) {
            WriteStep::Queued(n) => data = &data[n..],
            WriteStep::NeedDrain => flush(s, out),
            WriteStep::Fail(e) => return Err(e),
        }
    }
    flush(s, out);
    Ok(())
}

fn shutdown(s: &mut SessionState, out: &mut Pipe) {
    s.shutdown();
    flush(s, out);
}

/// Reads until the end of the direction, an error, or until nothing is there to read.
fn read_to_end(s: &mut SessionState, input: &mut Pipe) -> (Vec<u8>, Option<SessionError>) {
    let mut received: Vec<u8> = Vec::new();
    loop {
        match s.read_step(1000) {
            ReadStep::Deliver(data) => received.extend_from_slice(&data),
            ReadStep::Eof => return (received, None),
            ReadStep::Fail(e) => return (received, Some(e)),
            ReadStep::NeedFill => {
                let room = s.fill_room();
                let data = input.read(room).expect("the peer sent no end");
                if let Err(e) = s.on_fill(&data) {
                    return (received, Some(e));
                }
            }
            ReadStep::NeedDirect(max) => {
                let data = input.read(max).expect("the peer sent no end");
                if let Err(e) = s.on_direct(data.len()) {
                    return (received, Some(e));
                }
                received.extend_from_slice(&data);
            }
        }
    }
}

/// Brings a session to its end. A peer that sends nothing more counts as one that is late.
fn finish(mut s: SessionState, input: &mut Pipe, out: &mut Pipe) -> Option<ReusableChannel> {
    if s.settle_start().is_err() {
        return s.finish(false);
    }
    flush(&mut s, out);
    let mut drained: usize = 0;
    loop {
        let (total, step) = s.settle_step(drained);
        drained = total;
        match step {
            SettleStep::Done => return s.finish(true),
            SettleStep::Fail(_) => return s.finish(false),
            SettleStep::NeedFill => {
                let room = s.fill_room();
                match input.read(room) {
                    None => return s.finish(false),
                    Some(data) => {
                        if s.on_fill(&data).is_err() {
                            return s.finish(false);
                        }
                    }
                }
            }
            SettleStep::NeedDirect(max) => match input.read(max) {
                None => return s.finish(false),
                Some(data) => match s.settle_direct(drained, data.len()) {
                    Ok(total) => drained = total,
                    Err(_) => return s.finish(false),
                },
            },
        }
    }
}

struct Pair {
    to_right: Pipe,
    to_left: Pipe,
}

fn pair() -> (Pair, ReusableChannel, ReusableChannel) {
    (
        Pair { to_right: Pipe::new(), to_left: Pipe::new() },
        ReusableChannel::new(),
        ReusableChannel::new(),
    )
}

/// One request/response exchange with a half-close in each direction.
fn exchange(
    wire: &mut Pair,
    left: ReusableChannel,
    right: ReusableChannel,
    request: &[u8],
    response: &[u8],
) -> (ReusableChannel, ReusableChannel) {
    let mut left_session = left.start_session();
    let mut right_session = right.start_session();

    write_all(&mut left_session, &mut wire.to_right, request).unwrap();
    shutdown(&mut left_session, &mut wire.to_right);
    let (got_request, error) = read_to_end(&mut right_session, &mut wire.to_right);
    assert_eq!(error, None);
    write_all(&mut right_session, &mut wire.to_left, response).unwrap();
    shutdown(&mut right_session, &mut wire.to_left);
    let right = finish(right_session, &mut wire.to_right, &mut wire.to_left).unwrap();
    let (got_response, error) = read_to_end(&mut left_session, &mut wire.to_left);
    assert_eq!(error, None);
    let left = finish(left_session, &mut wire.to_left, &mut wire.to_right).unwrap();

    assert_eq!(got_request, request);
    assert_eq!(got_response, response);
    (left, right)
}

fn is_idle_healthy(channel: &mut ReusableChannel, input: &mut Pipe) -> bool {
    match channel.probe_room() {
        None => channel.is_idle_healthy(Probe::Pending),
        Some(room) => match input.read(room) {
            None => channel.is_idle_healthy(Probe::Pending),
            Some(data) => channel.is_idle_healthy(Probe::Ready(data)),
        },
    }
}

/// Reads between sessions.
fn read_raw(channel: &mut ReusableChannel, input: &mut Pipe, n: usize) -> Vec<u8> {
    let mut received: Vec<u8> = Vec::new();
    while received.len() < n {
        match channel.read_raw(n - received.len()) {
            Some(data) => received.extend_from_slice(&data),
            None => received.extend_from_slice(&input.read(n - received.len()).unwrap()),
        }
    }
    received
}

#[test]
fn carries_sessions_back_to_back() {
    let (mut wire, left, right) = pair();
    let big = vec![0xA5; 3 * MAX_PAYLOAD + 17];

    let (left, right) = exchange(&mut wire, left, right, b"first request", b"first response");
    let (left, right) = exchange(&mut wire, left, right, &big, b"");
    let (mut left, mut right) = exchange(&mut wire, left, right, b"", &big);

    assert!(is_idle_healthy(&mut left, &mut wire.to_left));
    assert!(is_idle_healthy(&mut right, &mut wire.to_right));
}

#[test]
fn passes_raw_bytes_between_sessions() {
    let (mut wire, left, right) = pair();
    let (left, mut right) = exchange(&mut wire, left, right, b"ping", b"pong");

    wire.to_right.bytes.extend_from_slice(b"next-cmd");
    let cmd = read_raw(&mut right, &mut wire.to_right, 8);

    assert_eq!(&cmd, b"next-cmd");
    exchange(&mut wire, left, right, b"ping again", b"pong again");
}

#[test]
fn keeps_bytes_of_the_next_session_read_along_with_fin() {
    // The peer ends the session and opens the next one before we read anything, so a single
    // read returns the FIN together with the next command.
    let (mut wire, left, right) = pair();
    let mut left_session = left.start_session();
    let mut right_session = right.start_session();
    shutdown(&mut right_session, &mut wire.to_left);
    shutdown(&mut left_session, &mut wire.to_right);
    finish(left_session, &mut wire.to_left, &mut wire.to_right).unwrap();
    wire.to_right.bytes.extend_from_slice(b"next-cmd");

    let (eof, error) = read_to_end(&mut right_session, &mut wire.to_right);
    assert!(wire.to_right.bytes.is_empty());
    let mut right = finish(right_session, &mut wire.to_right, &mut wire.to_left).unwrap();
    let cmd = read_raw(&mut right, &mut wire.to_right, 8);

    assert!(eof.is_empty());
    assert_eq!(error, None);
    assert_eq!(&cmd, b"next-cmd");
}

#[test]
fn aborted_session_resets_the_peer_and_keeps_the_channel() {
    let (mut wire, left, right) = pair();
    let mut left_session = left.start_session();
    let mut right_session = right.start_session();
    write_all(&mut left_session, &mut wire.to_right, b"partial").unwrap();

    // The left side stops without a half-close.
    left_session.settle_start().unwrap();
    flush(&mut left_session, &mut wire.to_right);
    let (received, error) = read_to_end(&mut right_session, &mut wire.to_right);
    let right = finish(right_session, &mut wire.to_right, &mut wire.to_left);
    let left = finish(left_session, &mut wire.to_left, &mut wire.to_right);

    assert_eq!(received, b"partial");
    assert_eq!(error, Some(SessionError::ConnectionReset));
    exchange(&mut wire, left.unwrap(), right.unwrap(), b"after", b"abort");
}

#[test]
fn drains_a_peer_that_was_still_sending_when_we_aborted() {
    let (mut wire, left, right) = pair();
    let left_session = left.start_session();
    let mut right_session = right.start_session();
    write_all(&mut right_session, &mut wire.to_left, &[7; 4096]).unwrap();
    shutdown(&mut right_session, &mut wire.to_left);

    let left = finish(left_session, &mut wire.to_left, &mut wire.to_right);
    let right = finish(right_session, &mut wire.to_right, &mut wire.to_left);

    exchange(&mut wire, left.unwrap(), right.unwrap(), b"still", b"aligned");
}

#[test]
fn a_session_that_is_not_at_its_end_keeps_its_channel() {
    // Nothing has ended.
    let (_, left, _) = pair();
    assert!(left.start_session().finish(true).is_none());

    // Only the own direction has ended.
    let (mut wire, left, _) = pair();
    let mut session = left.start_session();
    shutdown(&mut session, &mut wire.to_right);
    assert!(session.finish(true).is_none());

    // Both have, but the end is not written out.
    let (mut wire, left, right) = pair();
    let mut session = left.start_session();
    let mut peer = right.start_session();
    shutdown(&mut peer, &mut wire.to_left);
    assert_eq!(read_to_end(&mut session, &mut wire.to_left), (Vec::new(), None));
    session.settle_start().unwrap();
    assert!(session.finish(true).is_none());

    // Both have, and in time or not.
    for in_time in [true, false] {
        let (mut wire, left, right) = pair();
        let mut session = left.start_session();
        let mut peer = right.start_session();
        shutdown(&mut peer, &mut wire.to_left);
        shutdown(&mut session, &mut wire.to_right);
        assert_eq!(read_to_end(&mut session, &mut wire.to_left), (Vec::new(), None));
        assert_eq!(session.finish(in_time).is_some(), in_time);
    }
}

#[test]
fn gives_up_the_channel_when_the_connection_closes() {
    let (mut wire, left, _right) = pair();
    let mut left_session = left.start_session();

    wire.to_left.closed = true;
    let (received, error) = read_to_end(&mut left_session, &mut wire.to_left);

    assert!(received.is_empty());
    assert_eq!(error, Some(SessionError::UnexpectedEof));
    assert!(finish(left_session, &mut wire.to_left, &mut wire.to_right).is_none());
}

#[test]
fn gives_up_the_channel_when_the_peer_never_ends_the_session() {
    let (mut wire, left, _right) = pair();
    let left_session = left.start_session();

    assert!(finish(left_session, &mut wire.to_left, &mut wire.to_right).is_none());
}

#[test]
fn idle_channel_is_unhealthy_once_the_peer_is_gone() {
    let (mut wire, mut left, _right) = pair();
    assert!(is_idle_healthy(&mut left, &mut wire.to_left));

    wire.to_left.closed = true;

    assert!(!is_idle_healthy(&mut left, &mut wire.to_left));
    assert!(!left.is_idle_healthy(Probe::Failed));
}

#[test]
fn forwards_with_copy_bidirectional() {
    // visitor <-> left channel <-> right channel <-> echo service
    let (mut wire, left, right) = pair();
    let mut left_session = left.start_session();
    let mut right_session = right.start_session();
    let payload = vec![0x5A; 200_000];

    write_all(&mut left_session, &mut wire.to_right, &payload).unwrap();
    shutdown(&mut left_session, &mut wire.to_right);
    let (at_service, error) = read_to_end(&mut right_session, &mut wire.to_right);
    assert_eq!(error, None);
    write_all(&mut right_session, &mut wire.to_left, &at_service).unwrap();
    shutdown(&mut right_session, &mut wire.to_left);
    let (echoed, error) = read_to_end(&mut left_session, &mut wire.to_left);
    assert_eq!(error, None);
    let left = finish(left_session, &mut wire.to_left, &mut wire.to_right);
    let right = finish(right_session, &mut wire.to_right, &mut wire.to_left);

    assert_eq!(echoed, payload);
    exchange(&mut wire, left.unwrap(), right.unwrap(), b"next", b"visitor");
}

#[test]
fn carries_zstd_sessions_back_to_back() {
    let (mut wire, mut left, mut right) = pair();
    let payload = b"compressible tunnel payload ".repeat(512);

    for _ in 0..2 {
        let mut sender = left.start_session();
        let mut receiver = right.start_session();

        let compressed = zstd::encode_all(&payload[..], 3).unwrap();
        write_all(&mut sender, &mut wire.to_right, &compressed).unwrap();
        shutdown(&mut sender, &mut wire.to_right);
        let (received, error) = read_to_end(&mut receiver, &mut wire.to_right);
        shutdown(&mut receiver, &mut wire.to_left);

        assert_eq!(error, None);
        assert_eq!(zstd::decode_all(&received[..]).unwrap(), payload);
        left = finish(sender, &mut wire.to_left, &mut wire.to_right).unwrap();
        right = finish(receiver, &mut wire.to_right, &mut wire.to_left).unwrap();
    }
}

#[test]
fn frames_are_laid_out_as_kind_length_and_payload() {
    let mut s = ReusableChannel::new().start_session();
    assert_eq!(s.write_step(b"ab"), WriteStep::Queued(2));
    assert_eq!(s.pending_output(), [0, 2, 0, b'a', b'b']);
    assert_eq!(s.write_step(b"c"), WriteStep::NeedDrain);
    assert_eq!(s.write_step(b""), WriteStep::Queued(0));
    s.on_written(5).unwrap();
    s.shutdown();
    assert_eq!(s.pending_output(), [1, 0, 0]);
    // Once is enough.
    s.shutdown();
    assert_eq!(s.pending_output(), [1, 0, 0]);
    assert_eq!(s.write_step(b"c"), WriteStep::Fail(SessionError::BrokenPipe));

    let mut s = ReusableChannel::new().start_session();
    s.settle_start().unwrap();
    assert_eq!(s.pending_output(), [2, 0, 0]);

    let mut s = ReusableChannel::new().start_session();
    assert_eq!(s.write_step(&vec![1; MAX_PAYLOAD + 1]), WriteStep::Queued(MAX_PAYLOAD));
    assert_eq!(s.pending_output()[..4], [0, 0xff, 0xff, 1]);
    assert_eq!(s.on_written(0), Err(SessionError::WriteZero));
    assert_eq!(s.settle_start(), Err(SessionError::BrokenPipe));
}

#[test]
fn an_unknown_frame_kind_breaks_the_session() {
    let mut wire = Pipe::new();
    wire.bytes.extend_from_slice(&[9, 0, 0]);
    let mut s = ReusableChannel::new().start_session();
    let (received, error) = read_to_end(&mut s, &mut wire);
    assert!(received.is_empty());
    assert_eq!(error, Some(SessionError::UnknownFrameKind(9)));
    let (_, error) = read_to_end(&mut s, &mut wire);
    assert_eq!(error, Some(SessionError::BrokenPipe));
    assert!(s.finish(false).is_none());
}

#[test]
fn reads_may_be_cut_anywhere() {
    let mut stream: Vec<u8> = Vec::new();
    for payload in [&b"hello "[..], b"", b"wonderful ", b"world"] {
        stream.push(0);
        stream.extend_from_slice(&(payload.len() as u16).to_le_bytes());
        stream.extend_from_slice(payload);
    }
    stream.extend_from_slice(&[1, 0, 0]);
    for step in 1..stream.len() {
        let mut s = ReusableChannel::new().start_session();
        let mut received: Vec<u8> = Vec::new();
        let mut rest = &stream[..];
        loop {
            match s.read_step(4) {
                ReadStep::Deliver(data) => received.extend_from_slice(&data),
                ReadStep::Eof => break,
                ReadStep::Fail(e) => panic!("{e:?}"),
                ReadStep::NeedFill => {
                    let n = step.min(s.fill_room()).min(rest.len());
                    s.on_fill(&rest[..n]).unwrap();
                    rest = &rest[n..];
                }
                ReadStep::NeedDirect(max) => {
                    let n = step.min(max).min(rest.len());
                    received.extend_from_slice(&rest[..n]);
                    s.on_direct(n).unwrap();
                    rest = &rest[n..];
                }
            }
        }
        assert_eq!(received, b"hello wonderful world");
        assert!(s.inbound_ended());
        assert!(rest.is_empty());
    }
}

#[test]
fn a_peer_that_keeps_sending_is_given_up() {
    let mut wire = Pipe::new();
    let mut frames = SETTLE_DRAIN_LIMIT / MAX_PAYLOAD + 1;
    while frames > 0 {
        wire.bytes.push(0);
        wire.bytes.extend_from_slice(&(MAX_PAYLOAD as u16).to_le_bytes());
        wire.bytes.extend_from_slice(&vec![7; MAX_PAYLOAD]);
        frames -= 1;
    }
    wire.bytes.extend_from_slice(&[1, 0, 0]);
    let s = ReusableChannel::new().start_session();
    assert!(finish(s, &mut wire, &mut Pipe::new()).is_none());
}

#[test]
fn the_read_buffer_keeps_its_bytes_in_order() {
    let mut b = ReadBuffer::new();
    assert!(b.is_empty());
    assert_eq!(b.make_room(), READ_BUF_SIZE);
    b.fill(b"abcdef");
    assert_eq!(b.len(), 6);
    b.consume(4);
    assert_eq!(b.chunk(), b"ef");
    b.make_room();
    b.fill(b"gh");
    assert_eq!(b.chunk(), b"efgh");
    b.consume(4);
    assert!(b.is_empty());
}
