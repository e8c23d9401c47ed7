use std::collections::VecDeque;
use std::sync::Arc;

use suppaftp::control::{exclusive_or_open, into_exclusive};
use suppaftp::reply::{code_from_buffer, read_bounded_line};
use suppaftp::{
    ConnectionError, ControlChannel, ErrorDetail, ErrorKind, Event, FtpError, FtpResult, Response,
    Status, MAX_REPLY_SIZE,
};

/// A server that sends `pieces`, then repeats `endless`, or closes the connection when `endless`
/// is empty. The client sees it through a buffer of at most `window` bytes.
struct Server {
    pieces: VecDeque<Vec<u8>>,
    endless: Vec<u8>,
    buffered: Vec<u8>,
    window: usize,
    read: usize,
}

impl Server {
    fn new(pieces: &[&[u8]], endless: &[u8]) -> Self {
        Server {
            pieces: pieces.iter().map(|piece| piece.to_vec()).collect(),
            endless: endless.to_vec(),
            buffered: Vec::new(),
            window: 8192,
            read: 0,
        }
    }

    fn fill(&mut self) {
        while self.buffered.is_empty() {
            match self.pieces.pop_front() {
                Some(piece) => self.buffered = piece,
                None if self.endless.is_empty() => return,
                None => self.buffered = self.endless.clone(),
            }
        }
    }

    fn event(&self) -> Event<'_> {
        if self.buffered.is_empty() {
            Event::Closed
        } else {
            Event::Received(&self.buffered[..self.buffered.len().min(self.window)])
        }
    }

    fn consume(&mut self, used: usize) {
        self.buffered.drain(..used);
        self.read += used;
    }

    fn read_response_in(
        &mut self,
        channel: &mut ControlChannel,
        expected: &[Status],
    ) -> FtpResult<Response> {
        let mut line_started = false;
        loop {
            self.fill();
            let (used, outcome) =
                channel.read_response_in(self.event(), &mut line_started, expected);
            self.consume(used);
            if let Some(result) = outcome {
                return result;
            }
        }
    }

    fn read_line(
        &mut self,
        channel: &ControlChannel,
        line: &mut Vec<u8>,
        reply_len: usize,
    ) -> FtpResult<usize> {
        let mut bytes_read: usize = 0;
        loop {
            self.fill();
            let (used, outcome) = channel.read_line(self.event(), &mut bytes_read, line, reply_len);
            self.consume(used);
            if let Some(result) = outcome {
                return result;
            }
        }
    }

    fn complete_transfer(&mut self, channel: &mut ControlChannel) -> FtpResult<()> {
        channel.begin_complete_transfer();
        let mut line_started = false;
        loop {
            self.fill();
            let (used, outcome) = channel.complete_transfer(self.event(), &mut line_started);
            self.consume(used);
            if let Some(result) = outcome {
                return result;
            }
        }
    }

    fn drain(&mut self, channel: &mut ControlChannel) -> FtpResult<Option<Response>> {
        if !channel.begin_drain_pending_transfer_reply() {
            return Ok(None);
        }
        let mut line_started = false;
        loop {
            self.fill();
            let (used, outcome) =
                channel.drain_pending_transfer_reply(self.event(), &mut line_started);
            self.consume(used);
            if let Some(result) = outcome {
                return result;
            }
        }
    }
}

/// Reads the greeting of `server`, as a client does when it connects.
fn connect(server: &mut Server) -> FtpResult<Response> {
    server.read_response_in(&mut ControlChannel::new(), &[Status::Ready])
}

/// A greeting of exactly `MAX_REPLY_SIZE` bytes.
fn greeting_of_max_size() -> Vec<u8> {
    let last = b"220 ready\r\n";
    let mut greeting = b"220-".to_vec();
    greeting.resize(MAX_REPLY_SIZE - last.len() - 2, b'a');
    greeting.extend_from_slice(b"\r\n");
    greeting.extend_from_slice(last);
    assert_eq!(greeting.len(), MAX_REPLY_SIZE);
    greeting
}

fn assert_reply_too_large(result: FtpResult<()>) {
    match result {
        Err(FtpError::ConnectionError(err)) => {
            assert_eq!(err.kind, ErrorKind::InvalidData);
            assert!(matches!(err.detail, ErrorDetail::ReplyTooLarge(_)));
        }
        other => panic!("expected ReplyTooLarge, got {:?}", other),
    }
}

fn assert_closed(result: FtpResult<Response>) {
    match result {
        Err(FtpError::ConnectionError(err)) => {
            assert_eq!(err.kind, ErrorKind::UnexpectedEof);
            assert_eq!(err.to_string(), "connection closed during multiline response");
        }
        other => panic!("expected the end of the connection, got {:?}", other),
    }
}

fn failed(kind: ErrorKind) -> Event<'static> {
    Event::Failed(ConnectionError {
        kind,
        detail: ErrorDetail::Message("reset by peer".to_string()),
    })
}

fn assert_response(result: FtpResult<Response>, status: Status, body: &[u8]) {
    let response = result.unwrap();
    assert_eq!(response.status, status);
    assert_eq!(response.body, body);
}

// ----- the size of a reply -----

#[test]
fn should_accept_a_reply_of_exactly_the_limit() {
    let mut server = Server::new(&[&greeting_of_max_size()], b"");
    assert!(connect(&mut server).is_ok());
}

#[test]
fn should_reject_a_reply_one_byte_over_the_limit() {
    let mut greeting = greeting_of_max_size();
    greeting.insert(4, b'a');
    let mut server = Server::new(&[&greeting], b"");
    assert_reply_too_large(connect(&mut server).map(|_| ()));
}

#[test]
fn should_reject_an_endless_greeting_line() {
    let mut server = Server::new(&[b"220 "], &b"a".repeat(4096));
    assert_reply_too_large(connect(&mut server).map(|_| ()));
    assert_eq!(server.read, MAX_REPLY_SIZE + 1);
}

#[test]
fn should_reject_an_endless_multiline_greeting() {
    let mut server = Server::new(&[b"220-welcome\r\n"], &b" hi\r\n".repeat(1024));
    assert_reply_too_large(connect(&mut server).map(|_| ()));
    assert_eq!(server.read, MAX_REPLY_SIZE + 1);
}

#[test]
fn should_reject_an_endless_feat_reply() {
    let mut server = Server::new(
        &[b"220 ready\r\n", b"211-Features\r\n"],
        &b" UTF8\r\n".repeat(1024),
    );
    let mut channel = ControlChannel::new();
    assert!(server.read_response_in(&mut channel, &[Status::Ready]).is_ok());
    let opening = server.read_response_in(&mut channel, &[Status::System]).unwrap();
    let mut reply_len = opening.body.len();
    let result = loop {
        let mut line = Vec::new();
        match server.read_line(&channel, &mut line, reply_len) {
            Ok(bytes_read) => {
                assert_eq!(line, b" UTF8\r\n");
                reply_len += bytes_read;
            }
            Err(err) => break Err(err),
        }
    };
    assert_reply_too_large(result);
}

#[test]
fn reply_too_large_stays_too_large() {
    let mut channel = ControlChannel::new();
    let mut server = Server::new(&[], b"a");
    assert_reply_too_large(
        server.read_response_in(&mut channel, &[Status::Ready]).map(|_| ()),
    );
    assert_eq!(server.read, MAX_REPLY_SIZE + 1);
    // One byte at a time, also for a line feed and the end of the connection.
    assert_reply_too_large(
        server.read_response_in(&mut channel, &[Status::Ready]).map(|_| ()),
    );
    assert_eq!(server.read, MAX_REPLY_SIZE + 2);
    let mut closing = Server::new(&[b"\r\n220 ready\r\n"], b"");
    assert_reply_too_large(
        closing.read_response_in(&mut channel, &[Status::Ready]).map(|_| ()),
    );
    assert_eq!(closing.read, 1);
    let mut closed = Server::new(&[], b"");
    assert_reply_too_large(
        closed.read_response_in(&mut channel, &[Status::Ready]).map(|_| ()),
    );
}

// ----- the grammar of a reply -----

#[test]
fn reads_a_single_line() {
    let mut server = Server::new(&[b"220 ready\r\n331 next\r\n"], b"");
    let mut channel = ControlChannel::new();
    assert_response(
        server.read_response_in(&mut channel, &[Status::Ready]),
        Status::Ready,
        b"220 ready\r\n",
    );
    assert_eq!(server.read, 11);
    assert_response(
        server.read_response_in(&mut channel, &[Status::LoggedIn, Status::NeedPassword]),
        Status::NeedPassword,
        b"331 next\r\n",
    );
    assert_eq!(server.read, 21);
}

#[test]
fn reads_one_status() {
    let mut channel = ControlChannel::new();
    let mut line_started = false;
    let (used, outcome) =
        channel.read_response(Event::Received(b"230 hi\r\n"), &mut line_started, Status::LoggedIn);
    assert_eq!(used, 8);
    assert_response(outcome.unwrap(), Status::LoggedIn, b"230 hi\r\n");
    let (used, outcome) =
        channel.read_response(Event::Received(b"230 hi\r\n"), &mut line_started, Status::Ready);
    assert_eq!(used, 8);
    assert!(matches!(outcome, Some(Err(FtpError::UnexpectedResponse(_)))));
}

#[test]
fn reads_several_lines() {
    let body = b"220-welcome\r\n 220 not the end\r\n2200 neither\r\n220\r\n220-nor this\r\n220 end\r\n";
    let mut server = Server::new(&[body, b"tail"], b"");
    assert_response(connect(&mut server), Status::Ready, body);
    assert_eq!(server.read, body.len());
}

#[test]
fn accepts_a_last_line_with_another_code() {
    let body = b"230-welcome\r\n226 end\r\n";
    let mut server = Server::new(&[body], b"");
    assert_response(
        server.read_response_in(&mut ControlChannel::new(), &[Status::ClosingDataConnection]),
        Status::ClosingDataConnection,
        body,
    );
}

#[test]
fn opening_line_ends_a_system_reply() {
    let mut server = Server::new(&[b"211-Features\r\n UTF8\r\n211 End\r\n"], b"");
    let mut channel = ControlChannel::new();
    assert_response(
        server.read_response_in(&mut channel, &[Status::System]),
        Status::System,
        b"211-Features\r\n",
    );
    let mut line = Vec::new();
    assert_eq!(server.read_line(&channel, &mut line, 14).unwrap(), 7);
    assert_eq!(line, b" UTF8\r\n");
    // Where no system status is expected, the same opening line does not end the reply.
    let body = b"211-Features\r\n UTF8\r\n211 End\r\n";
    let mut server = Server::new(&[body], b"");
    match server.read_response_in(&mut channel, &[Status::Help]) {
        Err(FtpError::UnexpectedResponse(response)) => {
            assert_eq!(response.status, Status::System);
            assert_eq!(response.body, body);
        }
        other => panic!("unexpected {:?}", other),
    }
}

#[test]
fn unexpected_status_is_handed_over() {
    let mut server = Server::new(&[b"421 busy\r\n"], b"");
    match connect(&mut server) {
        Err(FtpError::UnexpectedResponse(response)) => {
            assert_eq!(response.status, Status::NotAvailable);
            assert_eq!(response.body, b"421 busy\r\n");
        }
        other => panic!("unexpected {:?}", other),
    }
    let mut server = Server::new(&[b"999 odd\r\n"], b"");
    match connect(&mut server) {
        Err(FtpError::UnexpectedResponse(response)) => {
            assert_eq!(response.status, Status::Unknown);
        }
        other => panic!("unexpected {:?}", other),
    }
}

#[test]
fn malformed_reply_is_refused_and_forgotten() {
    let lines: [&[u8]; 6] = [b"\r\n", b"220\n", b"abc ready\r\n", b"22x ready\r\n", b"-22 ready\r\n", b"\xff\xfe\xfd ready\r\n"];
    for line in lines {
        let mut channel = ControlChannel::new();
        let mut server = Server::new(&[line, b"220 ready\r\n"], b"");
        assert!(matches!(
            server.read_response_in(&mut channel, &[Status::Ready]),
            Err(FtpError::BadResponse)
        ));
        assert_response(
            server.read_response_in(&mut channel, &[Status::Ready]),
            Status::Ready,
            b"220 ready\r\n",
        );
    }
}

#[test]
fn smallest_reply_has_five_bytes() {
    let mut server = Server::new(&[b"220 \n"], b"");
    assert_response(connect(&mut server), Status::Ready, b"220 \n");
}

#[test]
fn signed_code_opens_a_reply_but_does_not_end_it() {
    let body = b"+22 ready\r\n220 ready\r\n";
    let mut server = Server::new(&[body], b"");
    assert_response(connect(&mut server), Status::Ready, body);
}

#[test]
fn pieces_make_no_difference() {
    let body: &[u8] = b"220-welcome\r\n to\r\n220 us\r\n";
    for window in 1..body.len() {
        let mut server = Server::new(&[body, b"500 more\r\n"], b"");
        server.window = window;
        assert_response(connect(&mut server), Status::Ready, body);
        assert_eq!(server.read, body.len());
    }
}

// ----- the end of the connection -----

#[test]
fn closed_connection_gives_no_reply() {
    assert!(matches!(
        connect(&mut Server::new(&[], b"")),
        Err(FtpError::BadResponse)
    ));
}

#[test]
fn last_line_may_lack_its_end() {
    let mut server = Server::new(&[b"220 rea", b"dy"], b"");
    assert_response(connect(&mut server), Status::Ready, b"220 ready");
    let mut server = Server::new(&[b"220-welcome\r\n220 bye"], b"");
    assert_response(connect(&mut server), Status::Ready, b"220-welcome\r\n220 bye");
}

#[test]
fn closed_connection_between_lines_is_an_error() {
    assert_closed(connect(&mut Server::new(&[b"220-welcome\r\n"], b"")));
    assert_closed(connect(&mut Server::new(&[b"220-welcome\r\n to"], b"")));
    assert_closed(connect(&mut Server::new(&[b"220-welcome"], b"")));
}

#[test]
fn failure_is_handed_on_and_interruption_is_not() {
    let mut channel = ControlChannel::new();
    let mut line_started = false;
    let expected = [Status::Ready];
    let (used, outcome) =
        channel.read_response_in(Event::Received(b"220 "), &mut line_started, &expected);
    assert_eq!(used, 4);
    assert!(outcome.is_none());
    let (used, outcome) =
        channel.read_response_in(failed(ErrorKind::Interrupted), &mut line_started, &expected);
    assert_eq!(used, 0);
    assert!(outcome.is_none());
    let (used, outcome) =
        channel.read_response_in(failed(ErrorKind::ConnectionReset), &mut line_started, &expected);
    assert_eq!(used, 0);
    match outcome {
        Some(Err(FtpError::ConnectionError(err))) => {
            assert_eq!(err.kind, ErrorKind::ConnectionReset);
            assert_eq!(err.to_string(), "reset by peer");
        }
        other => panic!("unexpected {:?}", other),
    }
    // The bytes that came before are still there.
    let (_, outcome) =
        channel.read_response_in(Event::Received(b"ok\r\n"), &mut line_started, &expected);
    assert_response(outcome.unwrap(), Status::Ready, b"220 ok\r\n");
}

#[test]
fn cancelled_read_goes_on() {
    let mut channel = ControlChannel::new();
    let expected = [Status::Ready];
    for piece in [&b"220-wel"[..], b"come\r\n22", b"0 re"] {
        let mut line_started = false;
        let (used, outcome) =
            channel.read_response_in(Event::Received(piece), &mut line_started, &expected);
        assert_eq!(used, piece.len());
        assert!(outcome.is_none());
    }
    let mut line_started = false;
    let (used, outcome) =
        channel.read_response_in(Event::Received(b"ady\r\n"), &mut line_started, &expected);
    assert_eq!(used, 5);
    assert_response(outcome.unwrap(), Status::Ready, b"220-welcome\r\n220 ready\r\n");
}

#[test]
fn cancelled_read_keeps_the_bound() {
    let mut channel = ControlChannel::new();
    let mut line_started = false;
    let mut start = b"220-".to_vec();
    start.resize(MAX_REPLY_SIZE - 1, b'a');
    let (_, outcome) =
        channel.read_response_in(Event::Received(&start), &mut line_started, &[Status::Ready]);
    assert!(outcome.is_none());
    let mut server = Server::new(&[b"aaaa"], b"");
    assert_reply_too_large(
        server.read_response_in(&mut channel, &[Status::Ready]).map(|_| ()),
    );
    assert_eq!(server.read, 2);
}

// ----- codes and lines -----

#[test]
fn code_is_parsed_from_a_buffer() {
    assert_eq!(code_from_buffer(b"220 ready", 3).unwrap(), 220);
    assert_eq!(code_from_buffer(b"220 ready", 2).unwrap(), 22);
    assert_eq!(code_from_buffer(b"+12 ready", 3).unwrap(), 12);
    assert_eq!(code_from_buffer(b"007", 3).unwrap(), 7);
    assert!(matches!(code_from_buffer(b"22", 3), Err(FtpError::BadResponse)));
    assert!(matches!(code_from_buffer(b"22 0", 3), Err(FtpError::BadResponse)));
    assert!(matches!(code_from_buffer(b"220", 0), Err(FtpError::BadResponse)));
    assert!(matches!(code_from_buffer(b"\xc3\xa90", 3), Err(FtpError::BadResponse)));
    assert!(matches!(code_from_buffer(b"4294967296", 10), Err(FtpError::BadResponse)));
}

#[test]
fn line_is_read_to_its_end() {
    let mut line = b"ab".to_vec();
    let mut bytes_read: usize = 0;
    let (used, outcome) = read_bounded_line(Event::Received(b"cd"), &mut bytes_read, &mut line, 0);
    assert_eq!((used, bytes_read), (2, 2));
    assert!(outcome.is_none());
    let (used, outcome) =
        read_bounded_line(Event::Received(b"e\nf\n"), &mut bytes_read, &mut line, 0);
    assert_eq!(used, 2);
    assert_eq!(outcome.unwrap().unwrap(), 4);
    assert_eq!(line, b"abcde\n");
}

#[test]
fn line_ends_with_the_connection() {
    let mut line = Vec::new();
    let mut bytes_read: usize = 0;
    let (used, outcome) = read_bounded_line(Event::Closed, &mut bytes_read, &mut line, 9);
    assert_eq!(used, 0);
    assert_eq!(outcome.unwrap().unwrap(), 0);
    let (used, outcome) =
        read_bounded_line(failed(ErrorKind::TimedOut), &mut bytes_read, &mut line, 9);
    assert_eq!(used, 0);
    assert!(matches!(outcome, Some(Err(FtpError::ConnectionError(_)))));
}

#[test]
fn line_fits_exactly() {
    let mut line = Vec::new();
    let mut bytes_read: usize = 0;
    let (used, outcome) =
        read_bounded_line(Event::Received(b"a\nb"), &mut bytes_read, &mut line, MAX_REPLY_SIZE - 2);
    assert_eq!(used, 2);
    assert_eq!(outcome.unwrap().unwrap(), 2);
    let mut line = Vec::new();
    let mut bytes_read: usize = 0;
    let (used, outcome) =
        read_bounded_line(Event::Received(b"a\nb"), &mut bytes_read, &mut line, MAX_REPLY_SIZE - 1);
    assert_eq!(used, 2);
    assert_reply_too_large(outcome.unwrap().map(|_| ()));
    let mut line = Vec::new();
    let mut bytes_read: usize = 0;
    let (used, outcome) =
        read_bounded_line(Event::Received(b"a\nb"), &mut bytes_read, &mut line, usize::MAX);
    assert_eq!(used, 1);
    assert_reply_too_large(outcome.unwrap().map(|_| ()));
}

// ----- commands and transfers -----

#[test]
fn valid_command_is_sent_as_it_is() {
    let channel = ControlChannel::new();
    assert_eq!(
        channel.perform("CWD \u{e9}t\u{e9}\r\n", Ok::<(), FtpError>(())).unwrap(),
        "CWD \u{e9}t\u{e9}\r\n".as_bytes()
    );
}

#[test]
fn refused_command_is_not_sent() {
    let channel = ControlChannel::new();
    assert!(matches!(
        channel.perform("NOOP\r\nQUIT\r\n", Err(FtpError::BadResponse)),
        Err(FtpError::BadResponse)
    ));
}

#[test]
fn second_data_connection_is_refused() {
    let mut channel = ControlChannel::new();
    assert!(channel.guard_multiple_data_connections().is_ok());
    channel.data_connection_open = true;
    assert!(matches!(
        channel.guard_multiple_data_connections(),
        Err(FtpError::DataConnectionAlreadyOpen)
    ));
}

#[test]
fn transfer_is_completed() {
    for reply in [&b"226 done\r\n"[..], b"250 done\r\n"] {
        let mut channel = ControlChannel::new();
        channel.data_connection_open = true;
        let mut server = Server::new(&[reply], b"");
        assert!(server.complete_transfer(&mut channel).is_ok());
        assert!(!channel.data_connection_open);
        assert!(channel.guard_multiple_data_connections().is_ok());
    }
}

#[test]
fn failed_transfer_is_completed_too() {
    let mut channel = ControlChannel::new();
    channel.data_connection_open = true;
    channel.pending_transfer_reply = true;
    let mut server = Server::new(&[b"426 aborted\r\n"], b"");
    match server.complete_transfer(&mut channel) {
        Err(FtpError::UnexpectedResponse(response)) => {
            assert_eq!(response.status, Status::TransferAborted);
        }
        other => panic!("unexpected {:?}", other),
    }
    assert!(!channel.data_connection_open);
    assert!(!channel.pending_transfer_reply);
}

#[test]
fn transfer_reply_stays_pending_until_it_is_read() {
    let mut channel = ControlChannel::new();
    channel.data_connection_open = true;
    channel.pending_transfer_reply = true;
    assert!(channel.begin_drain_pending_transfer_reply());
    assert!(!channel.data_connection_open);
    assert!(channel.pending_transfer_reply);
    let mut line_started = false;
    let (used, outcome) =
        channel.drain_pending_transfer_reply(Event::Received(b"226 do"), &mut line_started);
    assert_eq!(used, 6);
    assert!(outcome.is_none());
    assert!(channel.pending_transfer_reply);
    let (used, outcome) =
        channel.drain_pending_transfer_reply(Event::Received(b"ne\r\n"), &mut line_started);
    assert_eq!(used, 4);
    assert!(matches!(outcome, Some(Ok(None))));
    assert!(!channel.pending_transfer_reply);
}

#[test]
fn nothing_is_drained_without_a_pending_reply() {
    let mut channel = ControlChannel::new();
    channel.data_connection_open = true;
    let mut server = Server::new(&[b"220 ready\r\n"], b"");
    assert!(server.drain(&mut channel).is_ok());
    assert_eq!(server.read, 0);
    assert!(channel.data_connection_open);
}

#[test]
fn drain_step_without_a_pending_reply_changes_nothing() {
    let mut channel = ControlChannel::new();
    channel.data_connection_open = true;
    channel.response_line = b"22".to_vec();
    let mut line_started = true;
    let (used, outcome) =
        channel.drain_pending_transfer_reply(Event::Received(b"6 done\r\n"), &mut line_started);
    assert_eq!(used, 0);
    assert!(matches!(outcome, Some(Ok(None))));
    assert!(line_started);
    assert!(channel.data_connection_open);
    assert_eq!(channel.response_line, b"22");
}

#[test]
fn refusal_of_a_dropped_transfer_is_drained() {
    let mut channel = ControlChannel::new();
    channel.pending_transfer_reply = true;
    let mut server = Server::new(&[b"426 aborted\r\n200 ok\r\n"], b"");
    let refusal = server.drain(&mut channel).unwrap().unwrap();
    assert_eq!(refusal.status, Status::TransferAborted);
    assert_eq!(refusal.body, b"426 aborted\r\n");
    assert!(!channel.pending_transfer_reply);
    assert_response(
        server.read_response_in(&mut channel, &[Status::CommandOk]),
        Status::CommandOk,
        b"200 ok\r\n",
    );
}

#[test]
fn unreadable_reply_of_a_dropped_transfer_is_an_error() {
    let mut channel = ControlChannel::new();
    channel.pending_transfer_reply = true;
    let mut line_started = false;
    assert!(channel.begin_drain_pending_transfer_reply());
    let (_, outcome) = channel
        .drain_pending_transfer_reply(failed(ErrorKind::ConnectionReset), &mut line_started);
    assert!(matches!(outcome, Some(Err(FtpError::ConnectionError(_)))));
    assert!(!channel.pending_transfer_reply);
    channel.pending_transfer_reply = true;
    let mut server = Server::new(&[b"garbage\r\n"], b"");
    assert!(matches!(server.drain(&mut channel), Err(FtpError::BadResponse)));
}

#[test]
fn shared_channel_is_not_unwrapped() {
    let control = Arc::new(ControlChannel::new());
    // A live transfer retains this handle.
    let transfer_control = Arc::clone(&control);
    assert!(matches!(
        into_exclusive(control),
        Err(FtpError::DataConnectionAlreadyOpen)
    ));
    let channel = into_exclusive(transfer_control).unwrap();
    assert!(!channel.data_connection_open);
}

#[test]
fn unwrapping_decides_who_owns_the_channel() {
    assert_eq!(exclusive_or_open(Ok::<u8, Arc<u8>>(7)).unwrap(), 7);
    assert!(matches!(
        exclusive_or_open::<u8>(Err(Arc::new(7))),
        Err(FtpError::DataConnectionAlreadyOpen)
    ));
}
