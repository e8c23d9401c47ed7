//! Control-connection state of the FTP client, shared with its in-flight data transfer.
//!
//! FTP allows a single data connection per session. Once the data socket of a transfer is shut
//! down, the transfer clears the "data connection open" flag and reads the completion reply of
//! the server. A transfer that is dropped before that only flags a *pending transfer reply*; the
//! next command drains that reply before sending anything, which keeps the control connection in
//! sync.
//!
//! Nothing here waits for the network: whoever owns the socket hands each [`Event`] of the
//! connection in and is told how many bytes were used and whether the read is over. A read that
//! is given up in between and begun again goes on where it stopped, for the bytes of an
//! unfinished reply stay in the [`ControlChannel`].

use std::sync::Arc;

use vstd::prelude::*;
use vstd::slice::slice_subrange;
use vstd::utf8::encode_utf8;

use crate::number::{all_digits, is_digit, NINE, ZERO};
use crate::reply::{
    after_bytes, after_bytes_by_line, after_event, after_line, code_from_buffer, code_in,
    is_terminal, line_outcome, line_step, read_bounded_line, reply_outcome, Event, EventView,
    PartialReply, Step, CODE_LEN, HYPHEN, MIN_REPLY_SIZE, SPACE,
};
use crate::status::Status;
use crate::types::{
    error_view, ConnectionError, ErrorDetail, ErrorKind, FtpError, FtpErrorView, FtpResult,
    Response, ResponseView,
};

verus! {

/// Replies that complete a data transfer: `226` or `250`.
pub const TRANSFER_COMPLETE: [Status; 2] = [
    Status::ClosingDataConnection,
    Status::RequestedFileActionOk,
];

/// The bookkeeping of the control connection: the data-connection flags and the bytes of a reply
/// that is being read.
#[derive(Debug)]
pub struct ControlChannel {
    /// Whether a data connection is currently open.
    ///
    /// FTP forbids more than one data connection at a time, so this flag guards every data
    /// command against opening a second one.
    pub data_connection_open: bool,
    /// Whether a transfer was dropped before its end and its reply is still unread.
    pub pending_transfer_reply: bool,
    /// Reply bytes survive cancellation while waiting for a complete line or multiline reply.
    pub response_line: Vec<u8>,
    /// The lines of that reply before the one that is being read.
    pub response_body: Vec<u8>,
}

/// Whether `expected` holds `status`.
fn is_expected(expected: &[Status], status: Status) -> (found: bool)
    ensures
        found == expected@.contains(status),
{
    let mut i: usize = 0;
    while i < expected.len()
        invariant
            i <= expected@.len(),
            forall|j: int| 0 <= j < i ==> expected@[j] != status,
        decreases expected@.len() - i,
    {
        if expected[i] == status {
            assert(expected@[i as int] == status);
            return true;
        }
        i = i + 1;
    }
    false
}

/// Whether `line` ends the reply that opens with `opening`.
fn ends_reply(line: &[u8], opening: &[u8], expected: &[Status]) -> (terminal: bool)
    requires
        opening@.len() >= CODE_LEN,
    ensures
        terminal == is_terminal(line@, opening@, expected@),
{
    if line.len() <= CODE_LEN {
        return false;
    }
    let mut same: bool = true;
    assert(line@.take(0) =~= opening@.take(0));
    let mut i: usize = 0;
    while i < CODE_LEN
        invariant
            i <= CODE_LEN,
            line@.len() > CODE_LEN,
            opening@.len() >= CODE_LEN,
            forall|j: int| 0 <= j < i ==> is_digit(#[trigger] line@[j]),
            same == (line@.take(i as int) == opening@.take(i as int)),
        decreases CODE_LEN - i,
    {
        if line[i] < ZERO || line[i] > NINE {
            assert(line@.take(CODE_LEN as int)[i as int] == line@[i as int]);
            return false;
        }
        proof {
            let shorter = line@.take(i as int);
            let longer = line@.take(i + 1);
            let opening_shorter = opening@.take(i as int);
            let opening_longer = opening@.take(i + 1);
            assert(longer =~= shorter.push(line@[i as int]));
            assert(opening_longer =~= opening_shorter.push(opening@[i as int]));
            assert(longer.drop_last() =~= shorter);
            assert(opening_longer.drop_last() =~= opening_shorter);
            assert(longer.last() == line@[i as int]);
            assert(opening_longer.last() == opening@[i as int]);
        }
        same = same && line[i] == opening[i];
        i = i + 1;
    }
    assert(all_digits(line@.take(CODE_LEN as int)));
    line[CODE_LEN] == SPACE || (line[CODE_LEN] == HYPHEN && is_expected(expected, Status::System)
        && same)
}

impl ControlChannel {
    /// The bytes of the reply that is being read.
    pub open spec fn reply(self) -> PartialReply {
        PartialReply { line: self.response_line@, body: self.response_body@ }
    }

    /// A fresh control channel with no data connection open.
    pub fn new() -> (channel: Self)
        ensures
            !channel.data_connection_open,
            !channel.pending_transfer_reply,
            channel.reply() == PartialReply::empty(),
    {
        Self {
            data_connection_open: false,
            pending_transfer_reply: false,
            response_line: Vec::new(),
            response_body: Vec::new(),
        }
    }

    /// Takes the line that was read into the reply, and tells how the reply ended if it is the
    /// last one.
    fn finish_line(&mut self, line_started: bool, expected_code: &[Status]) -> (outcome: Option<
        FtpResult<Response>,
    >)
        ensures
            ({
                let step = after_line(old(self).reply(), line_started, expected_code@);
                &&& final(self).reply() == step.reply
                &&& reply_outcome(outcome) == step.outcome
            }),
            final(self).data_connection_open == old(self).data_connection_open,
            final(self).pending_transfer_reply == old(self).pending_transfer_reply,
    {
        if !line_started && !self.response_body.is_empty() {
            return Some(
                Err(
                    FtpError::ConnectionError(
                        ConnectionError {
                            kind: ErrorKind::UnexpectedEof,
                            detail: ErrorDetail::Message(
                                "connection closed during multiline response".to_owned(),
                            ),
                        },
                    ),
                ),
            );
        }
        let ghost reply = self.reply();
        self.response_body.extend_from_slice(self.response_line.as_slice());
        assert(self.response_body@ =~= reply.bytes());
        if self.response_body.len() < MIN_REPLY_SIZE {
            self.response_line.clear();
            self.response_body.clear();
            assert(self.reply() =~= PartialReply::empty());
            return Some(Err(FtpError::BadResponse));
        }
        match code_from_buffer(self.response_body.as_slice(), CODE_LEN) {
            Ok(_) => {},
            Err(err) => {
                self.response_line.clear();
                self.response_body.clear();
                assert(self.reply() =~= PartialReply::empty());
                return Some(Err(err));
            },
        }
        if !ends_reply(
            self.response_line.as_slice(),
            self.response_body.as_slice(),
            expected_code,
        ) {
            self.response_line.clear();
            assert(self.reply() =~= (PartialReply { line: Seq::empty(), body: reply.bytes() }));
            return None;
        }
        proof {
            terminal_line_has_code(reply.line);
        }
        let code: u32 = match code_from_buffer(self.response_line.as_slice(), CODE_LEN) {
            Ok(code) => code,
            Err(err) => {
                return Some(Err(err));
            },
        };
        let status: Status = Status::from(code);
        self.response_line.clear();
        let mut body: Vec<u8> = Vec::new();
        std::mem::swap(&mut body, &mut self.response_body);
        assert(self.reply() =~= PartialReply::empty());
        let response: Response = Response::new(status, body);
        if is_expected(expected_code, status) {
            Some(Ok(response))
        } else {
            Some(Err(FtpError::UnexpectedResponse(response)))
        }
    }
}

impl ControlChannel {
    /// Reads one reply and checks that its status is `expected_code`; see
    /// [`ControlChannel::read_response_in`].
    pub fn read_response(
        &mut self,
        event: Event<'_>,
        line_started: &mut bool,
        expected_code: Status,
    ) -> (result: (usize, Option<FtpResult<Response>>))
        ensures
            ({
                let step = after_event(
                    old(self).reply(),
                    *old(line_started),
                    event@,
                    seq![expected_code],
                );
                &&& final(self).reply() == step.reply
                &&& *final(line_started) == step.line_started
                &&& result.0 == step.used
                &&& reply_outcome(result.1) == step.outcome
            }),
            final(self).data_connection_open == old(self).data_connection_open,
            final(self).pending_transfer_reply == old(self).pending_transfer_reply,
    {
        let expected: [Status; 1] = [expected_code];
        assert(expected@ =~= seq![expected_code]);
        self.read_response_in(event, line_started, expected.as_slice())
    }

    /// Reads one (possibly multi-line) reply and checks that its status is in `expected_code`.
    ///
    /// `event` is what the connection gave. `line_started` belongs to one read: it begins as
    /// `false` and is handed in again with each event of that read.
    ///
    /// Returns how many bytes of the event were used, and, once the reply is read, the response.
    /// While the second part is `None`, the read needs another event.
    ///
    /// # Errors
    ///
    /// - [`FtpError::UnexpectedResponse`] if the status of the reply is not in `expected_code`.
    /// - [`FtpError::BadResponse`] if the reply is shorter than [`MIN_REPLY_SIZE`] or does not
    ///   open with a code.
    /// - [`FtpError::ConnectionError`] if the reply is too large, if the connection is closed
    ///   between the lines of a reply, or if reading fails.
    pub fn read_response_in(
        &mut self,
        event: Event<'_>,
        line_started: &mut bool,
        expected_code: &[Status],
    ) -> (result: (usize, Option<FtpResult<Response>>))
        ensures
            ({
                let step = after_event(
                    old(self).reply(),
                    *old(line_started),
                    event@,
                    expected_code@,
                );
                &&& final(self).reply() == step.reply
                &&& *final(line_started) == step.line_started
                &&& result.0 == step.used
                &&& reply_outcome(result.1) == step.outcome
            }),
            final(self).data_connection_open == old(self).data_connection_open,
            final(self).pending_transfer_reply == old(self).pending_transfer_reply,
    {
        let input: &[u8] = match event {
            Event::Received(input) => input,
            Event::Closed => {
                let mut bytes_read: usize = 0;
                let (_, outcome) = read_bounded_line(
                    Event::Closed,
                    &mut bytes_read,
                    &mut self.response_line,
                    self.response_body.len(),
                );
                let started: bool = *line_started;
                *line_started = false;
                return match outcome {
                    Some(Err(err)) => (0, Some(Err(err))),
                    _ => (0, self.finish_line(started, expected_code)),
                };
            },
            Event::Failed(err) => {
                if err.kind == ErrorKind::Interrupted {
                    return (0, None);
                }
                *line_started = false;
                return (0, Some(Err(FtpError::ConnectionError(err))));
            },
        };
        let ghost whole = after_bytes(old(self).reply(), *old(line_started), input@, expected_code@);
        let mut pos: usize = 0;
        assert(input@.skip(0) =~= input@);
        while pos < input.len()
            invariant
                pos <= input@.len(),
                event@ == EventView::Received(input@),
                whole == after_bytes(
                    old(self).reply(),
                    *old(line_started),
                    input@,
                    expected_code@,
                ),
                ({
                    let rest = after_bytes(
                        self.reply(),
                        *line_started,
                        input@.skip(pos as int),
                        expected_code@,
                    );
                    whole == (Step { used: (pos + rest.used) as nat, ..rest })
                }),
                self.data_connection_open == old(self).data_connection_open,
                self.pending_transfer_reply == old(self).pending_transfer_reply,
            decreases input@.len() - pos,
        {
            let rest: &[u8] = slice_subrange(input, pos, input.len());
            assert(rest@ =~= input@.skip(pos as int));
            proof {
                after_bytes_by_line(self.reply(), *line_started, rest@, expected_code@);
            }
            let ghost before = self.reply();
            let mut bytes_read: usize = 0;
            let (used, outcome) = read_bounded_line(
                Event::Received(rest),
                &mut bytes_read,
                &mut self.response_line,
                self.response_body.len(),
            );
            assert(self.reply() =~= (PartialReply { line: self.response_line@, body: before.body }));
            pos = pos + used;
            assert(rest@.skip(used as int) =~= input@.skip(pos as int));
            match outcome {
                None => {
                    *line_started = true;
                    return (pos, None);
                },
                Some(Err(err)) => {
                    *line_started = false;
                    return (pos, Some(Err(err)));
                },
                Some(Ok(_)) => {
                    let response: Option<FtpResult<Response>> = self.finish_line(
                        true,
                        expected_code,
                    );
                    *line_started = false;
                    if response.is_some() {
                        return (pos, response);
                    }
                },
            }
        }
        assert(input@.skip(pos as int).len() == 0);
        (pos, None)
    }
}

/// What is known of a transfer once its completion reply was read: nothing but whether it failed.
pub open spec fn completed(outcome: Option<Result<ResponseView, FtpErrorView>>) -> Option<
    Result<(), FtpErrorView>,
> {
    match outcome {
        None => None,
        Some(Ok(_)) => Some(Ok(())),
        Some(Err(err)) => Some(Err(err)),
    }
}

/// What is known of a dropped transfer once its completion reply was read: nobody asks for its
/// outcome, so a refusal counts as read and is only shown.
pub open spec fn drained(outcome: Option<Result<ResponseView, FtpErrorView>>) -> Option<
    Result<Option<ResponseView>, FtpErrorView>,
> {
    match outcome {
        None => None,
        Some(Ok(_)) => Some(Ok(None)),
        Some(Err(FtpErrorView::UnexpectedResponse(refusal))) => Some(Ok(Some(refusal))),
        Some(Err(err)) => Some(Err(err)),
    }
}

/// The mathematical value of how the end of a transfer went.
pub open spec fn transfer_outcome(outcome: Option<FtpResult<()>>) -> Option<
    Result<(), FtpErrorView>,
> {
    match outcome {
        None => None,
        Some(result) => Some(error_view(result)),
    }
}

/// The mathematical value of how reading the reply of a dropped transfer went.
pub open spec fn drain_outcome(outcome: Option<FtpResult<Option<Response>>>) -> Option<
    Result<Option<ResponseView>, FtpErrorView>,
> {
    match outcome {
        None => None,
        Some(Ok(None)) => Some(Ok(None)),
        Some(Ok(Some(refusal))) => Some(Ok(Some(refusal@))),
        Some(Err(err)) => Some(Err(err@)),
    }
}

/// Reading the reply of a dropped transfer ends when reading that of a finished one does, and
/// fails only if the reply could not be read: a refusal is no failure.
pub proof fn refusal_is_drained(outcome: Option<Result<ResponseView, FtpErrorView>>)
    ensures
        drained(outcome) is Some <==> completed(outcome) is Some,
        match drained(outcome) {
            Some(Err(err)) => err !is UnexpectedResponse && completed(outcome) == Some(
                Err::<(), FtpErrorView>(err),
            ),
            _ => true,
        },
        outcome matches Some(Err(FtpErrorView::UnexpectedResponse(refusal))) ==> drained(outcome)
            == Some(Ok::<Option<ResponseView>, FtpErrorView>(Some(refusal))),
{
}

impl ControlChannel {
    /// What to send for the command line `command`, given what its validation said.
    ///
    /// # Errors
    ///
    /// A line that its validation refused is not sent: its error is handed on as it is.
    pub fn perform<E>(&self, command: &str, validated: Result<(), E>) -> (line: Result<Vec<u8>, E>)
        ensures
            match validated {
                Ok(_) => line matches Ok(bytes) && bytes@ == encode_utf8(command@),
                Err(err) => line == Err::<Vec<u8>, E>(err),
            },
    {
        match validated {
            Ok(_) => Ok(command.as_bytes_vec()),
            Err(err) => Err(err),
        }
    }

    /// Reads bytes from the control connection until a line feed or its end is found.
    ///
    /// `reply_len` is the number of bytes of the same reply read before this line; see
    /// [`read_bounded_line`].
    pub fn read_line(
        &self,
        event: Event<'_>,
        bytes_read: &mut usize,
        line: &mut Vec<u8>,
        reply_len: usize,
    ) -> (result: (usize, Option<FtpResult<usize>>))
        requires
            *old(bytes_read) <= old(line)@.len(),
        ensures
            ({
                let step = line_step(
                    old(line)@,
                    *old(bytes_read) as nat,
                    event@,
                    reply_len as nat,
                );
                &&& final(line)@ == step.line
                &&& *final(bytes_read) == step.bytes_read
                &&& result.0 == step.used
                &&& line_outcome(result.1) == step.outcome
            }),
            *final(bytes_read) <= final(line)@.len(),
    {
        read_bounded_line(event, bytes_read, line, reply_len)
    }

    /// Fails with [`FtpError::DataConnectionAlreadyOpen`] if a data connection is open.
    pub fn guard_multiple_data_connections(&self) -> (result: FtpResult<()>)
        ensures
            error_view(result) == (if self.data_connection_open {
                Err::<(), FtpErrorView>(FtpErrorView::DataConnectionAlreadyOpen)
            } else {
                Ok(())
            }),
    {
        if self.data_connection_open {
            Err(FtpError::DataConnectionAlreadyOpen)
        } else {
            Ok(())
        }
    }

    /// Marks the data connection as closed, before [`ControlChannel::complete_transfer`] reads the
    /// transfer completion reply.
    ///
    /// The data socket must already be closed, otherwise the server never sends the reply.
    pub fn begin_complete_transfer(&mut self)
        ensures
            !final(self).data_connection_open,
            final(self).pending_transfer_reply == old(self).pending_transfer_reply,
            final(self).reply() == old(self).reply(),
    {
        self.data_connection_open = false;
    }

    /// Reads the transfer completion reply, event by event as
    /// [`ControlChannel::read_response_in`] does. Once the read is over, whatever came of it, no
    /// transfer reply is pending.
    pub fn complete_transfer(&mut self, event: Event<'_>, line_started: &mut bool) -> (result: (
        usize,
        Option<FtpResult<()>>,
    ))
        ensures
            ({
                let step = after_event(
                    old(self).reply(),
                    *old(line_started),
                    event@,
                    TRANSFER_COMPLETE@,
                );
                &&& final(self).reply() == step.reply
                &&& *final(line_started) == step.line_started
                &&& result.0 == step.used
                &&& transfer_outcome(result.1) == completed(step.outcome)
                &&& final(self).pending_transfer_reply == (old(self).pending_transfer_reply
                    && step.outcome is None)
            }),
            !final(self).data_connection_open,
    {
        let expected: [Status; 2] = TRANSFER_COMPLETE;
        self.data_connection_open = false;
        let (used, outcome) = self.read_response_in(event, line_started, expected.as_slice());
        match outcome {
            None => (used, None),
            Some(reply) => {
                self.pending_transfer_reply = false;
                match reply {
                    Ok(_) => (used, Some(Ok(()))),
                    Err(err) => (used, Some(Err(err))),
                }
            },
        }
    }

    /// Whether the reply of a dropped transfer has to be read before the next command is sent. If
    /// so, the data connection of that transfer is marked as closed, and
    /// [`ControlChannel::drain_pending_transfer_reply`] reads the reply.
    pub fn begin_drain_pending_transfer_reply(&mut self) -> (pending: bool)
        ensures
            pending == old(self).pending_transfer_reply,
            final(self).data_connection_open == (old(self).data_connection_open && !pending),
            final(self).pending_transfer_reply == old(self).pending_transfer_reply,
            final(self).reply() == old(self).reply(),
    {
        if !self.pending_transfer_reply {
            return false;
        }
        self.begin_complete_transfer();
        true
    }

    /// Consumes the reply of a transfer that was dropped before its end, event by event as
    /// [`ControlChannel::complete_transfer`] does. Where no transfer reply is pending, there is
    /// nothing to consume: no byte is used and nothing changes.
    ///
    /// The transfer outcome was abandoned by the caller, so a failure reply counts as read; it is
    /// handed out for a log and nothing else.
    ///
    /// # Errors
    ///
    /// Returns [`FtpError::ConnectionError`] if the control connection cannot be read, and
    /// [`FtpError::BadResponse`] if what is read is no reply.
    pub fn drain_pending_transfer_reply(
        &mut self,
        event: Event<'_>,
        line_started: &mut bool,
    ) -> (result: (usize, Option<FtpResult<Option<Response>>>))
        ensures
            !old(self).pending_transfer_reply ==> {
                &&& result.0 == 0
                &&& drain_outcome(result.1) == Some(
                    Ok::<Option<ResponseView>, FtpErrorView>(None),
                )
                &&& *final(self) == *old(self)
                &&& *final(line_started) == *old(line_started)
            },
            old(self).pending_transfer_reply ==> {
                let step = after_event(
                    old(self).reply(),
                    *old(line_started),
                    event@,
                    TRANSFER_COMPLETE@,
                );
                &&& final(self).reply() == step.reply
                &&& *final(line_started) == step.line_started
                &&& result.0 == step.used
                &&& drain_outcome(result.1) == drained(step.outcome)
                &&& final(self).pending_transfer_reply == (step.outcome is None)
                &&& !final(self).data_connection_open
            },
    {
        if !self.pending_transfer_reply {
            return (0, Some(Ok(None)));
        }
        let (used, outcome) = self.complete_transfer(event, line_started);
        match outcome {
            None => (used, None),
            Some(Ok(_)) => (used, Some(Ok(None))),
            Some(Err(FtpError::UnexpectedResponse(refusal))) => (used, Some(Ok(Some(refusal)))),
            Some(Err(err)) => (used, Some(Err(err))),
        }
    }
}

/// Calls `Arc::try_unwrap`, which gives the value inside if `control` is the only reference to it,
/// and `control` back otherwise. Which of the two happens depends on the other references at the
/// time of the call, so the contract does not say.
#[verifier::external_body]
fn try_unwrap<C>(control: Arc<C>) -> (unwrapped: Result<C, Arc<C>>)
    ensures
        match unwrapped {
            Ok(inner) => inner == *control,
            Err(shared) => shared == control,
        },
{
    Arc::try_unwrap(control)
}

/// The control channel inside, given what unwrapping the shared one gave.
///
/// # Errors
///
/// Returns [`FtpError::DataConnectionAlreadyOpen`] if it is still shared.
pub fn exclusive_or_open<C>(unwrapped: Result<C, Arc<C>>) -> (result: FtpResult<C>)
    ensures
        error_view(result) == (match unwrapped {
            Ok(inner) => Ok::<C, FtpErrorView>(inner),
            Err(_) => Err(FtpErrorView::DataConnectionAlreadyOpen),
        }),
{
    match unwrapped {
        Ok(inner) => Ok(inner),
        Err(_) => Err(FtpError::DataConnectionAlreadyOpen),
    }
}

/// Unwraps a shared control channel that is no longer referenced by any transfer.
///
/// # Errors
///
/// Returns [`FtpError::DataConnectionAlreadyOpen`] if a transfer still holds a reference to the
/// control channel.
pub fn into_exclusive<C>(control: Arc<C>) -> (result: FtpResult<C>)
    ensures
        match result {
            Ok(inner) => inner == *control,
            Err(err) => err@ == FtpErrorView::DataConnectionAlreadyOpen,
        },
{
    exclusive_or_open(try_unwrap(control))
}

/// Three digits are a code.
proof fn terminal_line_has_code(line: Seq<u8>)
    requires
        line.len() > CODE_LEN,
        all_digits(line.take(CODE_LEN as int)),
    ensures
        code_in(line, CODE_LEN as int) is Some,
{
    let digits = line.take(CODE_LEN as int);
    assert(is_digit(digits[0]) && is_digit(digits[1]) && is_digit(digits[2]));
    reveal_with_fuel(crate::number::digits_value, 4);
}

} // verus!
