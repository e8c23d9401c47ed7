//! The reply grammar of the control connection.
//!
//! A reply is a line that opens with a three-digit code, or several lines of which the last one
//! opens with a code and a space. The connection delivers it in pieces of any size, so reading
//! works piece by piece: each [`Event`] of the connection moves a [`PartialReply`] one
//! [`Step`] on, until the step has an outcome.

use vstd::prelude::*;
use vstd::slice::slice_subrange;

use crate::number::{all_digits, parse_u32, parsed_u32};
use crate::status::{status_of, Status};
use crate::types::{
    error_view, reply_too_large, ConnectionError, ConnectionErrorView, ErrorDetailView, ErrorKind,
    FtpError, FtpErrorView, FtpResult, ReplyTooLarge, Response, ResponseView, MAX_REPLY_SIZE,
};

verus! {

/// The byte that ends a line.
pub const LINE_FEED: u8 = 0x0a;

/// The byte behind the code of a line that ends a reply.
pub const SPACE: u8 = 0x20;

/// The byte behind the code of a line that more lines follow.
pub const HYPHEN: u8 = 0x2d;

/// How many bytes the code of a reply takes.
pub const CODE_LEN: usize = 3;

/// How many bytes a reply has at least: a code, the byte behind it and a line end.
pub const MIN_REPLY_SIZE: usize = 5;

/// What the control connection gave when it was asked for bytes.
pub enum Event<'a> {
    /// Bytes arrived.
    Received(&'a [u8]),
    /// The server closed the connection.
    Closed,
    /// Reading failed.
    Failed(ConnectionError),
}

/// The mathematical value of an [`Event`].
pub enum EventView {
    Received(Seq<u8>),
    Closed,
    Failed(ConnectionErrorView),
}

impl<'a> View for Event<'a> {
    type V = EventView;

    open spec fn view(&self) -> EventView {
        match self {
            Event::Received(bytes) => EventView::Received(bytes@),
            Event::Closed => EventView::Closed,
            Event::Failed(err) => EventView::Failed(err@),
        }
    }
}

// ----- codes -----

/// The code that the leading `len` bytes of `buf` write, if they write one.
pub open spec fn code_in(buf: Seq<u8>, len: int) -> Option<u32> {
    if buf.len() < len {
        None
    } else {
        parsed_u32(buf.take(len))
    }
}

/// Parses the leading `len` bytes of `buf` as a numeric reply code.
///
/// # Errors
///
/// Returns [`FtpError::BadResponse`] if `buf` is shorter than `len`, or if those bytes are not a
/// decimal number that fits.
pub fn code_from_buffer(buf: &[u8], len: usize) -> (code: FtpResult<u32>)
    ensures
        error_view(code) == (match code_in(buf@, len as int) {
            Some(value) => Ok::<u32, FtpErrorView>(value),
            None => Err(FtpErrorView::BadResponse),
        }),
{
    if buf.len() < len {
        return Err(FtpError::BadResponse);
    }
    match parse_u32(slice_subrange(buf, 0, len)) {
        Some(value) => Ok(value),
        None => Err(FtpError::BadResponse),
    }
}

// ----- lines -----

/// How many bytes of a line are read at most before the size of the reply is looked at, when
/// `held` bytes of the reply are there already: one past the limit tells a reply that exceeds it
/// from one that just fits.
pub open spec fn line_room(held: nat) -> nat {
    if held <= MAX_REPLY_SIZE {
        (MAX_REPLY_SIZE - held + 1) as nat
    } else {
        1
    }
}

/// How many bytes of `input` belong to the line: through the first line feed, `room` at most.
pub open spec fn line_prefix(input: Seq<u8>, room: nat) -> nat
    decreases input.len(),
{
    if input.len() == 0 || room == 0 {
        0
    } else if input[0] == LINE_FEED {
        1
    } else {
        1 + line_prefix(input.drop_first(), (room - 1) as nat)
    }
}

/// Whether the first `used` bytes of `input` end the read of a line: the room is used up, or the
/// last of them is a line feed.
pub open spec fn ends_line(input: Seq<u8>, used: nat, room: nat) -> bool {
    used == room || (used > 0 && input[used - 1] == LINE_FEED)
}

/// What a line of `line_len` bytes, behind `reply_len` bytes of the same reply, is worth: the
/// count `bytes_read`, or the error of a reply that is too large.
pub open spec fn bounded(line_len: nat, reply_len: nat, bytes_read: nat) -> Result<
    nat,
    FtpErrorView,
> {
    if reply_len + line_len > MAX_REPLY_SIZE {
        Err(reply_too_large())
    } else {
        Ok(bytes_read)
    }
}

/// Where the read of a line stands.
#[verifier::ext_equal]
pub struct LineStep {
    /// The bytes of the line so far.
    pub line: Seq<u8>,
    /// How many of them this read added.
    pub bytes_read: nat,
    /// How many bytes of the event were used.
    pub used: nat,
    /// How the read ended; `None` while it needs another event.
    pub outcome: Option<Result<nat, FtpErrorView>>,
}

/// How `event` moves the read of a line on.
pub open spec fn line_step(
    line: Seq<u8>,
    bytes_read: nat,
    event: EventView,
    reply_len: nat,
) -> LineStep {
    match event {
        EventView::Received(input) => {
            let room = line_room(reply_len + line.len());
            let used = line_prefix(input, room);
            let longer = line + input.take(used as int);
            LineStep {
                line: longer,
                bytes_read: bytes_read + used,
                used,
                outcome: if ends_line(input, used, room) {
                    Some(bounded(longer.len(), reply_len, bytes_read + used))
                } else {
                    None
                },
            }
        },
        EventView::Closed => LineStep {
            line,
            bytes_read,
            used: 0,
            outcome: Some(bounded(line.len(), reply_len, bytes_read)),
        },
        EventView::Failed(err) => LineStep {
            line,
            bytes_read,
            used: 0,
            outcome: if err.kind == ErrorKind::Interrupted {
                None
            } else {
                Some(Err(FtpErrorView::ConnectionError(err)))
            },
        },
    }
}

/// The mathematical value of how the read of a line ended.
pub open spec fn line_outcome(outcome: Option<FtpResult<usize>>) -> Option<
    Result<nat, FtpErrorView>,
> {
    match outcome {
        None => None,
        Some(Ok(count)) => Some(Ok(count as nat)),
        Some(Err(err)) => Some(Err(err@)),
    }
}

/// What a line prefix is: no longer than the input and the room, no line feed before its end, and
/// ended by nothing but a line feed, the room or the end of the input.
pub(crate) proof fn line_prefix_meaning(input: Seq<u8>, room: nat)
    ensures
        line_prefix(input, room) <= input.len(),
        line_prefix(input, room) <= room,
        input.len() > 0 && room > 0 ==> line_prefix(input, room) > 0,
        forall|i: int| 0 <= i < line_prefix(input, room) - 1 ==> input[i] != LINE_FEED,
        !ends_line(input, line_prefix(input, room), room) ==> line_prefix(input, room)
            == input.len(),
    decreases input.len(),
{
    if input.len() > 0 && room > 0 && input[0] != LINE_FEED {
        let rest = input.drop_first();
        line_prefix_meaning(rest, (room - 1) as nat);
        let used = line_prefix(rest, (room - 1) as nat);
        if used > 0 {
            assert(rest[used - 1] == input[used as int]);
        }
        assert forall|i: int| 0 <= i < used implies input[i] != LINE_FEED by {
            if i > 0 {
                assert(input[i] == rest[i - 1]);
            }
        }
    }
}

/// Leading bytes without a line feed, as far as the room goes, all belong to the line.
pub(crate) proof fn line_prefix_past(input: Seq<u8>, room: nat, len: nat)
    requires
        len <= input.len(),
        len <= room,
        forall|i: int| 0 <= i < len ==> input[i] != LINE_FEED,
    ensures
        line_prefix(input, room) == len + line_prefix(input.skip(len as int), (room - len) as nat),
    decreases len,
{
    if len == 0 {
        assert(input.skip(0) =~= input);
    } else {
        let rest = input.drop_first();
        line_prefix_past(rest, (room - 1) as nat, (len - 1) as nat);
        assert(rest.skip(len - 1) =~= input.skip(len as int));
    }
}

/// Appends what `event` delivered to `line`, until a line feed or the end of the connection is
/// found, and adds the number of bytes to `bytes_read`.
///
/// `reply_len` is the number of bytes of the same reply read before `line`; together they may
/// not exceed [`MAX_REPLY_SIZE`]. Bytes already in `line` count too, so a read resumed after
/// cancellation keeps the same bound.
///
/// Returns how many bytes of the event were used, and, once the line is read, how many bytes this
/// read took. While the second part is `None`, the read needs another event.
///
/// # Errors
///
/// Returns [`ReplyTooLarge`] as a [`FtpError::ConnectionError`] once the reply exceeds
/// [`MAX_REPLY_SIZE`], without reading further, and a failure of the connection as a
/// [`FtpError::ConnectionError`]; an interrupted read is tried again.
pub fn read_bounded_line(
    event: Event<'_>,
    bytes_read: &mut usize,
    line: &mut Vec<u8>,
    reply_len: usize,
) -> (result: (usize, Option<FtpResult<usize>>))
    requires
        *old(bytes_read) <= old(line)@.len(),
    ensures
        ({
            let step = line_step(
                old(line)@,
                *old(bytes_read) as nat,
                event@,
                reply_len as nat,
            );
            &&& final(line)@ == step.line
            &&& *final(bytes_read) == step.bytes_read
            &&& result.0 == step.used
            &&& line_outcome(result.1) == step.outcome
        }),
        *final(bytes_read) <= final(line)@.len(),
{
    match event {
        Event::Received(input) => {
            let held: usize = reply_len.saturating_add(line.len());
            let room: usize = MAX_REPLY_SIZE.saturating_sub(held) + 1;
            assert(room == line_room((reply_len + line@.len()) as nat));
            let ghost before = line@;
            let ghost count = *bytes_read as nat;
            let mut used: usize = 0;
            let mut ended: bool = false;
            while !ended && used < input.len()
                invariant
                    used <= input@.len(),
                    0 < room,
                    used <= room,
                    line@ == before + input@.take(used as int),
                    ended == (used > 0 && ends_line(input@, used as nat, room as nat)),
                    !ended ==> forall|i: int| 0 <= i < used ==> input@[i] != LINE_FEED,
                    !ended ==> used < room,
                    ended ==> used == line_prefix(input@, room as nat),
                decreases input@.len() - used,
            {
                let byte: u8 = input[used];
                line.push(byte);
                proof {
                    line_prefix_past(input@, room as nat, used as nat);
                    let rest = input@.skip(used as int);
                    assert(rest[0] == byte);
                    assert(line@ =~= before + input@.take(used + 1));
                    if room == used + 1 && byte != LINE_FEED {
                        assert(line_prefix(rest.drop_first(), 0) == 0);
                    }
                }
                used = used + 1;
                ended = byte == LINE_FEED || used == room;
            }
            proof {
                if !ended {
                    line_prefix_past(input@, room as nat, used as nat);
                    assert(input@.skip(used as int).len() == 0);
                }
            }
            assert(used == line_prefix(input@, room as nat));
            let line_len: usize = line.len();
            assert(line_len == before.len() + used);
            *bytes_read = *bytes_read + used;
            if !ended {
                return (used, None);
            }
            (used, Some(check_reply_size(line_len, reply_len, *bytes_read)))
        },
        Event::Closed => (0, Some(check_reply_size(line.len(), reply_len, *bytes_read))),
        Event::Failed(err) => {
            if err.kind == ErrorKind::Interrupted {
                (0, None)
            } else {
                (0, Some(Err(FtpError::ConnectionError(err))))
            }
        },
    }
}

/// Passes `bytes_read` on, unless a line of `line_len` bytes makes the reply too large.
fn check_reply_size(line_len: usize, reply_len: usize, bytes_read: usize) -> (result: FtpResult<
    usize,
>)
    ensures
        line_outcome(Some(result)) == Some(
            bounded(line_len as nat, reply_len as nat, bytes_read as nat),
        ),
{
    if reply_len.saturating_add(line_len) > MAX_REPLY_SIZE {
        Err(FtpError::from(ReplyTooLarge))
    } else {
        Ok(bytes_read)
    }
}

// ----- replies -----

/// The bytes of a reply that is not read to its end.
#[verifier::ext_equal]
pub struct PartialReply {
    /// The line that is being read.
    pub line: Seq<u8>,
    /// The lines before it.
    pub body: Seq<u8>,
}

impl PartialReply {
    /// No byte of a reply.
    pub open spec fn empty() -> Self {
        PartialReply { line: Seq::empty(), body: Seq::empty() }
    }

    /// All bytes, in the order in which they came.
    pub open spec fn bytes(self) -> Seq<u8> {
        self.body + self.line
    }

    /// How many bytes there are.
    pub open spec fn held(self) -> nat {
        self.body.len() + self.line.len()
    }
}

/// Where the read of a reply stands.
#[verifier::ext_equal]
pub struct Step {
    /// What is kept of the reply.
    pub reply: PartialReply,
    /// Whether this read took a byte of the line that is being read.
    pub line_started: bool,
    /// How many bytes of the event were used.
    pub used: nat,
    /// How the read ended; `None` while it needs another event.
    pub outcome: Option<Result<ResponseView, FtpErrorView>>,
}

/// The error of a connection that is closed between the lines of a reply.
pub open spec fn closed_during_reply() -> FtpErrorView {
    FtpErrorView::ConnectionError(
        ConnectionErrorView {
            kind: ErrorKind::UnexpectedEof,
            detail: ErrorDetailView::Message("connection closed during multiline response"@),
        },
    )
}

/// Whether `line` ends the reply that opens with `opening`: it has a code and a space behind it.
///
/// The code may differ from that of the opening line, for servers such as glFTPd. Where a system
/// status is expected, a line with the code of the opening line and a hyphen ends the reply too:
/// `FEAT` leaves its continuation lines to be read line by line.
pub open spec fn is_terminal(line: Seq<u8>, opening: Seq<u8>, expected: Seq<Status>) -> bool {
    &&& line.len() > CODE_LEN
    &&& all_digits(line.take(CODE_LEN as int))
    &&& line[CODE_LEN as int] == SPACE || (line[CODE_LEN as int] == HYPHEN && expected.contains(
        Status::System,
    ) && line.take(CODE_LEN as int) == opening.take(CODE_LEN as int))
}

/// What the caller gets of a reply with the code `code` and the bytes `body`.
pub open spec fn judged(code: u32, body: Seq<u8>, expected: Seq<Status>) -> Result<
    ResponseView,
    FtpErrorView,
> {
    let response = ResponseView { status: status_of(code), body };
    if expected.contains(response.status) {
        Ok(response)
    } else {
        Err(FtpErrorView::UnexpectedResponse(response))
    }
}

/// How the end of the line in `reply` moves the read on. A line feed ends a line, and so does the
/// end of the connection, which may come before this read took a byte of the line.
pub open spec fn after_line(
    reply: PartialReply,
    line_started: bool,
    expected: Seq<Status>,
) -> Step {
    let body = reply.bytes();
    if !line_started && reply.body.len() > 0 {
        // The connection was closed where a line should follow.
        Step { reply, line_started: false, used: 0, outcome: Some(Err(closed_during_reply())) }
    } else if body.len() < MIN_REPLY_SIZE || code_in(body, CODE_LEN as int) is None {
        Step {
            reply: PartialReply::empty(),
            line_started: false,
            used: 0,
            outcome: Some(Err(FtpErrorView::BadResponse)),
        }
    } else if is_terminal(reply.line, body, expected) {
        Step {
            reply: PartialReply::empty(),
            line_started: false,
            used: 0,
            outcome: Some(judged(code_in(reply.line, CODE_LEN as int)->0, body, expected)),
        }
    } else {
        Step {
            reply: PartialReply { line: Seq::empty(), body },
            line_started: false,
            used: 0,
            outcome: None,
        }
    }
}

/// How one byte moves the read of `reply` on.
pub open spec fn after_byte(reply: PartialReply, byte: u8, expected: Seq<Status>) -> Step {
    let longer = PartialReply { line: reply.line.push(byte), body: reply.body };
    if longer.held() > MAX_REPLY_SIZE {
        Step {
            reply: longer,
            line_started: false,
            used: 1,
            outcome: Some(Err(reply_too_large())),
        }
    } else if byte == LINE_FEED {
        Step { used: 1, ..after_line(longer, true, expected) }
    } else {
        Step { reply: longer, line_started: true, used: 1, outcome: None }
    }
}

/// How the bytes `input` move the read of `reply` on: one after the other, until one of them ends
/// it.
pub open spec fn after_bytes(
    reply: PartialReply,
    line_started: bool,
    input: Seq<u8>,
    expected: Seq<Status>,
) -> Step
    decreases input.len(),
{
    if input.len() == 0 {
        Step { reply, line_started, used: 0, outcome: None }
    } else {
        let first = after_byte(reply, input[0], expected);
        if first.outcome is Some {
            first
        } else {
            let rest = after_bytes(first.reply, first.line_started, input.drop_first(), expected);
            Step { used: rest.used + 1, ..rest }
        }
    }
}

/// How `event` moves the read of `reply` on, where the statuses `expected` are expected.
pub open spec fn after_event(
    reply: PartialReply,
    line_started: bool,
    event: EventView,
    expected: Seq<Status>,
) -> Step {
    match event {
        EventView::Received(input) => after_bytes(reply, line_started, input, expected),
        EventView::Closed => if reply.held() > MAX_REPLY_SIZE {
            Step {
                reply,
                line_started: false,
                used: 0,
                outcome: Some(Err(reply_too_large())),
            }
        } else {
            after_line(reply, line_started, expected)
        },
        EventView::Failed(err) => if err.kind == ErrorKind::Interrupted {
            Step { reply, line_started, used: 0, outcome: None }
        } else {
            Step {
                reply,
                line_started: false,
                used: 0,
                outcome: Some(Err(FtpErrorView::ConnectionError(err))),
            }
        },
    }
}

/// The mathematical value of how the read of a reply ended.
pub open spec fn reply_outcome(outcome: Option<FtpResult<Response>>) -> Option<
    Result<ResponseView, FtpErrorView>,
> {
    match outcome {
        None => None,
        Some(Ok(response)) => Some(Ok(response@)),
        Some(Err(err)) => Some(Err(err@)),
    }
}

/// Reading bytes one after the other is reading them line by line.
pub(crate) proof fn after_bytes_by_line(
    reply: PartialReply,
    line_started: bool,
    input: Seq<u8>,
    expected: Seq<Status>,
)
    requires
        input.len() > 0,
    ensures
        ({
            let line = line_step(
                reply.line,
                0,
                EventView::Received(input),
                reply.body.len(),
            );
            let longer = PartialReply { line: line.line, body: reply.body };
            let step = after_bytes(reply, line_started, input, expected);
            &&& 0 < line.used <= input.len()
            &&& match line.outcome {
                None => step == (Step {
                    reply: longer,
                    line_started: true,
                    used: line.used,
                    outcome: None,
                }),
                Some(Err(err)) => step == (Step {
                    reply: longer,
                    line_started: false,
                    used: line.used,
                    outcome: Some(Err(err)),
                }),
                Some(Ok(_)) => {
                    let ended = after_line(longer, true, expected);
                    let rest = after_bytes(
                        ended.reply,
                        ended.line_started,
                        input.skip(line.used as int),
                        expected,
                    );
                    if ended.outcome is Some {
                        step == (Step { used: line.used, ..ended })
                    } else {
                        step == (Step { used: line.used + rest.used, ..rest })
                    }
                },
            }
        }),
    decreases input.len(),
{
    let room = line_room(reply.held());
    let used = line_prefix(input, room);
    line_prefix_meaning(input, room);
    let tail = input.drop_first();
    let first = after_byte(reply, input[0], expected);
    let pushed = PartialReply { line: reply.line.push(input[0]), body: reply.body };
    if pushed.held() > MAX_REPLY_SIZE || input[0] == LINE_FEED {
        assert(room == 1 ==> line_prefix(tail, 0) == 0);
        assert(used == 1);
        assert(reply.line + input.take(1) =~= pushed.line);
        assert(input.skip(1) =~= tail);
        assert(ends_line(input, 1, room));
    } else if tail.len() == 0 {
        assert(used == 1);
        assert(reply.line + input.take(1) =~= pushed.line);
        assert(after_bytes(pushed, true, tail, expected) == (Step {
            reply: pushed,
            line_started: true,
            used: 0,
            outcome: None,
        }));
    } else {
        after_bytes_by_line(pushed, true, tail, expected);
        let tail_used = line_prefix(tail, (room - 1) as nat);
        line_prefix_meaning(tail, (room - 1) as nat);
        assert(line_room(pushed.held()) == room - 1);
        assert(pushed.line + tail.take(tail_used as int) =~= reply.line + input.take(used as int));
        assert(tail.skip(tail_used as int) =~= input.skip(used as int));
        assert(tail[tail_used - 1] == input[used - 1]);
    }
}

} // verus!
