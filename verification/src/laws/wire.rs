//! What replies are on the wire, byte for byte, and what comes of them.
//!
//! The laws here speak of digits, spaces, hyphens and line feeds, so that each of them can be held
//! against the protocol as it stands.

use vstd::prelude::*;
use vstd::std_specs::convert::FromSpec;

use crate::control::{
    completed, drain_outcome, drained, transfer_outcome, ControlChannel, TRANSFER_COMPLETE,
};
use crate::laws::{joined, line_grows, pieces_do_not_matter};
use crate::number::{all_digits, digits_value, is_digit, parsed_u32};
use crate::reply::{
    after_byte, after_bytes, after_event, after_line, code_in, is_terminal, line_outcome,
    line_prefix, line_prefix_past, line_room, line_step, reply_outcome, Event, EventView, LineStep,
    PartialReply, Step,
};
use crate::status::{status_of, Status};
use crate::types::{
    error_view, reply_too_large, ConnectionError, ConnectionErrorView, ErrorDetail,
    ErrorDetailView, ErrorKind, FtpError, FtpErrorView, ReplyTooLarge, Response, ResponseView,
};

verus! {

/// Most bytes of a reply, 256 KiB.
pub open spec fn limit() -> nat {
    262144
}

/// Whether `byte` is one of the ten digits.
pub open spec fn digit(byte: u8) -> bool {
    0x30 <= byte <= 0x39
}

/// Whether `line` opens with three digits and then `mark`.
pub open spec fn marked(line: Seq<u8>, mark: u8) -> bool {
    &&& line.len() >= 4
    &&& digit(line[0]) && digit(line[1]) && digit(line[2])
    &&& line[3] == mark
}

/// The number that the first three bytes of `line` write, where they are digits.
pub open spec fn number(line: Seq<u8>) -> u32 {
    ((line[0] - 0x30) * 100 + (line[1] - 0x30) * 10 + (line[2] - 0x30)) as u32
}

/// Whether `bytes` may open a reply: at least five bytes, of which the first three are digits; a
/// plus sign passes for the first.
pub open spec fn opens(bytes: Seq<u8>) -> bool {
    &&& bytes.len() >= 5
    &&& digit(bytes[0]) || bytes[0] == 0x2b
    &&& digit(bytes[1]) && digit(bytes[2])
}

/// Whether `line` is the last one of a reply that opens with the bytes `opening`: three digits and
/// a space, or, for a caller that expects a system status, the first three digits of the reply
/// again and a hyphen.
pub open spec fn is_last(line: Seq<u8>, opening: Seq<u8>, expected: Seq<Status>) -> bool {
    ||| marked(line, 0x20)
    ||| {
        &&& expected.contains(Status::System)
        &&& marked(line, 0x2d)
        &&& line[0] == opening[0] && line[1] == opening[1] && line[2] == opening[2]
    }
}

/// Whether `line` is ended by a line feed and holds no other one.
pub open spec fn whole_line(line: Seq<u8>) -> bool {
    &&& line.len() > 0
    &&& line[line.len() - 1] == 0x0a
    &&& forall|i: int| 0 <= i < line.len() - 1 ==> line[i] != 0x0a
}

/// The reply `body`, whose last line is `line`, as its caller gets it: as it is where its status is
/// expected, inside an error where it is not.
pub open spec fn answered(line: Seq<u8>, body: Seq<u8>, expected: Seq<Status>) -> Result<
    ResponseView,
    FtpErrorView,
> {
    let response = ResponseView { status: status_of(number(line)), body };
    if expected.contains(response.status) {
        Ok(response)
    } else {
        Err(FtpErrorView::UnexpectedResponse(response))
    }
}

/// The code that three bytes write.
proof fn three_bytes_as_code(bytes: Seq<u8>)
    requires
        bytes.len() >= 3,
    ensures
        digit(bytes[0]) && digit(bytes[1]) && digit(bytes[2]) ==> code_in(bytes, 3) == Some(
            number(bytes),
        ),
        code_in(bytes, 3) is Some <==> (digit(bytes[0]) || bytes[0] == 0x2b) && digit(bytes[1])
            && digit(bytes[2]),
{
    let code = bytes.take(3);
    reveal_with_fuel(digits_value, 4);
    assert(code[0] == bytes[0] && code[1] == bytes[1] && code[2] == bytes[2]);
    if bytes[0] == 0x2b {
        let rest = code.skip(1);
        assert(rest[0] == bytes[1] && rest[1] == bytes[2] && rest.len() == 2);
        if all_digits(rest) {
            assert(is_digit(rest[0]) && is_digit(rest[1]));
        }
        if digit(bytes[1]) && digit(bytes[2]) {
            assert(all_digits(rest));
            assert(digits_value(rest) <= 99);
        }
    } else {
        if all_digits(code) {
            assert(is_digit(code[0]) && is_digit(code[1]) && is_digit(code[2]));
        }
        if digit(bytes[0]) && digit(bytes[1]) && digit(bytes[2]) {
            assert(all_digits(code));
            assert(code.drop_last().last() == bytes[1]);
            assert(code.drop_last().drop_last().last() == bytes[0]);
            assert(digits_value(code) == number(bytes));
        }
    }
}

/// Which line is the last one.
proof fn last_line_by_bytes(line: Seq<u8>, opening: Seq<u8>, expected: Seq<Status>)
    requires
        opening.len() >= 3,
    ensures
        is_terminal(line, opening, expected) <==> is_last(line, opening, expected),
{
    if line.len() >= 4 {
        let code = line.take(3);
        let first = opening.take(3);
        assert(code[0] == line[0] && code[1] == line[1] && code[2] == line[2]);
        assert(first[0] == opening[0] && first[1] == opening[1] && first[2] == opening[2]);
        if all_digits(code) {
            assert(is_digit(code[0]) && is_digit(code[1]) && is_digit(code[2]));
        }
        if line[0] == opening[0] && line[1] == opening[1] && line[2] == opening[2] {
            assert(code =~= first);
        }
    }
}

/// How the end of a line moves the read of a reply on.
proof fn ended_line_by_bytes(body: Seq<u8>, line: Seq<u8>, expected: Seq<Status>)
    ensures
        ({
            let all = body + line;
            let step = after_line(PartialReply { line, body }, true, expected);
            step == (if !opens(all) {
                Step {
                    reply: PartialReply { line: Seq::empty(), body: Seq::empty() },
                    line_started: false,
                    used: 0,
                    outcome: Some(Err(FtpErrorView::BadResponse)),
                }
            } else if is_last(line, all, expected) {
                Step {
                    reply: PartialReply { line: Seq::empty(), body: Seq::empty() },
                    line_started: false,
                    used: 0,
                    outcome: Some(answered(line, all, expected)),
                }
            } else {
                Step {
                    reply: PartialReply { line: Seq::empty(), body: all },
                    line_started: false,
                    used: 0,
                    outcome: None,
                }
            })
        }),
{
    let all = body + line;
    if all.len() >= 3 {
        three_bytes_as_code(all);
        last_line_by_bytes(line, all, expected);
        if is_last(line, all, expected) {
            three_bytes_as_code(line);
        }
    }
}

/// What comes of the bytes `text` that end the line which `begun` begins, behind the lines `body`
/// of the same reply, where it is not too large: the reply is malformed if what came of it so far
/// cannot open one, it is answered if the line is the last one, and otherwise the line is kept and
/// more are awaited. All bytes are used.
pub proof fn line_is_taken(
    body: Seq<u8>,
    begun: Seq<u8>,
    line_started: bool,
    text: Seq<u8>,
    expected: Seq<Status>,
)
    requires
        whole_line(text),
        body.len() + begun.len() + text.len() <= limit(),
    ensures
        ({
            let line = begun + text;
            let all = body + line;
            let step = after_bytes(
                PartialReply { line: begun, body },
                line_started,
                text,
                expected,
            );
            &&& step.used == text.len()
            &&& !step.line_started
            &&& step.reply.line.len() == 0
            &&& if !opens(all) {
                step.reply.body.len() == 0 && step.outcome == Some(
                    Err::<ResponseView, FtpErrorView>(FtpErrorView::BadResponse),
                )
            } else if is_last(line, all, expected) {
                step.reply.body.len() == 0 && step.outcome == Some(answered(line, all, expected))
            } else {
                step.reply.body == all && step.outcome is None
            }
        }),
{
    let reply = PartialReply { line: begun, body };
    let before = text.drop_last();
    let end = seq![0x0au8];
    assert(before + end =~= text);
    pieces_do_not_matter(reply, line_started, before, end, expected);
    let kept = PartialReply { line: begun + before, body };
    if before.len() > 0 {
        line_grows(reply, line_started, before, expected);
    } else {
        assert(before =~= Seq::<u8>::empty());
        assert(begun + before =~= begun);
    }
    assert(after_bytes(reply, line_started, before, expected).reply == kept);
    assert(kept.line.push(0x0a) =~= begun + text);
    let last = after_byte(kept, 0x0a, expected);
    assert(end.drop_first() =~= Seq::<u8>::empty());
    let nothing = after_bytes(last.reply, last.line_started, end.drop_first(), expected);
    assert(nothing.reply == last.reply && nothing.used == 0 && nothing.outcome is None);
    ended_line_by_bytes(body, begun + text, expected);
}

/// What comes of bytes that do not end a line, where the reply is not too large: they are kept.
pub proof fn begun_line_is_kept(
    body: Seq<u8>,
    line: Seq<u8>,
    line_started: bool,
    input: Seq<u8>,
    expected: Seq<Status>,
)
    requires
        input.len() > 0,
        forall|i: int| 0 <= i < input.len() ==> input[i] != 0x0a,
        body.len() + line.len() + input.len() <= limit(),
    ensures
        ({
            let step = after_bytes(PartialReply { line, body }, line_started, input, expected);
            &&& step.used == input.len()
            &&& step.line_started
            &&& step.reply.line == line + input
            &&& step.reply.body == body
            &&& step.outcome is None
        }),
{
    line_grows(PartialReply { line, body }, line_started, input, expected);
}

/// The beginning of a line that is kept counts as if it arrived with what follows it.
pub proof fn kept_line_counts_as_arrived(
    body: Seq<u8>,
    line: Seq<u8>,
    line_started: bool,
    input: Seq<u8>,
    expected: Seq<Status>,
)
    requires
        input.len() > 0,
        forall|i: int| 0 <= i < line.len() ==> line[i] != 0x0a,
        body.len() + line.len() <= limit(),
    ensures
        ({
            let kept = after_bytes(PartialReply { line, body }, line_started, input, expected);
            let arrived = after_bytes(
                PartialReply { line: Seq::empty(), body },
                line_started,
                line + input,
                expected,
            );
            &&& arrived.used == line.len() + kept.used
            &&& arrived.reply == kept.reply
            &&& arrived.line_started == kept.line_started
            &&& arrived.outcome == kept.outcome
        }),
{
    let reply = PartialReply { line: Seq::empty(), body };
    pieces_do_not_matter(reply, line_started, line, input, expected);
    if line.len() > 0 {
        line_grows(reply, line_started, line, expected);
        assert(Seq::<u8>::empty() + line =~= line);
    } else {
        assert(line =~= Seq::<u8>::empty());
    }
}

/// A byte past the limit ends the read, whatever the byte is, and all bytes are kept; so does the
/// end of the connection where the limit is passed already.
pub proof fn byte_past_the_limit_ends_the_read(
    body: Seq<u8>,
    line: Seq<u8>,
    line_started: bool,
    input: Seq<u8>,
    expected: Seq<Status>,
)
    requires
        input.len() > 0,
        body.len() + line.len() >= limit(),
    ensures
        ({
            let step = after_bytes(PartialReply { line, body }, line_started, input, expected);
            &&& step.used == 1
            &&& !step.line_started
            &&& step.reply.line == line.push(input[0])
            &&& step.reply.body == body
            &&& step.outcome == Some(Err::<ResponseView, FtpErrorView>(too_large()))
        }),
        body.len() + line.len() > limit() ==> {
            let reply = PartialReply { line, body };
            let step = after_event(reply, line_started, EventView::Closed, expected);
            &&& step.used == 0
            &&& !step.line_started
            &&& step.reply == reply
            &&& step.outcome == Some(Err::<ResponseView, FtpErrorView>(too_large()))
        },
{
}

/// The error of a reply that is too large: a failure of the connection, because of invalid data.
pub open spec fn too_large() -> FtpErrorView {
    FtpErrorView::ConnectionError(
        ConnectionErrorView {
            kind: ErrorKind::InvalidData,
            detail: ErrorDetailView::ReplyTooLarge(ReplyTooLarge),
        },
    )
}

/// What comes of the end of the connection. Where a line should follow and this read has nothing
/// of it, the connection was closed too early and everything is kept. Otherwise it ends the line
/// as a line feed would.
pub proof fn closed_connection_ends_the_line(
    body: Seq<u8>,
    line: Seq<u8>,
    line_started: bool,
    expected: Seq<Status>,
)
    requires
        body.len() + line.len() <= limit(),
    ensures
        ({
            let all = body + line;
            let reply = PartialReply { line, body };
            let step = after_event(reply, line_started, EventView::Closed, expected);
            &&& step.used == 0
            &&& !step.line_started
            &&& if !line_started && body.len() > 0 {
                &&& step.reply == reply
                &&& step.outcome == Some(
                    Err::<ResponseView, FtpErrorView>(
                        FtpErrorView::ConnectionError(
                            ConnectionErrorView {
                                kind: ErrorKind::UnexpectedEof,
                                detail: ErrorDetailView::Message(
                                    "connection closed during multiline response"@,
                                ),
                            },
                        ),
                    ),
                )
            } else {
                &&& step.reply.line.len() == 0
                &&& if !opens(all) {
                    step.reply.body.len() == 0 && step.outcome == Some(
                        Err::<ResponseView, FtpErrorView>(FtpErrorView::BadResponse),
                    )
                } else if is_last(line, all, expected) {
                    step.reply.body.len() == 0 && step.outcome == Some(
                        answered(line, all, expected),
                    )
                } else {
                    step.reply.body == all && step.outcome is None
                }
            }
        }),
{
    ended_line_by_bytes(body, line, expected);
}

/// A failure of the connection ends the read with that failure; an interruption does not end it.
/// Either way every byte is kept.
pub proof fn failure_keeps_every_byte(
    reply: PartialReply,
    line_started: bool,
    err: ConnectionErrorView,
    expected: Seq<Status>,
)
    ensures
        ({
            let step = after_event(reply, line_started, EventView::Failed(err), expected);
            &&& step.used == 0
            &&& step.reply == reply
            &&& err.kind == ErrorKind::Interrupted ==> step.outcome is None && step.line_started
                == line_started
            &&& err.kind != ErrorKind::Interrupted ==> !step.line_started && step.outcome == Some(
                Err::<ResponseView, FtpErrorView>(FtpErrorView::ConnectionError(err)),
            )
        }),
{
}

/// An event without bytes changes nothing, and received bytes count for what they are.
pub proof fn no_bytes_change_nothing(
    reply: PartialReply,
    line_started: bool,
    input: Seq<u8>,
    expected: Seq<Status>,
)
    ensures
        ({
            let step = after_event(
                reply,
                line_started,
                EventView::Received(Seq::empty()),
                expected,
            );
            &&& step.used == 0
            &&& step.reply == reply
            &&& step.line_started == line_started
            &&& step.outcome is None
        }),
        after_event(reply, line_started, EventView::Received(input), expected) == after_bytes(
            reply,
            line_started,
            input,
            expected,
        ),
{
}

/// While a read goes on, it has begun a line exactly if the last byte was no line feed.
pub proof fn line_is_begun_by_its_first_byte(
    reply: PartialReply,
    line_started: bool,
    input: Seq<u8>,
    expected: Seq<Status>,
)
    requires
        input.len() > 0,
        after_bytes(reply, line_started, input, expected).outcome is None,
    ensures
        after_bytes(reply, line_started, input, expected).line_started <==> input[input.len() - 1]
            != 0x0a,
    decreases input.len(),
{
    let first = after_byte(reply, input[0], expected);
    let tail = input.drop_first();
    if tail.len() > 0 {
        line_is_begun_by_its_first_byte(first.reply, first.line_started, tail, expected);
        assert(tail[tail.len() - 1] == input[input.len() - 1]);
    } else {
        assert(after_bytes(first.reply, first.line_started, tail, expected).line_started
            == first.line_started);
    }
}

/// Whether `lines`, behind the lines `body` of the same reply, make up the rest of it: no line but
/// the last one ends it, and it is not too large.
pub open spec fn completes(
    body: Seq<u8>,
    lines: Seq<Seq<u8>>,
    expected: Seq<Status>,
) -> bool {
    &&& lines.len() > 0
    &&& forall|i: int| 0 <= i < lines.len() ==> whole_line(#[trigger] lines[i])
    &&& opens(body + lines[0])
    &&& forall|i: int|
        0 <= i < lines.len() - 1 ==> !is_last(#[trigger] lines[i], body + lines[0], expected)
    &&& is_last(lines[lines.len() - 1], body + lines[0], expected)
    &&& body.len() + joined(lines).len() <= limit()
}

/// A reply is read to its last line and no further, whatever follows. The caller gets all of its
/// lines with the status of the last one, even where the first line has another code.
pub proof fn reply_is_answered(
    body: Seq<u8>,
    line_started: bool,
    lines: Seq<Seq<u8>>,
    following: Seq<u8>,
    expected: Seq<Status>,
)
    requires
        completes(body, lines, expected),
    ensures
        ({
            let step = after_bytes(
                PartialReply { line: Seq::empty(), body },
                line_started,
                joined(lines) + following,
                expected,
            );
            &&& step.used == joined(lines).len()
            &&& step.reply.line.len() == 0 && step.reply.body.len() == 0
            &&& step.outcome == Some(
                answered(lines[lines.len() - 1], body + joined(lines), expected),
            )
        }),
    decreases lines.len(),
{
    let line = lines[0];
    let later = lines.drop_first();
    let reply = PartialReply { line: Seq::empty(), body };
    line_is_taken(body, Seq::empty(), line_started, line, expected);
    assert(Seq::<u8>::empty() + line =~= line);
    let rest = joined(later) + following;
    assert(joined(lines) + following =~= line + rest);
    pieces_do_not_matter(reply, line_started, line, rest, expected);
    if later.len() == 0 {
        assert(line + joined(later) =~= line);
    } else {
        let opening = body + line;
        let next = opening + later[0];
        assert(next[0] == opening[0] && next[1] == opening[1] && next[2] == opening[2]);
        assert(later[later.len() - 1] == lines[lines.len() - 1]);
        assert(!is_last(lines[0], opening, expected));
        assert forall|i: int| 0 <= i < later.len() implies whole_line(#[trigger] later[i]) by {
            assert(later[i] == lines[i + 1]);
        }
        assert forall|i: int| 0 <= i < later.len() - 1 implies !is_last(
            #[trigger] later[i],
            next,
            expected,
        ) by {
            assert(later[i] == lines[i + 1]);
        }
        let step = after_bytes(reply, line_started, line, expected);
        assert(step.reply == (PartialReply { line: Seq::empty(), body: opening })) by {
            assert(step.reply.line =~= Seq::<u8>::empty());
        }
        reply_is_answered(opening, step.line_started, later, following, expected);
        assert(opening + joined(later) =~= body + joined(lines));
    }
}

/// Where no system status is expected, a code and a hyphen never end a reply. An opening line of
/// that form, lines that do not open with a code and a space, and a line that does are one reply:
/// all of it is used and all of it is the body.
pub proof fn hyphen_does_not_end_a_reply(
    line_started: bool,
    lines: Seq<Seq<u8>>,
    following: Seq<u8>,
    expected: Seq<Status>,
)
    requires
        !expected.contains(Status::System),
        lines.len() > 1,
        forall|i: int| 0 <= i < lines.len() ==> whole_line(#[trigger] lines[i]),
        marked(lines[0], 0x2d),
        forall|i: int| 0 < i < lines.len() - 1 ==> !marked(#[trigger] lines[i], 0x20),
        marked(lines[lines.len() - 1], 0x20),
        joined(lines).len() <= limit(),
    ensures
        ({
            let last = lines[lines.len() - 1];
            let response = ResponseView { status: status_of(number(last)), body: joined(lines) };
            let step = after_bytes(
                PartialReply { line: Seq::empty(), body: Seq::empty() },
                line_started,
                joined(lines) + following,
                expected,
            );
            &&& step.used == joined(lines).len()
            &&& step.outcome == Some(
                if expected.contains(response.status) {
                    Ok::<ResponseView, FtpErrorView>(response)
                } else {
                    Err(FtpErrorView::UnexpectedResponse(response))
                },
            )
        }),
{
    let nothing = Seq::<u8>::empty();
    assert(nothing + lines[0] =~= lines[0]);
    assert(nothing + joined(lines) =~= joined(lines));
    assert(whole_line(lines[0]));
    assert(lines[0][3] != 0x0a);
    assert forall|i: int| 0 <= i < lines.len() - 1 implies !is_last(
        #[trigger] lines[i],
        lines[0],
        expected,
    ) by {}
    reply_is_answered(nothing, line_started, lines, following, expected);
}

/// Where no system status is expected, a line with a code and a hyphen never ends a reply, whatever
/// came before it: the line is kept and more are awaited.
pub proof fn hyphen_line_is_kept(
    body: Seq<u8>,
    begun: Seq<u8>,
    line_started: bool,
    text: Seq<u8>,
    expected: Seq<Status>,
)
    requires
        !expected.contains(Status::System),
        whole_line(text),
        marked(begun + text, 0x2d),
        opens(body + (begun + text)),
        body.len() + begun.len() + text.len() <= limit(),
    ensures
        ({
            let step = after_bytes(
                PartialReply { line: begun, body },
                line_started,
                text,
                expected,
            );
            &&& step.used == text.len()
            &&& step.reply.line.len() == 0
            &&& step.reply.body == body + (begun + text)
            &&& step.outcome is None
        }),
{
    line_is_taken(body, begun, line_started, text, expected);
}

/// Where a system status is expected, the opening line of a reply ends it, and the lines behind it
/// are left to be read one by one.
pub proof fn system_reply_ends_with_its_opening_line(
    line_started: bool,
    line: Seq<u8>,
    following: Seq<u8>,
    expected: Seq<Status>,
)
    requires
        expected.contains(Status::System),
        whole_line(line),
        marked(line, 0x2d) || (marked(line, 0x20) && line.len() >= 5),
        line.len() <= limit(),
    ensures
        ({
            let response = ResponseView { status: status_of(number(line)), body: line };
            let step = after_bytes(
                PartialReply { line: Seq::empty(), body: Seq::empty() },
                line_started,
                line + following,
                expected,
            );
            &&& step.used == line.len()
            &&& step.outcome == Some(
                if expected.contains(response.status) {
                    Ok::<ResponseView, FtpErrorView>(response)
                } else {
                    Err(FtpErrorView::UnexpectedResponse(response))
                },
            )
        }),
{
    let nothing = Seq::<u8>::empty();
    let lines = seq![line];
    assert(nothing + line =~= line);
    assert(lines.drop_first() =~= Seq::<Seq<u8>>::empty());
    assert(joined(lines.drop_first()) == Seq::<u8>::empty());
    assert(joined(lines) =~= line);
    assert(line[3] != 0x0a);
    reply_is_answered(nothing, line_started, lines, following, expected);
}

/// The response that came of a read, expected or not.
pub open spec fn response_in(outcome: Option<Result<ResponseView, FtpErrorView>>) -> Option<
    ResponseView,
> {
    match outcome {
        Some(Ok(response)) => Some(response),
        Some(Err(FtpErrorView::UnexpectedResponse(response))) => Some(response),
        _ => None,
    }
}

/// Which statuses are expected decides nothing but whether a response is an error; only the system
/// status has a say in where a reply ends. Two callers that agree on that one read the same bytes
/// and see the same response.
pub proof fn expectation_only_judges(
    reply: PartialReply,
    line_started: bool,
    event: EventView,
    expected: Seq<Status>,
    other: Seq<Status>,
)
    requires
        expected.contains(Status::System) == other.contains(Status::System),
    ensures
        ({
            let step = after_event(reply, line_started, event, expected);
            let same = after_event(reply, line_started, event, other);
            &&& step.used == same.used
            &&& step.reply == same.reply
            &&& step.line_started == same.line_started
            &&& step.outcome is Some <==> same.outcome is Some
            &&& response_in(step.outcome) == response_in(same.outcome)
            &&& response_in(step.outcome) is None ==> step.outcome == same.outcome
            &&& response_in(step.outcome) matches Some(response) ==> step.outcome == Some(
                if expected.contains(response.status) {
                    Ok::<ResponseView, FtpErrorView>(response)
                } else {
                    Err(FtpErrorView::UnexpectedResponse(response))
                },
            )
        }),
    decreases event->Received_0.len(),
{
    if let EventView::Received(input) = event {
        if input.len() > 0 {
            let first = after_byte(reply, input[0], expected);
            if first.outcome is None {
                expectation_only_judges(
                    first.reply,
                    first.line_started,
                    EventView::Received(input.drop_first()),
                    expected,
                    other,
                );
            }
        }
    }
}

// ----- transfers -----

/// What is reported of a transfer, where `read` is what came of reading its completion reply: a
/// success exactly if the reply says 226 or 250, every other reply as an error, and every other
/// error as it is. `completed` is what a finished transfer gets, `drained` what is shown of a
/// dropped one.
pub open spec fn reported(
    read: Option<Result<ResponseView, FtpErrorView>>,
    completed: Option<Result<(), FtpErrorView>>,
    drained: Option<Result<Option<ResponseView>, FtpErrorView>>,
) -> bool {
    match response_in(read) {
        Some(response) => if response.status == Status::ClosingDataConnection || response.status
            == Status::RequestedFileActionOk {
            &&& completed == Some(Ok::<(), FtpErrorView>(()))
            &&& drained == Some(Ok::<Option<ResponseView>, FtpErrorView>(None))
        } else {
            &&& completed == Some(
                Err::<(), FtpErrorView>(FtpErrorView::UnexpectedResponse(response)),
            )
            &&& drained == Some(Ok::<Option<ResponseView>, FtpErrorView>(Some(response)))
        },
        None => match read {
            Some(Err(err)) => {
                &&& completed == Some(Err::<(), FtpErrorView>(err))
                &&& drained == Some(Err::<Option<ResponseView>, FtpErrorView>(err))
            },
            _ => completed is None && drained is None,
        },
    }
}

/// What is reported of a transfer follows from the response alone.
proof fn reported_by_status(
    read: Option<Result<ResponseView, FtpErrorView>>,
    outcome: Option<Result<ResponseView, FtpErrorView>>,
)
    requires
        outcome is Some <==> read is Some,
        response_in(outcome) == response_in(read),
        response_in(outcome) is None ==> outcome == read,
        response_in(outcome) matches Some(response) ==> outcome == Some(
            if TRANSFER_COMPLETE@.contains(response.status) {
                Ok::<ResponseView, FtpErrorView>(response)
            } else {
                Err(FtpErrorView::UnexpectedResponse(response))
            },
        ),
    ensures
        reported(read, completed(outcome), drained(outcome)),
{
    let complete = TRANSFER_COMPLETE@;
    assert(complete.len() == 2);
    assert(complete[0] == Status::ClosingDataConnection);
    assert(complete[1] == Status::RequestedFileActionOk);
}

/// A transfer is reported as completed exactly if the reply that was read says 226 or 250. Every
/// other reply is handed over as an error, and every other error is handed on. A dropped transfer
/// has the same reply read, and shows one that says neither.
#[verifier::spinoff_prover]
pub proof fn transfer_is_completed_by_226_or_250(
    reply: PartialReply,
    line_started: bool,
    event: EventView,
    expected: Seq<Status>,
)
    requires
        !expected.contains(Status::System),
    ensures
        ({
            let read = after_event(reply, line_started, event, expected);
            let step = after_event(reply, line_started, event, TRANSFER_COMPLETE@);
            &&& step.used == read.used
            &&& step.reply == read.reply
            &&& step.line_started == read.line_started
            &&& reported(read.outcome, completed(step.outcome), drained(step.outcome))
        }),
{
    let complete = TRANSFER_COMPLETE@;
    assert(!complete.contains(Status::System));
    expectation_only_judges(reply, line_started, event, complete, expected);
    let read = after_event(reply, line_started, event, expected);
    let step = after_event(reply, line_started, event, complete);
    reported_by_status(read.outcome, step.outcome);
}

/// The completion reply of a transfer, as bytes: the transfer succeeded exactly if its last line
/// has the number 226 or 250.
pub proof fn transfer_reply_by_bytes(
    line_started: bool,
    lines: Seq<Seq<u8>>,
    following: Seq<u8>,
)
    requires
        completes(Seq::empty(), lines, Seq::empty()),
    ensures
        ({
            let step = after_bytes(
                PartialReply { line: Seq::empty(), body: Seq::empty() },
                line_started,
                joined(lines) + following,
                TRANSFER_COMPLETE@,
            );
            let code = number(lines[lines.len() - 1]);
            let response = ResponseView { status: status_of(code), body: joined(lines) };
            &&& step.used == joined(lines).len()
            &&& completed(step.outcome) == Some(
                if code == 226 || code == 250 {
                    Ok::<(), FtpErrorView>(())
                } else {
                    Err(FtpErrorView::UnexpectedResponse(response))
                },
            )
            &&& drained(step.outcome) == Some(
                Ok::<Option<ResponseView>, FtpErrorView>(
                    if code == 226 || code == 250 {
                        None
                    } else {
                        Some(response)
                    },
                ),
            )
        }),
{
    let fresh = PartialReply { line: Seq::<u8>::empty(), body: Seq::<u8>::empty() };
    let input = joined(lines) + following;
    let none = Seq::<Status>::empty();
    reply_is_answered(Seq::empty(), line_started, lines, following, none);
    assert(Seq::<u8>::empty() + joined(lines) =~= joined(lines));
    transfer_is_completed_by_226_or_250(fresh, line_started, EventView::Received(input), none);
}

// ----- single lines -----

/// What comes of bytes that end a line, where the reply is not too large: the line is read through
/// its line feed, and what follows is left.
pub proof fn line_is_read_through_its_end(
    line: Seq<u8>,
    bytes_read: nat,
    text: Seq<u8>,
    following: Seq<u8>,
    reply_len: nat,
)
    requires
        whole_line(text),
        reply_len + line.len() + text.len() <= limit(),
    ensures
        line_step(line, bytes_read, EventView::Received(text + following), reply_len) == (LineStep {
            line: line + text,
            bytes_read: bytes_read + text.len(),
            used: text.len(),
            outcome: Some(Ok(bytes_read + text.len())),
        }),
{
    let input = text + following;
    let room = line_room(reply_len + line.len());
    let before = (text.len() - 1) as nat;
    assert forall|i: int| 0 <= i < before implies input[i] != 0x0a by {
        assert(input[i] == text[i]);
    }
    line_prefix_past(input, room, before);
    let rest = input.skip(before as int);
    assert(rest[0] == 0x0a) by {
        assert(input[before as int] == text[before as int]);
    }
    assert(line_prefix(rest, (room - before) as nat) == 1);
    assert(input.take(text.len() as int) =~= text);
}

/// What comes of bytes that do not end a line, where the reply is not too large: they are added to
/// the line, and more are awaited.
pub proof fn line_is_added_to(line: Seq<u8>, bytes_read: nat, input: Seq<u8>, reply_len: nat)
    requires
        forall|i: int| 0 <= i < input.len() ==> input[i] != 0x0a,
        reply_len + line.len() + input.len() <= limit(),
    ensures
        line_step(line, bytes_read, EventView::Received(input), reply_len) == (LineStep {
            line: line + input,
            bytes_read: bytes_read + input.len(),
            used: input.len(),
            outcome: None,
        }),
{
    let room = line_room(reply_len + line.len());
    line_prefix_past(input, room, input.len());
    assert(input.skip(input.len() as int).len() == 0);
    assert(input.take(input.len() as int) =~= input);
}

/// What comes of bytes that go past the limit before they end a line: the read ends with an error
/// one byte past the limit, or at the next byte where the limit was passed before.
pub proof fn line_past_the_limit_is_given_up(
    line: Seq<u8>,
    bytes_read: nat,
    input: Seq<u8>,
    reply_len: nat,
    used: nat,
)
    requires
        used == (if reply_len + line.len() <= limit() {
            (limit() - reply_len - line.len() + 1) as nat
        } else {
            1
        }),
        used <= input.len(),
        forall|i: int| 0 <= i < used - 1 ==> input[i] != 0x0a,
    ensures
        line_step(line, bytes_read, EventView::Received(input), reply_len) == (LineStep {
            line: line + input.take(used as int),
            bytes_read: bytes_read + used,
            used,
            outcome: Some(Err(too_large())),
        }),
{
    let before = (used - 1) as nat;
    line_prefix_past(input, used, before);
    let rest = input.skip(before as int);
    assert(rest.len() > 0);
    if rest[0] != 0x0a {
        assert(line_prefix(rest.drop_first(), 0) == 0);
    }
}

/// The end of the connection ends a line too, a failure ends the read, and an interruption or an
/// event without bytes does not; no byte is added and none is lost.
pub proof fn line_without_further_bytes(
    line: Seq<u8>,
    bytes_read: nat,
    err: ConnectionErrorView,
    reply_len: nat,
)
    ensures
        line_step(line, bytes_read, EventView::Closed, reply_len) == (LineStep {
            line,
            bytes_read,
            used: 0,
            outcome: Some(
                if reply_len + line.len() <= limit() {
                    Ok(bytes_read)
                } else {
                    Err(too_large())
                },
            ),
        }),
        line_step(line, bytes_read, EventView::Failed(err), reply_len) == (LineStep {
            line,
            bytes_read,
            used: 0,
            outcome: if err.kind == ErrorKind::Interrupted {
                None
            } else {
                Some(Err(FtpErrorView::ConnectionError(err)))
            },
        }),
        line_step(line, bytes_read, EventView::Received(Seq::empty()), reply_len) == (LineStep {
            line,
            bytes_read,
            used: 0,
            outcome: None,
        }),
{
}

// ----- codes -----

/// The code in a buffer is the number that its leading bytes write: what stands behind them has no
/// say, and a buffer that is too short has none.
pub proof fn code_is_the_leading_number(leading: Seq<u8>, following: Seq<u8>, len: int)
    ensures
        code_in(leading + following, leading.len() as int) == parsed_u32(leading),
        len > leading.len() ==> code_in(leading, len) is None,
{
    assert((leading + following).take(leading.len() as int) =~= leading);
}

// ----- values -----

/// Events, responses and errors mean what they hold.
pub proof fn values_mean_what_they_hold(
    bytes: &[u8],
    response: Response,
    kind: ErrorKind,
    message: String,
    channel: ControlChannel,
)
    ensures
        Event::Received(bytes)@ == EventView::Received(bytes@),
        Event::Closed@ == EventView::Closed,
        response@ == (ResponseView { status: response.status, body: response.body@ }),
        (ConnectionError { kind, detail: ErrorDetail::Message(message) })@ == (
        ConnectionErrorView { kind, detail: ErrorDetailView::Message(message@) }),
        (ConnectionError { kind, detail: ErrorDetail::ReplyTooLarge(ReplyTooLarge) })@ == (
        ConnectionErrorView { kind, detail: ErrorDetailView::ReplyTooLarge(ReplyTooLarge) }),
        FtpError::SecureError(message)@ == FtpErrorView::SecureError(message@),
        FtpError::UnexpectedResponse(response)@ == FtpErrorView::UnexpectedResponse(response@),
        FtpError::BadResponse@ == FtpErrorView::BadResponse,
        FtpError::InvalidAddress(message)@ == FtpErrorView::InvalidAddress(message@),
        FtpError::DataConnectionAlreadyOpen@ == FtpErrorView::DataConnectionAlreadyOpen,
        channel.reply() == (PartialReply {
            line: channel.response_line@,
            body: channel.response_body@,
        }),
        reply_too_large() == too_large(),
        <FtpError as FromSpec<ReplyTooLarge>>::obeys_from_spec(),
        <FtpError as FromSpec<ReplyTooLarge>>::from_spec(ReplyTooLarge)@ == too_large(),
        PartialReply::empty() == (PartialReply { line: Seq::empty(), body: Seq::empty() }),
{
}

/// A failure of the connection means what it holds, wherever it stands.
pub proof fn failures_mean_what_they_hold(err: ConnectionError)
    ensures
        Event::Failed(err)@ == EventView::Failed(err@),
        FtpError::ConnectionError(err)@ == FtpErrorView::ConnectionError(err@),
{
}

/// Results mean what they hold: success is success, an error is that error, and a read that goes
/// on has neither.
pub proof fn results_mean_what_they_hold(
    response: Response,
    count: usize,
    err: FtpError,
)
    ensures
        reply_outcome(None) is None,
        reply_outcome(Some(Ok(response))) == Some(Ok::<ResponseView, FtpErrorView>(response@)),
        reply_outcome(Some(Err(err))) == Some(Err::<ResponseView, FtpErrorView>(err@)),
        line_outcome(None) is None,
        line_outcome(Some(Ok(count))) == Some(Ok::<nat, FtpErrorView>(count as nat)),
        line_outcome(Some(Err(err))) == Some(Err::<nat, FtpErrorView>(err@)),
        transfer_outcome(None) is None,
        transfer_outcome(Some(Ok(()))) == Some(Ok::<(), FtpErrorView>(())),
        transfer_outcome(Some(Err(err))) == Some(Err::<(), FtpErrorView>(err@)),
        drain_outcome(None) is None,
        drain_outcome(Some(Ok(None))) == Some(Ok::<Option<ResponseView>, FtpErrorView>(None)),
        drain_outcome(Some(Ok(Some(response)))) == Some(
            Ok::<Option<ResponseView>, FtpErrorView>(Some(response@)),
        ),
        drain_outcome(Some(Err(err))) == Some(Err::<Option<ResponseView>, FtpErrorView>(err@)),
        error_view(Ok::<usize, FtpError>(count)) == Ok::<usize, FtpErrorView>(count),
        error_view(Err::<usize, FtpError>(err)) == Err::<usize, FtpErrorView>(err@),
{
}

} // verus!
