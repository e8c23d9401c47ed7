//! What holds of reading replies as a whole, whatever the server sends and however the connection
//! cuts it into pieces.

pub mod wire;

use vstd::prelude::*;

use crate::control::{drained, TRANSFER_COMPLETE};
use crate::number::{all_digits, ascii_bytes, decimal, is_digit, parsed_decimal};
use crate::reply::{
    after_byte, after_bytes, after_event, after_line, closed_during_reply, code_in, ends_line,
    is_terminal, judged, line_prefix, line_prefix_meaning, line_room, line_step, EventView,
    LineStep, PartialReply, Step, CODE_LEN, LINE_FEED, MIN_REPLY_SIZE, SPACE,
};
use crate::status::{code_of, status_of_code_of, Status};
use crate::types::{reply_too_large, FtpErrorView, ResponseView, MAX_REPLY_SIZE};

verus! {

/// It does not matter how the connection cuts the bytes of a reply: reading `first` and then
/// `second` is reading both at once. Once `first` ends a reply, nothing of `second` is used.
pub proof fn pieces_do_not_matter(
    reply: PartialReply,
    line_started: bool,
    first: Seq<u8>,
    second: Seq<u8>,
    expected: Seq<Status>,
)
    ensures
        ({
            let step = after_bytes(reply, line_started, first, expected);
            let rest = after_bytes(step.reply, step.line_started, second, expected);
            let both = after_bytes(reply, line_started, first + second, expected);
            &&& step.outcome is Some ==> both == step
            &&& step.outcome is None ==> both == (Step { used: first.len() + rest.used, ..rest })
        }),
    decreases first.len(),
{
    if first.len() == 0 {
        assert(first + second =~= second);
    } else {
        let step = after_byte(reply, first[0], expected);
        assert((first + second).drop_first() =~= first.drop_first() + second);
        if step.outcome is None {
            pieces_do_not_matter(
                step.reply,
                step.line_started,
                first.drop_first(),
                second,
                expected,
            );
        }
    }
}

/// No byte is lost and none is made up. A response holds every byte of its reply in the order in
/// which it came; until there is one, the bytes are kept, also where the reply is too large. Behind
/// a response or a malformed reply nothing is left, so the next reply starts afresh. Bytes that
/// arrive lead to no other error than these.
pub proof fn no_byte_is_lost(
    reply: PartialReply,
    line_started: bool,
    input: Seq<u8>,
    expected: Seq<Status>,
)
    ensures
        ({
            let step = after_bytes(reply, line_started, input, expected);
            let bytes = reply.bytes() + input.take(step.used as int);
            &&& step.used <= input.len()
            &&& match step.outcome {
                None => step.used == input.len() && step.reply.bytes() == bytes,
                Some(Ok(response)) => response.body == bytes && step.reply
                    == PartialReply::empty(),
                Some(Err(FtpErrorView::UnexpectedResponse(response))) => response.body == bytes
                    && step.reply == PartialReply::empty(),
                Some(Err(FtpErrorView::BadResponse)) => step.reply == PartialReply::empty(),
                Some(Err(err)) => err == reply_too_large() && step.reply.bytes() == bytes,
            }
        }),
    decreases input.len(),
{
    if input.len() == 0 {
        assert(reply.bytes() + input.take(0) =~= reply.bytes());
    } else {
        let first = after_byte(reply, input[0], expected);
        let longer = PartialReply { line: reply.line.push(input[0]), body: reply.body };
        assert(longer.bytes() =~= reply.bytes() + input.take(1));
        if first.outcome is None {
            assert(first.reply.bytes() =~= longer.bytes());
            let tail = input.drop_first();
            no_byte_is_lost(first.reply, first.line_started, tail, expected);
            let used = after_bytes(first.reply, first.line_started, tail, expected).used;
            assert(longer.bytes() + tail.take(used as int) =~= reply.bytes() + input.take(
                used as int + 1,
            ));
        }
    }
}

/// A caller gets a response exactly of a status that it expects; of any other status it gets the
/// response inside an error.
pub proof fn only_expected_statuses(
    reply: PartialReply,
    line_started: bool,
    input: Seq<u8>,
    expected: Seq<Status>,
)
    ensures
        match after_bytes(reply, line_started, input, expected).outcome {
            Some(Ok(response)) => expected.contains(response.status),
            Some(Err(FtpErrorView::UnexpectedResponse(response))) => !expected.contains(
                response.status,
            ),
            _ => true,
        },
    decreases input.len(),
{
    if input.len() > 0 {
        let first = after_byte(reply, input[0], expected);
        if first.outcome is None {
            only_expected_statuses(
                first.reply,
                first.line_started,
                input.drop_first(),
                expected,
            );
        }
    }
}

/// A reply that is given up as too large has more than [`MAX_REPLY_SIZE`] bytes, and one that is
/// not has at most that many, all of its lines included.
pub proof fn reply_size_is_bounded(
    reply: PartialReply,
    line_started: bool,
    input: Seq<u8>,
    expected: Seq<Status>,
)
    requires
        reply.held() <= MAX_REPLY_SIZE,
    ensures
        ({
            let step = after_bytes(reply, line_started, input, expected);
            if step.outcome == Some(Err::<ResponseView, FtpErrorView>(reply_too_large())) {
                reply.held() + step.used == MAX_REPLY_SIZE + 1
            } else {
                reply.held() + step.used <= MAX_REPLY_SIZE
            }
        }),
    decreases input.len(),
{
    if input.len() > 0 {
        let first = after_byte(reply, input[0], expected);
        if first.outcome is None {
            assert(first.reply.held() == reply.held() + 1);
            reply_size_is_bounded(
                first.reply,
                first.line_started,
                input.drop_first(),
                expected,
            );
        }
    }
}

/// An endless line or an endless multiline reply is given up one byte past [`MAX_REPLY_SIZE`],
/// without reading further, unless a reply ended before.
pub proof fn endless_reply_is_given_up(
    reply: PartialReply,
    line_started: bool,
    input: Seq<u8>,
    expected: Seq<Status>,
)
    requires
        reply.held() <= MAX_REPLY_SIZE,
        reply.held() + input.len() > MAX_REPLY_SIZE,
    ensures
        ({
            let fitting = input.take(MAX_REPLY_SIZE - reply.held());
            let within = after_bytes(reply, line_started, fitting, expected);
            let step = after_bytes(reply, line_started, input, expected);
            &&& step.outcome is Some
            &&& within.outcome is Some ==> step == within
            &&& within.outcome is None ==> {
                &&& step.outcome == Some(Err::<ResponseView, FtpErrorView>(reply_too_large()))
                &&& reply.held() + step.used == MAX_REPLY_SIZE + 1
            }
        }),
{
    let room = MAX_REPLY_SIZE - reply.held();
    let fitting = input.take(room);
    let beyond = input.skip(room);
    assert(fitting + beyond =~= input);
    pieces_do_not_matter(reply, line_started, fitting, beyond, expected);
    no_byte_is_lost(reply, line_started, fitting, expected);
    let within = after_bytes(reply, line_started, fitting, expected);
    if within.outcome is None {
        assert(fitting.take(within.used as int) =~= fitting);
        assert(within.reply.held() == within.reply.bytes().len());
        assert(within.reply.held() == MAX_REPLY_SIZE);
        assert(after_byte(within.reply, beyond[0], expected).outcome == Some(
            Err::<ResponseView, FtpErrorView>(reply_too_large()),
        ));
    }
}

/// After a reply that was given up as too large the connection cannot be used: no event gives a
/// response any more, every byte and the end of the connection give the same error again, and what
/// is kept of the reply stays too large.
pub proof fn too_large_reply_stays_too_large(
    reply: PartialReply,
    line_started: bool,
    event: EventView,
    expected: Seq<Status>,
)
    requires
        reply.held() > MAX_REPLY_SIZE,
    ensures
        ({
            let step = after_event(reply, line_started, event, expected);
            let given_up = step.outcome == Some(
                Err::<ResponseView, FtpErrorView>(reply_too_large()),
            );
            &&& step.reply.held() > MAX_REPLY_SIZE
            &&& match event {
                EventView::Received(input) => if input.len() > 0 {
                    given_up && step.used == 1
                } else {
                    step.outcome is None
                },
                EventView::Closed => given_up,
                EventView::Failed(err) => step.outcome is None || step.outcome == Some(
                    Err::<ResponseView, FtpErrorView>(FtpErrorView::ConnectionError(err)),
                ),
            }
        }),
{
}

/// Reading a reply that is given up as too large leaves more than [`MAX_REPLY_SIZE`] bytes of it,
/// from where [`too_large_reply_stays_too_large`] goes on.
pub proof fn given_up_reply_is_kept(
    reply: PartialReply,
    line_started: bool,
    event: EventView,
    expected: Seq<Status>,
)
    requires
        event !is Failed,
        after_event(reply, line_started, event, expected).outcome == Some(
            Err::<ResponseView, FtpErrorView>(reply_too_large()),
        ),
    ensures
        after_event(reply, line_started, event, expected).reply.held() > MAX_REPLY_SIZE,
    decreases event->Received_0.len(),
{
    if let EventView::Received(input) = event {
        let first = after_byte(reply, input[0], expected);
        if first.outcome is None {
            given_up_reply_is_kept(
                first.reply,
                first.line_started,
                EventView::Received(input.drop_first()),
                expected,
            );
        }
    }
}

/// Where the first of two pieces does not end the line, the second one goes on with it.
proof fn line_prefix_in_pieces(first: Seq<u8>, second: Seq<u8>, room: nat)
    ensures
        ({
            let used = line_prefix(first, room);
            if ends_line(first, used, room) {
                line_prefix(first + second, room) == used
            } else {
                &&& used == first.len() < room
                &&& line_prefix(first + second, room) == first.len() + line_prefix(
                    second,
                    (room - first.len()) as nat,
                )
            }
        }),
    decreases first.len(),
{
    line_prefix_meaning(first, room);
    if first.len() == 0 {
        assert(first + second =~= second);
    } else if room > 0 && first[0] != LINE_FEED {
        let tail = first.drop_first();
        assert((first + second).drop_first() =~= tail + second);
        line_prefix_in_pieces(tail, second, (room - 1) as nat);
        let used = line_prefix(tail, (room - 1) as nat);
        line_prefix_meaning(tail, (room - 1) as nat);
        if used > 0 {
            assert(tail[used - 1] == first[used as int]);
        }
    }
}

/// It does not matter how the connection cuts the bytes of a line: reading `first` and then
/// `second` is reading both at once. Once `first` ends a line, nothing of `second` is used.
pub proof fn line_pieces_do_not_matter(
    line: Seq<u8>,
    bytes_read: nat,
    first: Seq<u8>,
    second: Seq<u8>,
    reply_len: nat,
)
    ensures
        ({
            let step = line_step(line, bytes_read, EventView::Received(first), reply_len);
            let rest = line_step(
                step.line,
                step.bytes_read,
                EventView::Received(second),
                reply_len,
            );
            let both = line_step(
                line,
                bytes_read,
                EventView::Received(first + second),
                reply_len,
            );
            &&& step.outcome is Some ==> both == step
            &&& step.outcome is None ==> both == (LineStep {
                used: first.len() + rest.used,
                ..rest
            })
        }),
{
    let room = line_room(reply_len + line.len());
    line_prefix_in_pieces(first, second, room);
    line_prefix_meaning(first, room);
    let used = line_prefix(first, room);
    if ends_line(first, used, room) {
        assert((first + second).take(used as int) =~= first.take(used as int));
        if used > 0 {
            assert((first + second)[used - 1] == first[used - 1]);
        }
    } else {
        let longer = line + first.take(used as int);
        assert(line_room(reply_len + longer.len()) == room - first.len());
        let second_room = (room - first.len()) as nat;
        let second_used = line_prefix(second, second_room);
        line_prefix_meaning(second, second_room);
        let all_used = first.len() + second_used;
        assert(line + (first + second).take(all_used as int) =~= longer + second.take(
            second_used as int,
        ));
        if second_used > 0 {
            assert((first + second)[all_used - 1] == second[second_used - 1]);
        } else {
            assert(all_used > 0 ==> (first + second)[all_used - 1] == first[first.len() - 1]);
        }
    }
}

/// A line that is read fits into the reply. A line that is given up outgrew it by one byte, without
/// reading further, and no byte of it is lost.
pub proof fn line_size_is_bounded(
    line: Seq<u8>,
    bytes_read: nat,
    input: Seq<u8>,
    reply_len: nat,
)
    requires
        reply_len + line.len() <= MAX_REPLY_SIZE,
    ensures
        ({
            let step = line_step(line, bytes_read, EventView::Received(input), reply_len);
            &&& step.used <= input.len()
            &&& step.line == line + input.take(step.used as int)
            &&& match step.outcome {
                None => step.used == input.len() && reply_len + step.line.len()
                    <= MAX_REPLY_SIZE,
                Some(Ok(count)) => count == bytes_read + step.used && step.line.last()
                    == LINE_FEED && reply_len + step.line.len() <= MAX_REPLY_SIZE,
                Some(Err(err)) => err == reply_too_large() && reply_len + step.line.len()
                    == MAX_REPLY_SIZE + 1,
            }
        }),
{
    line_prefix_meaning(input, line_room(reply_len + line.len()));
}

/// A read that is given up in the middle of a line and begun again, with the bytes that it had,
/// goes on as if it had not been given up, once another byte arrives.
pub proof fn resumed_read_goes_on(
    reply: PartialReply,
    line_started: bool,
    input: Seq<u8>,
    expected: Seq<Status>,
)
    requires
        input.len() > 0,
    ensures
        after_bytes(reply, false, input, expected) == after_bytes(
            reply,
            line_started,
            input,
            expected,
        ),
{
}

/// A connection that is closed between the lines of a reply is an error, and the lines that came
/// are kept.
pub proof fn closed_between_lines(body: Seq<u8>, expected: Seq<Status>)
    requires
        0 < body.len() <= MAX_REPLY_SIZE,
    ensures
        ({
            let reply = PartialReply { line: Seq::empty(), body };
            let step = after_event(reply, false, EventView::Closed, expected);
            &&& step.outcome == Some(Err::<ResponseView, FtpErrorView>(closed_during_reply()))
            &&& step.reply == reply
        }),
{
}

/// Whether `line` is one whole line.
pub open spec fn is_line(line: Seq<u8>) -> bool {
    &&& line.len() > 0
    &&& line.last() == LINE_FEED
    &&& forall|i: int| 0 <= i < line.len() - 1 ==> line[i] != LINE_FEED
}

/// Bytes without a line feed, where the reply is not too large, only make the line longer.
pub(crate) proof fn line_grows(
    reply: PartialReply,
    line_started: bool,
    input: Seq<u8>,
    expected: Seq<Status>,
)
    requires
        input.len() > 0,
        reply.held() + input.len() <= MAX_REPLY_SIZE,
        forall|i: int| 0 <= i < input.len() ==> input[i] != LINE_FEED,
    ensures
        after_bytes(reply, line_started, input, expected) == (Step {
            reply: PartialReply { line: reply.line + input, body: reply.body },
            line_started: true,
            used: input.len(),
            outcome: None,
        }),
    decreases input.len(),
{
    let tail = input.drop_first();
    let first = after_byte(reply, input[0], expected);
    if tail.len() == 0 {
        assert(reply.line.push(input[0]) =~= reply.line + input);
    } else {
        line_grows(first.reply, true, tail, expected);
        assert(reply.line.push(input[0]) + tail =~= reply.line + input);
    }
}

/// A reply is read line by line: a whole line, where the reply is not too large, is taken at once.
pub proof fn whole_line_is_taken(
    body: Seq<u8>,
    line_started: bool,
    line: Seq<u8>,
    expected: Seq<Status>,
)
    requires
        is_line(line),
        body.len() + line.len() <= MAX_REPLY_SIZE,
    ensures
        after_bytes(
            PartialReply { line: Seq::empty(), body },
            line_started,
            line,
            expected,
        ) == (Step {
            used: line.len(),
            ..after_line(PartialReply { line, body }, true, expected)
        }),
{
    let reply = PartialReply { line: Seq::empty(), body };
    let text = line.drop_last();
    let end = seq![LINE_FEED];
    assert(text + end =~= line);
    pieces_do_not_matter(reply, line_started, text, end, expected);
    let before = PartialReply { line: text, body };
    if text.len() > 0 {
        line_grows(reply, line_started, text, expected);
        assert(Seq::<u8>::empty() + text =~= text);
    } else {
        assert(text =~= Seq::<u8>::empty());
    }
    let step = after_bytes(reply, line_started, text, expected);
    assert(step.reply == before && step.outcome is None);
    assert(text.push(LINE_FEED) =~= line);
    assert(end.drop_first() =~= Seq::<u8>::empty());
    let last = after_byte(before, LINE_FEED, expected);
    let nothing = after_bytes(last.reply, last.line_started, end.drop_first(), expected);
    assert(nothing == (Step {
        reply: last.reply,
        line_started: last.line_started,
        used: 0,
        outcome: None,
    }));
}

/// The lines of a reply, one behind the other.
pub open spec fn joined(lines: Seq<Seq<u8>>) -> Seq<u8>
    decreases lines.len(),
{
    if lines.len() == 0 {
        Seq::empty()
    } else {
        lines[0] + joined(lines.drop_first())
    }
}

/// Whether `lines` make one reply that is not too large: its first line opens it, its last line
/// ends it and no line before that does.
pub open spec fn is_reply(lines: Seq<Seq<u8>>, expected: Seq<Status>) -> bool {
    &&& lines.len() > 0
    &&& forall|i: int| 0 <= i < lines.len() ==> is_line(#[trigger] lines[i])
    &&& lines[0].len() >= MIN_REPLY_SIZE
    &&& code_in(lines[0], CODE_LEN as int) is Some
    &&& forall|i: int|
        0 <= i < lines.len() - 1 ==> !is_terminal(#[trigger] lines[i], lines[0], expected)
    &&& is_terminal(lines.last(), lines[0], expected)
    &&& joined(lines).len() <= MAX_REPLY_SIZE
}

/// What is left of a reply, behind the lines `body` of it, is read to its last line.
proof fn lines_are_read(
    body: Seq<u8>,
    line_started: bool,
    lines: Seq<Seq<u8>>,
    expected: Seq<Status>,
)
    requires
        lines.len() > 0,
        forall|i: int| 0 <= i < lines.len() ==> is_line(#[trigger] lines[i]),
        body.len() == 0 ==> lines[0].len() >= MIN_REPLY_SIZE,
        body.len() > 0 ==> body.len() >= MIN_REPLY_SIZE,
        code_in(body + lines[0], CODE_LEN as int) is Some,
        forall|i: int|
            0 <= i < lines.len() - 1 ==> !is_terminal(
                #[trigger] lines[i],
                body + lines[0],
                expected,
            ),
        is_terminal(lines.last(), body + lines[0], expected),
        body.len() + joined(lines).len() <= MAX_REPLY_SIZE,
    ensures
        after_bytes(
            PartialReply { line: Seq::empty(), body },
            line_started,
            joined(lines),
            expected,
        ) == (Step {
            reply: PartialReply::empty(),
            line_started: false,
            used: joined(lines).len(),
            outcome: Some(
                judged(
                    code_in(lines.last(), CODE_LEN as int)->0,
                    body + joined(lines),
                    expected,
                ),
            ),
        }),
    decreases lines.len(),
{
    let line = lines[0];
    let later = lines.drop_first();
    let reply = PartialReply { line: Seq::empty(), body };
    whole_line_is_taken(body, line_started, line, expected);
    pieces_do_not_matter(reply, line_started, line, joined(later), expected);
    if later.len() == 0 {
        assert(line + joined(later) =~= line);
        assert(lines.last() == line);
    } else {
        let opening = body + line;
        assert(later.last() == lines.last());
        let next = opening + later[0];
        assert(next.take(CODE_LEN as int) =~= opening.take(CODE_LEN as int));
        assert forall|i: int| 0 <= i < later.len() - 1 implies !is_terminal(
            #[trigger] later[i],
            next,
            expected,
        ) by {
            assert(later[i] == lines[i + 1]);
        }
        assert forall|i: int| 0 <= i < later.len() implies is_line(#[trigger] later[i]) by {
            assert(later[i] == lines[i + 1]);
        }
        lines_are_read(opening, false, later, expected);
        assert(opening + joined(later) =~= body + joined(lines));
    }
}

/// A reply, of one line or of several, is read to the end of its last line and no further,
/// whatever follows. The response holds all of its lines; its status is that of the last line,
/// even where the first line has another code.
pub proof fn reply_is_read(
    line_started: bool,
    lines: Seq<Seq<u8>>,
    following: Seq<u8>,
    expected: Seq<Status>,
)
    requires
        is_reply(lines, expected),
    ensures
        after_bytes(
            PartialReply::empty(),
            line_started,
            joined(lines) + following,
            expected,
        ) == (Step {
            reply: PartialReply::empty(),
            line_started: false,
            used: joined(lines).len(),
            outcome: Some(
                judged(code_in(lines.last(), CODE_LEN as int)->0, joined(lines), expected),
            ),
        }),
{
    let nothing = Seq::<u8>::empty();
    assert(nothing + lines[0] =~= lines[0]);
    assert(nothing + joined(lines) =~= joined(lines));
    lines_are_read(nothing, line_started, lines, expected);
    pieces_do_not_matter(
        PartialReply::empty(),
        line_started,
        joined(lines),
        following,
        expected,
    );
}

/// Draining the reply of a dropped transfer keeps the control connection in sync: that reply is
/// taken whole, whatever it says, and the bytes behind it are left for the next command.
pub proof fn drained_connection_is_in_sync(
    line_started: bool,
    lines: Seq<Seq<u8>>,
    following: Seq<u8>,
)
    requires
        is_reply(lines, TRANSFER_COMPLETE@),
    ensures
        ({
            let step = after_bytes(
                PartialReply::empty(),
                line_started,
                joined(lines) + following,
                TRANSFER_COMPLETE@,
            );
            &&& drained(step.outcome) matches Some(Ok(_))
            &&& step.used == joined(lines).len()
            &&& step.reply == PartialReply::empty()
        }),
{
    reply_is_read(line_started, lines, following, TRANSFER_COMPLETE@);
}

/// The reply of one line that a server sends for `status` with the text `text`.
pub open spec fn status_line(status: Status, text: Seq<u8>) -> Seq<u8> {
    ascii_bytes(decimal(code_of(status) as nat)) + seq![SPACE] + text + seq![LINE_FEED]
}

/// The status that a server answers with is the status that the caller gets, and the whole line is
/// the body.
pub proof fn status_is_read_back(
    status: Status,
    text: Seq<u8>,
    line_started: bool,
    expected: Seq<Status>,
)
    requires
        status != Status::Unknown,
        !text.contains(LINE_FEED),
        status_line(status, text).len() <= MAX_REPLY_SIZE,
    ensures
        ({
            let line = status_line(status, text);
            let response = ResponseView { status, body: line };
            after_bytes(PartialReply::empty(), line_started, line, expected).outcome == Some(
                if expected.contains(status) {
                    Ok::<ResponseView, FtpErrorView>(response)
                } else {
                    Err(FtpErrorView::UnexpectedResponse(response))
                },
            )
        }),
{
    let line = status_line(status, text);
    let code = code_of(status);
    let digits = ascii_bytes(decimal(code as nat));
    assert(100 <= code < 1000);
    reveal_with_fuel(decimal, 3);
    assert(decimal(code as nat).len() == CODE_LEN);
    parsed_decimal(code);
    status_of_code_of(status);
    assert(line.take(CODE_LEN as int) =~= digits);
    assert(all_digits(digits)) by {
        assert(is_digit(digits[0]) && is_digit(digits[1]) && is_digit(digits[2]));
    }
    assert forall|i: int| 0 <= i < line.len() - 1 implies line[i] != LINE_FEED by {
        if i < CODE_LEN {
            assert(is_digit(digits[i]) && line[i] == digits[i]);
        } else if i > CODE_LEN {
            assert(line[i] == text[i - CODE_LEN - 1]);
        }
    }
    whole_line_is_taken(Seq::empty(), line_started, line, expected);
    assert(Seq::<u8>::empty() + line =~= line);
    assert(is_terminal(line, line, expected));
}

} // verus!
