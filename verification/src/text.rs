//! The text of replies and errors.

use std::string::FromUtf8Error;

use vstd::prelude::*;
use vstd::utf8::{
    decode_utf8, decode_utf8_encode_utf8, encode_utf8, encode_utf8_decode_utf8,
    encode_utf8_valid_utf8, valid_utf8,
};

use crate::number::{
    ascii_bytes, decimal, decimal_is_built_of_digits, decimal_text, no_byte_is_parsed,
    parsed_decimal, parsed_u32,
};
use crate::status::code_of;
use crate::types::{
    ConnectionError, ConnectionErrorView, ErrorDetail, ErrorDetailView, ErrorKind, FileType,
    FormatControl, FtpError, FtpErrorView, ReplyTooLarge, Response, ResponseView, MAX_REPLY_SIZE,
};

verus! {

/// Whether `c` has the Unicode property `White_Space`.
pub open spec fn is_white_space(c: char) -> bool {
    let code = c as u32;
    ||| 0x9 <= code <= 0xd
    ||| code == 0x20
    ||| code == 0x85
    ||| code == 0xa0
    ||| code == 0x1680
    ||| 0x2000 <= code <= 0x200a
    ||| code == 0x2028
    ||| code == 0x2029
    ||| code == 0x202f
    ||| code == 0x205f
    ||| code == 0x3000
}

/// `text` without the white space at its end.
pub open spec fn trimmed_end(text: Seq<char>) -> Seq<char>
    decreases text.len(),
{
    if text.len() > 0 && is_white_space(text.last()) {
        trimmed_end(text.drop_last())
    } else {
        text
    }
}

/// The error of `String::from_utf8`. It is only handed on; [`refused_bytes`] says what it holds.
#[verifier::external_type_specification]
#[verifier::external_body]
pub struct ExFromUtf8Error(FromUtf8Error);

/// The bytes that `err` holds, which `FromUtf8Error::into_bytes` gives back.
pub uninterp spec fn refused_bytes(err: FromUtf8Error) -> Seq<u8>;

/// `String::from_utf8` succeeds on valid UTF-8 and on nothing else, and then gives the characters
/// that the bytes encode. Its error holds the bytes that it was called with.
pub assume_specification[ String::from_utf8 ](vec: Vec<u8>) -> (text: Result<String, FromUtf8Error>)
    ensures
        match text {
            Ok(text) => valid_utf8(vec@) && text@ == decode_utf8(vec@),
            Err(err) => !valid_utf8(vec@) && refused_bytes(err) == vec@,
        },
;

/// `str::trim_end` removes trailing white space, that is the characters with the Unicode property
/// `White_Space`.
pub assume_specification[ str::trim_end ](text: &str) -> (trimmed: &str)
    ensures
        trimmed@ == trimmed_end(text@),
;

/// The text of a response body, if it is valid UTF-8: without the white space at its end.
pub open spec fn body_text(body: Seq<u8>) -> Option<Seq<char>> {
    if valid_utf8(body) {
        Some(trimmed_end(decode_utf8(body)))
    } else {
        None
    }
}

/// The text of a response: its code in brackets, then its body, or nothing if that is no text.
pub open spec fn response_text(response: ResponseView) -> Seq<char> {
    "["@ + decimal(code_of(response.status) as nat) + "] "@ + match body_text(response.body) {
        Some(text) => text,
        None => Seq::empty(),
    }
}

/// The text of [`ReplyTooLarge`].
pub open spec fn reply_too_large_text() -> Seq<char> {
    "the server sent a reply larger than "@ + decimal(MAX_REPLY_SIZE as nat) + " bytes"@
}

/// The text of a failure of the connection: that of what it carries.
pub open spec fn connection_error_text(err: ConnectionErrorView) -> Seq<char> {
    match err.detail {
        ErrorDetailView::Message(text) => text,
        ErrorDetailView::ReplyTooLarge(_) => reply_too_large_text(),
    }
}

/// The text of an error.
pub open spec fn ftp_error_text(err: FtpErrorView) -> Seq<char> {
    match err {
        FtpErrorView::ConnectionError(err) => "Connection error: "@ + connection_error_text(err),
        FtpErrorView::SecureError(text) => "Secure error: "@ + text,
        FtpErrorView::UnexpectedResponse(response) => "Invalid response: "@ + response_text(
            response,
        ),
        FtpErrorView::BadResponse => "Response contains an invalid syntax"@,
        FtpErrorView::InvalidAddress(text) => "Invalid address: "@ + text,
        FtpErrorView::DataConnectionAlreadyOpen => "Data connection is already open"@,
    }
}

/// The letter of a format control in the `TYPE` command.
pub open spec fn format_control_text(control: FormatControl) -> Seq<char> {
    match control {
        FormatControl::Default | FormatControl::NonPrint => "N"@,
        FormatControl::Telnet => "T"@,
        FormatControl::Asa => "C"@,
    }
}

/// The argument of the `TYPE` command for a file type.
pub open spec fn file_type_text(file_type: FileType) -> Seq<char> {
    match file_type {
        FileType::Ascii(control) => "A "@ + format_control_text(control),
        FileType::Ebcdic(control) => "E "@ + format_control_text(control),
        FileType::Image | FileType::Binary => "I"@,
        FileType::Local(bits) => "L "@ + decimal(bits as nat),
    }
}

/// Trimmed text is the start of the text, has no white space at its end, and is not trimmed
/// further.
pub proof fn trimmed_text_is_trimmed(text: Seq<char>)
    ensures
        trimmed_end(text).is_prefix_of(text),
        trimmed_end(text).len() > 0 ==> !is_white_space(trimmed_end(text).last()),
        trimmed_end(trimmed_end(text)) == trimmed_end(text),
    decreases text.len(),
{
    if text.len() > 0 && is_white_space(text.last()) {
        trimmed_text_is_trimmed(text.drop_last());
    }
}

/// White space at the end of text, such as a line end, makes no difference once it is trimmed.
pub proof fn trailing_white_space_is_ignored(text: Seq<char>, space: Seq<char>)
    requires
        forall|i: int| 0 <= i < space.len() ==> is_white_space(#[trigger] space[i]),
    ensures
        trimmed_end(text + space) == trimmed_end(text),
    decreases space.len(),
{
    if space.len() == 0 {
        assert(text + space =~= text);
    } else {
        let shorter = space.drop_last();
        assert((text + space).drop_last() =~= text + shorter);
        assert((text + space).last() == space.last());
        assert(is_white_space(space[space.len() - 1]));
        assert forall|i: int| 0 <= i < shorter.len() implies is_white_space(
            #[trigger] shorter[i],
        ) by {
            assert(shorter[i] == space[i]);
        }
        trailing_white_space_is_ignored(text, shorter);
    }
}

/// White space are these characters and no others: tabulator to carriage return, space, next
/// line, no-break space, Ogham space mark, en quad to hair space, line and paragraph separator,
/// narrow no-break space, medium mathematical space, ideographic space.
pub proof fn white_space_characters(c: char)
    ensures
        is_white_space(c) <==> seq![
            0x9u32, 0xa, 0xb, 0xc, 0xd, 0x20, 0x85, 0xa0, 0x1680, 0x2000, 0x2001, 0x2002, 0x2003,
            0x2004, 0x2005, 0x2006, 0x2007, 0x2008, 0x2009, 0x200a, 0x2028, 0x2029, 0x202f, 0x205f,
            0x3000,
        ].contains(c as u32),
{
    let codes = seq![
        0x9u32, 0xa, 0xb, 0xc, 0xd, 0x20, 0x85, 0xa0, 0x1680, 0x2000, 0x2001, 0x2002, 0x2003,
        0x2004, 0x2005, 0x2006, 0x2007, 0x2008, 0x2009, 0x200a, 0x2028, 0x2029, 0x202f, 0x205f,
        0x3000,
    ];
    let code = c as u32;
    if 0x9 <= code <= 0xd {
        assert(codes[code - 0x9] == code);
    } else if 0x2000 <= code <= 0x200a {
        assert(codes[9 + (code - 0x2000)] == code);
    } else {
        assert(codes[5] == 0x20 && codes[6] == 0x85 && codes[7] == 0xa0 && codes[8] == 0x1680);
        assert(codes[20] == 0x2028 && codes[21] == 0x2029 && codes[22] == 0x202f);
        assert(codes[23] == 0x205f && codes[24] == 0x3000);
    }
}

/// What is cut off behind trimmed text is white space.
proof fn only_white_space_is_cut(text: Seq<char>)
    ensures
        forall|i: int| trimmed_end(text).len() <= i < text.len() ==> is_white_space(
            #[trigger] text[i],
        ),
    decreases text.len(),
{
    if text.len() > 0 && is_white_space(text.last()) {
        let shorter = text.drop_last();
        only_white_space_is_cut(shorter);
        assert forall|i: int| trimmed_end(text).len() <= i < text.len() implies is_white_space(
            #[trigger] text[i],
        ) by {
            if i < shorter.len() {
                assert(shorter[i] == text[i]);
            }
        }
    }
}

/// A body is text exactly if it is valid UTF-8. The text is then a beginning of what the body
/// says, does not end in white space, and all that is missing of the body behind it is white space.
pub proof fn text_is_the_body_up_to_white_space(response: Response)
    ensures
        body_text(response.body@) is Some <==> valid_utf8(response.body@),
        body_text(response.body@) matches Some(text) ==> {
            let all = decode_utf8(response.body@);
            &&& text.len() <= all.len()
            &&& text == all.take(text.len() as int)
            &&& text.len() > 0 ==> !is_white_space(text.last())
            &&& forall|i: int| text.len() <= i < all.len() ==> is_white_space(#[trigger] all[i])
            &&& encode_utf8(all) == response.body@
        },
{
    if valid_utf8(response.body@) {
        let all = decode_utf8(response.body@);
        trimmed_text_is_trimmed(all);
        only_white_space_is_cut(all);
        decode_utf8_encode_utf8(response.body@);
        assert(trimmed_end(all) =~= all.take(trimmed_end(all).len() as int));
    }
}

/// The text of a body that a server wrote as `text` and white space, such as a line end, is `text`.
pub proof fn text_is_read_back(text: Seq<char>, space: Seq<char>)
    requires
        text.len() > 0 ==> !is_white_space(text.last()),
        forall|i: int| 0 <= i < space.len() ==> is_white_space(#[trigger] space[i]),
    ensures
        body_text(encode_utf8(text + space)) == Some(text),
{
    encode_utf8_valid_utf8(text + space);
    encode_utf8_decode_utf8(text + space);
    trailing_white_space_is_ignored(text, space);
}

/// The text of a body that a server ended with a line end is what stands before it.
pub proof fn line_end_is_cut(text: Seq<char>)
    requires
        text.len() > 0 ==> !is_white_space(text.last()),
    ensures
        body_text(encode_utf8(text)) == Some(text),
        body_text(encode_utf8(text + seq!['\n'])) == Some(text),
        body_text(encode_utf8(text + seq!['\r', '\n'])) == Some(text),
{
    text_is_read_back(text, Seq::empty());
    assert(text + Seq::<char>::empty() =~= text);
    text_is_read_back(text, seq!['\n']);
    text_is_read_back(text, seq!['\r', '\n']);
}

/// The text of a response is its code between brackets, a space, and the text of its body, which is
/// missing if the body is none. The code is read back from between the brackets.
pub proof fn response_text_shows_code_and_body(response: Response)
    ensures
        ({
            let text = response_text(response@);
            let code = decimal(code_of(response.status) as nat);
            let close = 1 + code.len() as int;
            &&& text.len() >= close + 2
            &&& text[0] == '['
            &&& text[close] == ']'
            &&& text[close + 1] == ' '
            &&& text.subrange(1, close) == code
            &&& parsed_u32(ascii_bytes(text.subrange(1, close))) == Some(code_of(response.status))
            &&& valid_utf8(response.body@) ==> body_text(response.body@) == Some(
                text.skip(close + 2),
            )
            &&& !valid_utf8(response.body@) ==> text.len() == close + 2
        }),
{
    reveal_strlit("[");
    reveal_strlit("] ");
    let text = response_text(response@);
    let code = decimal(code_of(response.status) as nat);
    let close = 1 + code.len() as int;
    assert(text.subrange(1, close) =~= code);
    parsed_decimal(code_of(response.status));
    if let Some(body) = body_text(response.body@) {
        assert(text.skip(close + 2) =~= body);
    }
}

/// The text of an error is a heading and what the error carries, the whole of it and nothing else.
/// A failure of the connection on its own has no heading.
pub proof fn error_text_shows_what_it_carries(
    kind: ErrorKind,
    message: String,
    response: Response,
)
    ensures
        reply_too_large_text() == "the server sent a reply larger than 262144 bytes"@,
        connection_error_text(
            (ConnectionError { kind, detail: ErrorDetail::ReplyTooLarge(ReplyTooLarge) })@,
        ) == "the server sent a reply larger than 262144 bytes"@,
        connection_error_text(
            (ConnectionError { kind, detail: ErrorDetail::Message(message) })@,
        ) == message@,
        ftp_error_text(
            FtpError::ConnectionError(
                ConnectionError { kind, detail: ErrorDetail::Message(message) },
            )@,
        ) == "Connection error: "@ + message@,
        ftp_error_text(
            FtpError::ConnectionError(
                ConnectionError { kind, detail: ErrorDetail::ReplyTooLarge(ReplyTooLarge) },
            )@,
        ) == "Connection error: the server sent a reply larger than 262144 bytes"@,
        ftp_error_text(FtpError::SecureError(message)@) == "Secure error: "@ + message@,
        ftp_error_text(FtpError::UnexpectedResponse(response)@) == "Invalid response: "@
            + response_text(response@),
        ftp_error_text(FtpError::InvalidAddress(message)@) == "Invalid address: "@ + message@,
        ftp_error_text(FtpError::BadResponse@) == "Response contains an invalid syntax"@,
        ftp_error_text(FtpError::DataConnectionAlreadyOpen@) == "Data connection is already open"@,
{
    let limit = seq!['2', '6', '2', '1', '4', '4'];
    decimal_is_built_of_digits(0, 2);
    decimal_is_built_of_digits(2, 6);
    decimal_is_built_of_digits(26, 2);
    decimal_is_built_of_digits(262, 1);
    decimal_is_built_of_digits(2621, 4);
    decimal_is_built_of_digits(26214, 4);
    assert(decimal(262144) =~= limit);
    reveal_strlit("Connection error: ");
    reveal_strlit("the server sent a reply larger than ");
    reveal_strlit(" bytes");
    reveal_strlit("Connection error: the server sent a reply larger than 262144 bytes");
    reveal_strlit("the server sent a reply larger than 262144 bytes");
    assert(reply_too_large_text() =~= "the server sent a reply larger than 262144 bytes"@);
    assert("Connection error: "@ + reply_too_large_text()
        =~= "Connection error: the server sent a reply larger than 262144 bytes"@);
}

/// What kind of error there is can be told from its text: errors of different kinds are never
/// written alike.
pub proof fn error_kinds_are_written_apart(a: FtpError, b: FtpError)
    requires
        ftp_error_text(a@) == ftp_error_text(b@),
    ensures
        a is ConnectionError <==> b is ConnectionError,
        a is SecureError <==> b is SecureError,
        a is UnexpectedResponse <==> b is UnexpectedResponse,
        a is BadResponse <==> b is BadResponse,
        a is InvalidAddress <==> b is InvalidAddress,
        a is DataConnectionAlreadyOpen <==> b is DataConnectionAlreadyOpen,
{
    reveal_strlit("Connection error: ");
    reveal_strlit("Secure error: ");
    reveal_strlit("Invalid response: ");
    reveal_strlit("Response contains an invalid syntax");
    reveal_strlit("Invalid address: ");
    reveal_strlit("Data connection is already open");
    let ta = ftp_error_text(a@);
    let tb = ftp_error_text(b@);
    assert(ta[0] == tb[0] && ta[8] == tb[8]);
}

/// The letter of a format control: N where nothing is printed, T for Telnet, C for ASA.
pub proof fn format_control_letters(control: FormatControl)
    ensures
        format_control_text(control).len() == 1,
        format_control_text(control)[0] == 'N' <==> (control is Default || control is NonPrint),
        format_control_text(control)[0] == 'T' <==> control is Telnet,
        format_control_text(control)[0] == 'C' <==> control is Asa,
{
    reveal_strlit("N");
    reveal_strlit("T");
    reveal_strlit("C");
}

/// A text type is written as its letter, a space and the letter of its format control, a local
/// one as L, a space and its number of bits, and a binary one as I alone.
pub proof fn file_type_letters(control: FormatControl, bits: u8)
    ensures
        file_type_text(FileType::Ascii(control)) == seq![
            'A',
            ' ',
            format_control_text(control)[0],
        ],
        file_type_text(FileType::Ebcdic(control)) == seq![
            'E',
            ' ',
            format_control_text(control)[0],
        ],
        file_type_text(FileType::Image) == seq!['I'],
        file_type_text(FileType::Binary) == seq!['I'],
        file_type_text(FileType::Local(bits)).len() > 2,
        file_type_text(FileType::Local(bits)).take(2) == seq!['L', ' '],
        file_type_text(FileType::Local(bits)).skip(2) == decimal(bits as nat),
        parsed_u32(ascii_bytes(file_type_text(FileType::Local(bits)).skip(2))) == Some(
            bits as u32,
        ),
{
    reveal_strlit("A ");
    reveal_strlit("E ");
    reveal_strlit("I");
    reveal_strlit("L ");
    format_control_letters(control);
    let number = decimal(bits as nat);
    parsed_decimal(bits as u32);
    let local = file_type_text(FileType::Local(bits));
    assert(local.take(2) =~= seq!['L', ' ']);
    assert(local.skip(2) =~= number);
    assert(file_type_text(FileType::Ascii(control)) =~= seq![
        'A',
        ' ',
        format_control_text(control)[0],
    ]);
    assert(file_type_text(FileType::Ebcdic(control)) =~= seq![
        'E',
        ' ',
        format_control_text(control)[0],
    ]);
    if number.len() == 0 {
        assert(ascii_bytes(number) =~= Seq::<u8>::empty());
        no_byte_is_parsed();
    }
}

/// Whether two format controls mean the same: the default one is the one without printing.
pub open spec fn same_control(a: FormatControl, b: FormatControl) -> bool {
    a == b || ((a is Default || a is NonPrint) && (b is Default || b is NonPrint))
}

/// Whether two file types mean the same: a binary one is an image.
pub open spec fn same_type(a: FileType, b: FileType) -> bool {
    match (a, b) {
        (FileType::Ascii(x), FileType::Ascii(y)) => same_control(x, y),
        (FileType::Ebcdic(x), FileType::Ebcdic(y)) => same_control(x, y),
        (FileType::Local(x), FileType::Local(y)) => x == y,
        _ => (a is Image || a is Binary) && (b is Image || b is Binary),
    }
}

/// Two file types are written alike exactly if they mean the same.
pub proof fn only_synonyms_are_written_alike(a: FileType, b: FileType)
    ensures
        file_type_text(a) == file_type_text(b) <==> same_type(a, b),
{
    let control_a = match a {
        FileType::Ascii(control) => control,
        FileType::Ebcdic(control) => control,
        _ => FormatControl::Default,
    };
    let control_b = match b {
        FileType::Ascii(control) => control,
        FileType::Ebcdic(control) => control,
        _ => FormatControl::Default,
    };
    let bits_a = if let FileType::Local(bits) = a { bits } else { 0u8 };
    let bits_b = if let FileType::Local(bits) = b { bits } else { 0u8 };
    file_type_letters(control_a, bits_a);
    file_type_letters(control_b, bits_b);
    format_control_letters(control_a);
    format_control_letters(control_b);
    let ta = file_type_text(a);
    let tb = file_type_text(b);
    if a is Local {
        assert(ta.take(2)[0] == ta[0]);
    }
    if b is Local {
        assert(tb.take(2)[0] == tb[0]);
    }
    if ta == tb {
        assert(ta[0] == tb[0]);
        if ta.len() == 3 {
            assert(ta[2] == tb[2]);
        }
    }
}

/// Synonyms are written alike in the `TYPE` command.
pub proof fn synonyms_are_written_alike()
    ensures
        format_control_text(FormatControl::Default) == format_control_text(
            FormatControl::NonPrint,
        ),
        file_type_text(FileType::Binary) == file_type_text(FileType::Image),
{
}

impl Response {
    /// Get response as string
    ///
    /// # Errors
    ///
    /// Returns the error of `String::from_utf8`, with the bytes of the body in it, if the body is
    /// not valid UTF-8.
    pub fn as_string(&self) -> (text: Result<String, FromUtf8Error>)
        ensures
            match text {
                Ok(text) => body_text(self.body@) == Some(text@),
                Err(err) => body_text(self.body@) is None && refused_bytes(err) == self.body@,
            },
    {
        let body: Vec<u8> = self.body.clone();
        assert(body@ =~= self.body@);
        match String::from_utf8(body) {
            Ok(text) => Ok(text.as_str().trim_end().to_owned()),
            Err(err) => Err(err),
        }
    }

    /// The response as text: its code in brackets and its body.
    pub fn to_string(&self) -> (text: String)
        ensures
            text@ == response_text(self@),
    {
        let mut text: String = "[".to_owned();
        text.append(decimal_text(self.status.code()).as_str());
        text.append("] ");
        match self.as_string() {
            Ok(body) => {
                text.append(body.as_str());
            },
            Err(_) => {},
        }
        assert(text@ =~= response_text(self@));
        text
    }
}

impl ReplyTooLarge {
    /// The error as text.
    pub fn to_string(&self) -> (text: String)
        ensures
            text@ == reply_too_large_text(),
    {
        let limit: u32 = MAX_REPLY_SIZE as u32;
        let mut text: String = "the server sent a reply larger than ".to_owned();
        text.append(decimal_text(limit).as_str());
        text.append(" bytes");
        text
    }
}

impl ConnectionError {
    /// The error as text.
    pub fn to_string(&self) -> (text: String)
        ensures
            text@ == connection_error_text(self@),
    {
        match &self.detail {
            ErrorDetail::Message(text) => text.clone(),
            ErrorDetail::ReplyTooLarge(err) => err.to_string(),
        }
    }
}

impl FtpError {
    /// The error as text.
    pub fn to_string(&self) -> (text: String)
        ensures
            text@ == ftp_error_text(self@),
    {
        match self {
            FtpError::ConnectionError(err) => {
                let mut text: String = "Connection error: ".to_owned();
                text.append(err.to_string().as_str());
                text
            },
            FtpError::SecureError(reason) => {
                let mut text: String = "Secure error: ".to_owned();
                text.append(reason.as_str());
                text
            },
            FtpError::UnexpectedResponse(response) => {
                let mut text: String = "Invalid response: ".to_owned();
                text.append(response.to_string().as_str());
                text
            },
            FtpError::BadResponse => "Response contains an invalid syntax".to_owned(),
            FtpError::InvalidAddress(reason) => {
                let mut text: String = "Invalid address: ".to_owned();
                text.append(reason.as_str());
                text
            },
            FtpError::DataConnectionAlreadyOpen => "Data connection is already open".to_owned(),
        }
    }
}

impl FormatControl {
    /// The letter of this format control in the `TYPE` command.
    pub fn to_string(&self) -> (text: String)
        ensures
            text@ == format_control_text(*self),
    {
        match self {
            FormatControl::Default | FormatControl::NonPrint => "N".to_owned(),
            FormatControl::Telnet => "T".to_owned(),
            FormatControl::Asa => "C".to_owned(),
        }
    }
}

impl FileType {
    /// The argument of the `TYPE` command for this file type.
    pub fn to_string(&self) -> (text: String)
        ensures
            text@ == file_type_text(*self),
    {
        match self {
            FileType::Ascii(control) => {
                let mut text: String = "A ".to_owned();
                text.append(control.to_string().as_str());
                text
            },
            FileType::Ebcdic(control) => {
                let mut text: String = "E ".to_owned();
                text.append(control.to_string().as_str());
                text
            },
            FileType::Image | FileType::Binary => "I".to_owned(),
            FileType::Local(bits) => {
                let mut text: String = "L ".to_owned();
                text.append(decimal_text(*bits as u32).as_str());
                text
            },
        }
    }
}

} // verus!
