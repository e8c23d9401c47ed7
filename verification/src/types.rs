//! The values that FTP commands and replies are made of, and the errors of the library.

use std::collections::HashMap;

use vstd::prelude::*;

use crate::status::Status;

verus! {

/// A shorthand for a `Result` whose error type is always an [`FtpError`].
pub type FtpResult<T> = Result<T, FtpError>;

/// Features returned by the `FEAT` command (key, maybe value).
pub type Features = HashMap<String, Option<String>>;

/// Most bytes one control-connection reply may take, every line of a multiline reply included.
///
/// Legitimate replies stay far below it; the largest ones in practice are `FEAT` lists and
/// multiline welcome banners of a few KiB.
pub const MAX_REPLY_SIZE: usize = 256 * 1024;

/// The error inside [`FtpError::ConnectionError`], with [`ErrorKind::InvalidData`], when the
/// server sends a control-connection reply larger than [`MAX_REPLY_SIZE`].
///
/// Without a bound, a server answering with an endless line or an endless multiline reply
/// (including the greeting, before any authentication) would make the client buffer it without
/// limit. The reply is abandoned half-read, so the connection cannot be used afterwards.
#[derive(Debug, Clone, Copy, PartialEq, Eq, Structural)]
pub struct ReplyTooLarge;

/// The category of a failure of the connection, named as `std::io` names it.
#[derive(Debug, Clone, Copy, PartialEq, Eq, Structural)]
pub enum ErrorKind {
    NotFound,
    PermissionDenied,
    ConnectionRefused,
    ConnectionReset,
    ConnectionAborted,
    NotConnected,
    AddrInUse,
    AddrNotAvailable,
    BrokenPipe,
    WouldBlock,
    InvalidInput,
    InvalidData,
    TimedOut,
    Interrupted,
    UnexpectedEof,
    /// Any category that has no name here.
    Other,
}

/// What a failure of the connection carries besides its category.
#[derive(Debug)]
pub enum ErrorDetail {
    /// The text that describes the failure.
    Message(String),
    /// The reply outgrew [`MAX_REPLY_SIZE`].
    ReplyTooLarge(ReplyTooLarge),
}

/// A failure of the connection to the server.
#[derive(Debug)]
pub struct ConnectionError {
    pub kind: ErrorKind,
    pub detail: ErrorDetail,
}

/// `FtpError` is a library-global error type to describe the different kinds of
/// errors that might occur while using FTP.
#[derive(Debug)]
pub enum FtpError {
    /// Connection error
    ConnectionError(ConnectionError),
    /// There was an error with the secure stream
    SecureError(String),
    /// Unexpected response from remote. The command expected a certain response, but got another one.
    /// This means the ftp server refused to perform your request or there was an error while processing it.
    /// Contains the response data.
    UnexpectedResponse(Response),
    /// The response syntax is invalid
    BadResponse,
    /// The address provided was invalid; holds the text that says why
    InvalidAddress(String),
    /// Data connection is already open. You can't open more than one data connection at a time.
    DataConnectionAlreadyOpen,
}

/// Defines a response from the ftp server
#[derive(Debug)]
pub struct Response {
    pub status: Status,
    pub body: Vec<u8>,
}

/// Text Format Control used in `TYPE` command
#[derive(Debug, PartialEq, Eq, PartialOrd, Ord, Structural)]
pub enum FormatControl {
    /// Default text format control (is NonPrint)
    Default,
    /// Non-print (not destined for printing)
    NonPrint,
    /// Telnet format control (\<CR\>, \<FF\>, etc.)
    Telnet,
    /// ASA (Fortran) Carriage Control
    Asa,
}

/// File Type used in `TYPE` command
#[derive(Debug, PartialEq, Eq, PartialOrd, Ord, Structural)]
pub enum FileType {
    /// ASCII text (the argument is the text format control)
    Ascii(FormatControl),
    /// EBCDIC text (the argument is the text format control)
    Ebcdic(FormatControl),
    /// Image,
    Image,
    /// Binary (the synonym to Image)
    Binary,
    /// Local format (the argument is the number of bits in one byte on local machine)
    Local(u8),
}

/// Connection mode for data channel
#[derive(Debug, Clone, Copy, PartialEq, Eq, Structural)]
pub enum Mode {
    Active,
    /// Required by some servers (ipv6); defined in rfc 2428 <https://www.rfc-editor.org/rfc/rfc2428#section-3>
    ExtendedPassive,
    Passive,
}

/// The mathematical value of a [`Response`].
pub struct ResponseView {
    pub status: Status,
    pub body: Seq<u8>,
}

/// The mathematical value of an [`ErrorDetail`].
pub enum ErrorDetailView {
    Message(Seq<char>),
    ReplyTooLarge(ReplyTooLarge),
}

/// The mathematical value of a [`ConnectionError`].
pub struct ConnectionErrorView {
    pub kind: ErrorKind,
    pub detail: ErrorDetailView,
}

/// The mathematical value of an [`FtpError`].
pub enum FtpErrorView {
    ConnectionError(ConnectionErrorView),
    SecureError(Seq<char>),
    UnexpectedResponse(ResponseView),
    BadResponse,
    InvalidAddress(Seq<char>),
    DataConnectionAlreadyOpen,
}

impl View for Response {
    type V = ResponseView;

    open spec fn view(&self) -> ResponseView {
        ResponseView { status: self.status, body: self.body@ }
    }
}

impl View for ErrorDetail {
    type V = ErrorDetailView;

    open spec fn view(&self) -> ErrorDetailView {
        match self {
            ErrorDetail::Message(text) => ErrorDetailView::Message(text@),
            ErrorDetail::ReplyTooLarge(err) => ErrorDetailView::ReplyTooLarge(*err),
        }
    }
}

impl View for ConnectionError {
    type V = ConnectionErrorView;

    open spec fn view(&self) -> ConnectionErrorView {
        ConnectionErrorView { kind: self.kind, detail: self.detail@ }
    }
}

impl View for FtpError {
    type V = FtpErrorView;

    open spec fn view(&self) -> FtpErrorView {
        match self {
            FtpError::ConnectionError(err) => FtpErrorView::ConnectionError(err@),
            FtpError::SecureError(text) => FtpErrorView::SecureError(text@),
            FtpError::UnexpectedResponse(response) => FtpErrorView::UnexpectedResponse(response@),
            FtpError::BadResponse => FtpErrorView::BadResponse,
            FtpError::InvalidAddress(text) => FtpErrorView::InvalidAddress(text@),
            FtpError::DataConnectionAlreadyOpen => FtpErrorView::DataConnectionAlreadyOpen,
        }
    }
}

/// A result with the mathematical value of its error.
pub open spec fn error_view<T>(result: FtpResult<T>) -> Result<T, FtpErrorView> {
    match result {
        Ok(value) => Ok(value),
        Err(err) => Err(err@),
    }
}

/// The error of a reply that outgrew [`MAX_REPLY_SIZE`].
pub open spec fn reply_too_large() -> FtpErrorView {
    FtpErrorView::ConnectionError(
        ConnectionErrorView {
            kind: ErrorKind::InvalidData,
            detail: ErrorDetailView::ReplyTooLarge(ReplyTooLarge),
        },
    )
}

impl vstd::std_specs::convert::FromSpecImpl<ReplyTooLarge> for FtpError {
    open spec fn obeys_from_spec() -> bool {
        true
    }

    open spec fn from_spec(err: ReplyTooLarge) -> Self {
        FtpError::ConnectionError(
            ConnectionError {
                kind: ErrorKind::InvalidData,
                detail: ErrorDetail::ReplyTooLarge(err),
            },
        )
    }
}

impl From<ReplyTooLarge> for FtpError {
    fn from(err: ReplyTooLarge) -> (result: Self) {
        FtpError::ConnectionError(
            ConnectionError {
                kind: ErrorKind::InvalidData,
                detail: ErrorDetail::ReplyTooLarge(err),
            },
        )
    }
}

impl Clone for FormatControl {
    fn clone(&self) -> (control: Self)
        ensures
            control == *self,
    {
        match self {
            FormatControl::Default => FormatControl::Default,
            FormatControl::NonPrint => FormatControl::NonPrint,
            FormatControl::Telnet => FormatControl::Telnet,
            FormatControl::Asa => FormatControl::Asa,
        }
    }
}

impl Clone for FileType {
    fn clone(&self) -> (file_type: Self)
        ensures
            file_type == *self,
    {
        match self {
            FileType::Ascii(control) => FileType::Ascii(control.clone()),
            FileType::Ebcdic(control) => FileType::Ebcdic(control.clone()),
            FileType::Image => FileType::Image,
            FileType::Binary => FileType::Binary,
            FileType::Local(bits) => FileType::Local(*bits),
        }
    }
}

impl Clone for Response {
    fn clone(&self) -> (response: Self)
        ensures
            response@ == self@,
    {
        let body: Vec<u8> = self.body.clone();
        assert(body@ =~= self.body@);
        Self { status: self.status, body }
    }
}

impl Response {
    /// Instantiates a new `Response`
    pub fn new(status: Status, body: Vec<u8>) -> (response: Self)
        ensures
            response.status == status,
            response.body == body,
    {
        Self { status, body }
    }
}

} // verus!
