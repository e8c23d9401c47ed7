//! The control-connection logic of an FTP client, verified with Verus.
//!
//! - [`types`]: the values that commands and replies are made of, and the errors.
//! - [`status`]: the status that the code of a reply stands for.
//! - [`number`]: decimal numbers in replies and texts.
//! - [`reply`]: the grammar of replies, and how reading one goes on with each event of the
//!   connection.
//! - [`control`]: the state of the control connection and the operations on it.
//! - [`peer`]: which peers may open a data connection in active mode.
//! - [`text`]: the text of replies, errors and `TYPE` arguments.
//! - [`laws`]: what holds of reading replies as a whole.
//! - [`laws::wire`]: what replies are byte for byte, and what comes of them.
//!
//! The library does no input or output: it is told what the connection delivered, and tells what
//! to make of it.

pub mod control;
pub mod laws;
pub mod number;
pub mod peer;
pub mod reply;
pub mod status;
pub mod text;
pub mod types;

pub use control::ControlChannel;
pub use peer::{ActivePeerCheck, IpAddr};
pub use reply::Event;
pub use status::Status;
pub use types::{
    ConnectionError, ErrorDetail, ErrorKind, Features, FileType, FormatControl, FtpError,
    FtpResult, Mode, ReplyTooLarge, Response, MAX_REPLY_SIZE,
};
