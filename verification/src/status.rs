//! Reply status of the FTP protocol.
//!
//! A reply opens with a three-digit code. [`Status`] names the codes that the protocol assigns;
//! every other code is [`Status::Unknown`].

use vstd::prelude::*;

verus! {

/// What the code of a reply says.
#[derive(Debug, Clone, Copy, PartialEq, Eq, Structural)]
pub enum Status {
    // 1xx: positive preliminary replies.
    /// Restart marker reply.
    RestartMarker,
    /// The service will be ready in some minutes.
    ReadyMinute,
    /// The data connection is already open; the transfer is starting.
    AlreadyOpen,
    /// The file status is okay; a data connection is about to be opened.
    AboutToSend,
    // 2xx: positive completion replies.
    /// The command was carried out.
    CommandOk,
    /// The command is superfluous at this site.
    CommandNotImplemented,
    /// System status, or a system help reply; `FEAT` answers with it.
    System,
    /// Directory status.
    Directory,
    /// File status.
    File,
    /// Help message.
    Help,
    /// Name of the system type.
    Name,
    /// The service is ready for a new user.
    Ready,
    /// The service is closing the control connection.
    Closing,
    /// The data connection is open; no transfer is in progress.
    DataConnectionOpen,
    /// The data connection is being closed; the file action was successful.
    ClosingDataConnection,
    /// Entering passive mode.
    PassiveMode,
    /// Entering long passive mode.
    LongPassiveMode,
    /// Entering extended passive mode.
    ExtendedPassiveMode,
    /// The user is logged in.
    LoggedIn,
    /// The user is logged out.
    LoggedOut,
    /// The logout command is noted and completes when the transfer is done.
    LogoutAck,
    /// The server accepts the authentication mechanism.
    AuthOk,
    /// The requested file action was completed.
    RequestedFileActionOk,
    /// The path was created.
    PathCreated,
    // 3xx: positive intermediate replies.
    /// The user name is okay; a password is needed.
    NeedPassword,
    /// An account is needed to log in.
    LoginNeedAccount,
    /// The requested file action awaits further information.
    RequestFilePending,
    // 4xx: transient negative completion replies.
    /// The service is not available and closes the control connection.
    NotAvailable,
    /// The data connection cannot be opened.
    CannotOpenDataConnection,
    /// The connection was closed; the transfer was aborted.
    TransferAborted,
    /// The user name or the password is invalid.
    InvalidCredentials,
    /// The requested host is unavailable.
    HostUnavailable,
    /// The requested file action was not taken.
    RequestFileActionIgnored,
    /// The requested action was aborted by a local error.
    ActionAborted,
    /// The requested action was not taken for want of storage.
    RequestedActionNotTaken,
    // 5xx: permanent negative completion replies.
    /// Syntax error in the command.
    BadCommand,
    /// Syntax error in the arguments.
    BadArguments,
    /// The command is not implemented.
    NotImplemented,
    /// The commands came in a bad sequence.
    BadSequence,
    /// The command is not implemented for that parameter.
    NotImplementedParameter,
    /// The user is not logged in.
    NotLoggedIn,
    /// An account is needed to store files.
    StoringFiles,
    /// The file is unavailable.
    FileUnavailable,
    /// The page type is unknown.
    PageTypeUnknown,
    /// The storage allocation was exceeded.
    ExceededStorage,
    /// The file name is not allowed.
    BadFilename,
    /// A code that the protocol does not assign.
    Unknown,
}

/// The code that stands for `status` on the wire; 0, which no server sends, for an unknown one.
pub open spec fn code_of(status: Status) -> u32 {
    match status {
        Status::RestartMarker => 110u32,
        Status::ReadyMinute => 120u32,
        Status::AlreadyOpen => 125u32,
        Status::AboutToSend => 150u32,
        Status::CommandOk => 200u32,
        Status::CommandNotImplemented => 202u32,
        Status::System => 211u32,
        Status::Directory => 212u32,
        Status::File => 213u32,
        Status::Help => 214u32,
        Status::Name => 215u32,
        Status::Ready => 220u32,
        Status::Closing => 221u32,
        Status::DataConnectionOpen => 225u32,
        Status::ClosingDataConnection => 226u32,
        Status::PassiveMode => 227u32,
        Status::LongPassiveMode => 228u32,
        Status::ExtendedPassiveMode => 229u32,
        Status::LoggedIn => 230u32,
        Status::LoggedOut => 231u32,
        Status::LogoutAck => 232u32,
        Status::AuthOk => 234u32,
        Status::RequestedFileActionOk => 250u32,
        Status::PathCreated => 257u32,
        Status::NeedPassword => 331u32,
        Status::LoginNeedAccount => 332u32,
        Status::RequestFilePending => 350u32,
        Status::NotAvailable => 421u32,
        Status::CannotOpenDataConnection => 425u32,
        Status::TransferAborted => 426u32,
        Status::InvalidCredentials => 430u32,
        Status::HostUnavailable => 434u32,
        Status::RequestFileActionIgnored => 450u32,
        Status::ActionAborted => 451u32,
        Status::RequestedActionNotTaken => 452u32,
        Status::BadCommand => 500u32,
        Status::BadArguments => 501u32,
        Status::NotImplemented => 502u32,
        Status::BadSequence => 503u32,
        Status::NotImplementedParameter => 504u32,
        Status::NotLoggedIn => 530u32,
        Status::StoringFiles => 532u32,
        Status::FileUnavailable => 550u32,
        Status::PageTypeUnknown => 551u32,
        Status::ExceededStorage => 552u32,
        Status::BadFilename => 553u32,
        Status::Unknown => 0u32,
    }
}

/// The status that the protocol assigns to `code`.
pub open spec fn status_of(code: u32) -> Status {
    if code == 110 {
        Status::RestartMarker
    } else if code == 120 {
        Status::ReadyMinute
    } else if code == 125 {
        Status::AlreadyOpen
    } else if code == 150 {
        Status::AboutToSend
    } else if code == 200 {
        Status::CommandOk
    } else if code == 202 {
        Status::CommandNotImplemented
    } else if code == 211 {
        Status::System
    } else if code == 212 {
        Status::Directory
    } else if code == 213 {
        Status::File
    } else if code == 214 {
        Status::Help
    } else if code == 215 {
        Status::Name
    } else if code == 220 {
        Status::Ready
    } else if code == 221 {
        Status::Closing
    } else if code == 225 {
        Status::DataConnectionOpen
    } else if code == 226 {
        Status::ClosingDataConnection
    } else if code == 227 {
        Status::PassiveMode
    } else if code == 228 {
        Status::LongPassiveMode
    } else if code == 229 {
        Status::ExtendedPassiveMode
    } else if code == 230 {
        Status::LoggedIn
    } else if code == 231 {
        Status::LoggedOut
    } else if code == 232 {
        Status::LogoutAck
    } else if code == 234 {
        Status::AuthOk
    } else if code == 250 {
        Status::RequestedFileActionOk
    } else if code == 257 {
        Status::PathCreated
    } else if code == 331 {
        Status::NeedPassword
    } else if code == 332 {
        Status::LoginNeedAccount
    } else if code == 350 {
        Status::RequestFilePending
    } else if code == 421 {
        Status::NotAvailable
    } else if code == 425 {
        Status::CannotOpenDataConnection
    } else if code == 426 {
        Status::TransferAborted
    } else if code == 430 {
        Status::InvalidCredentials
    } else if code == 434 {
        Status::HostUnavailable
    } else if code == 450 {
        Status::RequestFileActionIgnored
    } else if code == 451 {
        Status::ActionAborted
    } else if code == 452 {
        Status::RequestedActionNotTaken
    } else if code == 500 {
        Status::BadCommand
    } else if code == 501 {
        Status::BadArguments
    } else if code == 502 {
        Status::NotImplemented
    } else if code == 503 {
        Status::BadSequence
    } else if code == 504 {
        Status::NotImplementedParameter
    } else if code == 530 {
        Status::NotLoggedIn
    } else if code == 532 {
        Status::StoringFiles
    } else if code == 550 {
        Status::FileUnavailable
    } else if code == 551 {
        Status::PageTypeUnknown
    } else if code == 552 {
        Status::ExceededStorage
    } else if code == 553 {
        Status::BadFilename
    } else {
        Status::Unknown
    }
}

impl Status {
    /// The code of this status, as [`code_of`] gives it.
    pub fn code(&self) -> (code: u32)
        ensures
            code == code_of(*self),
    {
        match self {
            Status::RestartMarker => 110u32,
            Status::ReadyMinute => 120u32,
            Status::AlreadyOpen => 125u32,
            Status::AboutToSend => 150u32,
            Status::CommandOk => 200u32,
            Status::CommandNotImplemented => 202u32,
            Status::System => 211u32,
            Status::Directory => 212u32,
            Status::File => 213u32,
            Status::Help => 214u32,
            Status::Name => 215u32,
            Status::Ready => 220u32,
            Status::Closing => 221u32,
            Status::DataConnectionOpen => 225u32,
            Status::ClosingDataConnection => 226u32,
            Status::PassiveMode => 227u32,
            Status::LongPassiveMode => 228u32,
            Status::ExtendedPassiveMode => 229u32,
            Status::LoggedIn => 230u32,
            Status::LoggedOut => 231u32,
            Status::LogoutAck => 232u32,
            Status::AuthOk => 234u32,
            Status::RequestedFileActionOk => 250u32,
            Status::PathCreated => 257u32,
            Status::NeedPassword => 331u32,
            Status::LoginNeedAccount => 332u32,
            Status::RequestFilePending => 350u32,
            Status::NotAvailable => 421u32,
            Status::CannotOpenDataConnection => 425u32,
            Status::TransferAborted => 426u32,
            Status::InvalidCredentials => 430u32,
            Status::HostUnavailable => 434u32,
            Status::RequestFileActionIgnored => 450u32,
            Status::ActionAborted => 451u32,
            Status::RequestedActionNotTaken => 452u32,
            Status::BadCommand => 500u32,
            Status::BadArguments => 501u32,
            Status::NotImplemented => 502u32,
            Status::BadSequence => 503u32,
            Status::NotImplementedParameter => 504u32,
            Status::NotLoggedIn => 530u32,
            Status::StoringFiles => 532u32,
            Status::FileUnavailable => 550u32,
            Status::PageTypeUnknown => 551u32,
            Status::ExceededStorage => 552u32,
            Status::BadFilename => 553u32,
            Status::Unknown => 0u32,
        }
    }
}

impl vstd::std_specs::convert::FromSpecImpl<u32> for Status {
    open spec fn obeys_from_spec() -> bool {
        true
    }

    open spec fn from_spec(code: u32) -> Self {
        status_of(code)
    }
}

impl From<u32> for Status {
    /// The status of `code`, as [`status_of`] gives it.
    fn from(code: u32) -> (status: Self) {
        match code {
            110 => Status::RestartMarker,
            120 => Status::ReadyMinute,
            125 => Status::AlreadyOpen,
            150 => Status::AboutToSend,
            200 => Status::CommandOk,
            202 => Status::CommandNotImplemented,
            211 => Status::System,
            212 => Status::Directory,
            213 => Status::File,
            214 => Status::Help,
            215 => Status::Name,
            220 => Status::Ready,
            221 => Status::Closing,
            225 => Status::DataConnectionOpen,
            226 => Status::ClosingDataConnection,
            227 => Status::PassiveMode,
            228 => Status::LongPassiveMode,
            229 => Status::ExtendedPassiveMode,
            230 => Status::LoggedIn,
            231 => Status::LoggedOut,
            232 => Status::LogoutAck,
            234 => Status::AuthOk,
            250 => Status::RequestedFileActionOk,
            257 => Status::PathCreated,
            331 => Status::NeedPassword,
            332 => Status::LoginNeedAccount,
            350 => Status::RequestFilePending,
            421 => Status::NotAvailable,
            425 => Status::CannotOpenDataConnection,
            426 => Status::TransferAborted,
            430 => Status::InvalidCredentials,
            434 => Status::HostUnavailable,
            450 => Status::RequestFileActionIgnored,
            451 => Status::ActionAborted,
            452 => Status::RequestedActionNotTaken,
            500 => Status::BadCommand,
            501 => Status::BadArguments,
            502 => Status::NotImplemented,
            503 => Status::BadSequence,
            504 => Status::NotImplementedParameter,
            530 => Status::NotLoggedIn,
            532 => Status::StoringFiles,
            550 => Status::FileUnavailable,
            551 => Status::PageTypeUnknown,
            552 => Status::ExceededStorage,
            553 => Status::BadFilename,
            _ => Status::Unknown,
        }
    }
}

/// A status is found again from its code.
pub proof fn status_of_code_of(status: Status)
    ensures
        status_of(code_of(status)) == status,
{
}

/// A code that the protocol assigns is found again from its status, and no other code is.
pub proof fn code_of_status_of(code: u32)
    ensures
        status_of(code) != Status::Unknown ==> code_of(status_of(code)) == code,
        status_of(code) == Status::Unknown ==> code_of(status_of(code)) == 0,
{
}

/// The assignment of the protocol, in the order of the codes.
pub open spec fn assignment() -> Seq<(Status, u32)> {
    seq![
        (Status::RestartMarker, 110u32),
        (Status::ReadyMinute, 120u32),
        (Status::AlreadyOpen, 125u32),
        (Status::AboutToSend, 150u32),
        (Status::CommandOk, 200u32),
        (Status::CommandNotImplemented, 202u32),
        (Status::System, 211u32),
        (Status::Directory, 212u32),
        (Status::File, 213u32),
        (Status::Help, 214u32),
        (Status::Name, 215u32),
        (Status::Ready, 220u32),
        (Status::Closing, 221u32),
        (Status::DataConnectionOpen, 225u32),
        (Status::ClosingDataConnection, 226u32),
        (Status::PassiveMode, 227u32),
        (Status::LongPassiveMode, 228u32),
        (Status::ExtendedPassiveMode, 229u32),
        (Status::LoggedIn, 230u32),
        (Status::LoggedOut, 231u32),
        (Status::LogoutAck, 232u32),
        (Status::AuthOk, 234u32),
        (Status::RequestedFileActionOk, 250u32),
        (Status::PathCreated, 257u32),
        (Status::NeedPassword, 331u32),
        (Status::LoginNeedAccount, 332u32),
        (Status::RequestFilePending, 350u32),
        (Status::NotAvailable, 421u32),
        (Status::CannotOpenDataConnection, 425u32),
        (Status::TransferAborted, 426u32),
        (Status::InvalidCredentials, 430u32),
        (Status::HostUnavailable, 434u32),
        (Status::RequestFileActionIgnored, 450u32),
        (Status::ActionAborted, 451u32),
        (Status::RequestedActionNotTaken, 452u32),
        (Status::BadCommand, 500u32),
        (Status::BadArguments, 501u32),
        (Status::NotImplemented, 502u32),
        (Status::BadSequence, 503u32),
        (Status::NotImplementedParameter, 504u32),
        (Status::NotLoggedIn, 530u32),
        (Status::StoringFiles, 532u32),
        (Status::FileUnavailable, 550u32),
        (Status::PageTypeUnknown, 551u32),
        (Status::ExceededStorage, 552u32),
        (Status::BadFilename, 553u32),
    ]
}

/// The codes are those that the protocol assigns: a status and a code belong together exactly if
/// the assignment pairs them, and a code that it does not name is unknown.
pub proof fn codes_are_those_of_the_protocol(status: Status, code: u32)
    ensures
        (status != Status::Unknown && code_of(status) == code) <==> assignment().contains(
            (status, code),
        ),
        (status != Status::Unknown && status_of(code) == status) <==> assignment().contains(
            (status, code),
        ),
        status_of(code) == Status::Unknown <==> forall|s: Status|
            !#[trigger] assignment().contains((s, code)),
{
    let table = assignment();
    assert(table.len() == 46);
    assert(table[0] == (Status::RestartMarker, 110u32));
    assert(table[1] == (Status::ReadyMinute, 120u32));
    assert(table[2] == (Status::AlreadyOpen, 125u32));
    assert(table[3] == (Status::AboutToSend, 150u32));
    assert(table[4] == (Status::CommandOk, 200u32));
    assert(table[5] == (Status::CommandNotImplemented, 202u32));
    assert(table[6] == (Status::System, 211u32));
    assert(table[7] == (Status::Directory, 212u32));
    assert(table[8] == (Status::File, 213u32));
    assert(table[9] == (Status::Help, 214u32));
    assert(table[10] == (Status::Name, 215u32));
    assert(table[11] == (Status::Ready, 220u32));
    assert(table[12] == (Status::Closing, 221u32));
    assert(table[13] == (Status::DataConnectionOpen, 225u32));
    assert(table[14] == (Status::ClosingDataConnection, 226u32));
    assert(table[15] == (Status::PassiveMode, 227u32));
    assert(table[16] == (Status::LongPassiveMode, 228u32));
    assert(table[17] == (Status::ExtendedPassiveMode, 229u32));
    assert(table[18] == (Status::LoggedIn, 230u32));
    assert(table[19] == (Status::LoggedOut, 231u32));
    assert(table[20] == (Status::LogoutAck, 232u32));
    assert(table[21] == (Status::AuthOk, 234u32));
    assert(table[22] == (Status::RequestedFileActionOk, 250u32));
    assert(table[23] == (Status::PathCreated, 257u32));
    assert(table[24] == (Status::NeedPassword, 331u32));
    assert(table[25] == (Status::LoginNeedAccount, 332u32));
    assert(table[26] == (Status::RequestFilePending, 350u32));
    assert(table[27] == (Status::NotAvailable, 421u32));
    assert(table[28] == (Status::CannotOpenDataConnection, 425u32));
    assert(table[29] == (Status::TransferAborted, 426u32));
    assert(table[30] == (Status::InvalidCredentials, 430u32));
    assert(table[31] == (Status::HostUnavailable, 434u32));
    assert(table[32] == (Status::RequestFileActionIgnored, 450u32));
    assert(table[33] == (Status::ActionAborted, 451u32));
    assert(table[34] == (Status::RequestedActionNotTaken, 452u32));
    assert(table[35] == (Status::BadCommand, 500u32));
    assert(table[36] == (Status::BadArguments, 501u32));
    assert(table[37] == (Status::NotImplemented, 502u32));
    assert(table[38] == (Status::BadSequence, 503u32));
    assert(table[39] == (Status::NotImplementedParameter, 504u32));
    assert(table[40] == (Status::NotLoggedIn, 530u32));
    assert(table[41] == (Status::StoringFiles, 532u32));
    assert(table[42] == (Status::FileUnavailable, 550u32));
    assert(table[43] == (Status::PageTypeUnknown, 551u32));
    assert(table[44] == (Status::ExceededStorage, 552u32));
    assert(table[45] == (Status::BadFilename, 553u32));
    assert forall|s: Status, c: u32| #[trigger] table.contains((s, c)) implies s != Status::Unknown
        && code_of(s) == c && status_of(c) == s by {
        let i = choose|i: int| 0 <= i < table.len() && table[i] == (s, c);
        assert(table[i] == (s, c));
    }
    assert forall|s: Status| s != Status::Unknown implies #[trigger] table.contains(
        (s, code_of(s)),
    ) by {
        match s {
            Status::RestartMarker => {
                assert(table[0] == (s, code_of(s)));
            },
            Status::ReadyMinute => {
                assert(table[1] == (s, code_of(s)));
            },
            Status::AlreadyOpen => {
                assert(table[2] == (s, code_of(s)));
            },
            Status::AboutToSend => {
                assert(table[3] == (s, code_of(s)));
            },
            Status::CommandOk => {
                assert(table[4] == (s, code_of(s)));
            },
            Status::CommandNotImplemented => {
                assert(table[5] == (s, code_of(s)));
            },
            Status::System => {
                assert(table[6] == (s, code_of(s)));
            },
            Status::Directory => {
                assert(table[7] == (s, code_of(s)));
            },
            Status::File => {
                assert(table[8] == (s, code_of(s)));
            },
            Status::Help => {
                assert(table[9] == (s, code_of(s)));
            },
            Status::Name => {
                assert(table[10] == (s, code_of(s)));
            },
            Status::Ready => {
                assert(table[11] == (s, code_of(s)));
            },
            Status::Closing => {
                assert(table[12] == (s, code_of(s)));
            },
            Status::DataConnectionOpen => {
                assert(table[13] == (s, code_of(s)));
            },
            Status::ClosingDataConnection => {
                assert(table[14] == (s, code_of(s)));
            },
            Status::PassiveMode => {
                assert(table[15] == (s, code_of(s)));
            },
            Status::LongPassiveMode => {
                assert(table[16] == (s, code_of(s)));
            },
            Status::ExtendedPassiveMode => {
                assert(table[17] == (s, code_of(s)));
            },
            Status::LoggedIn => {
                assert(table[18] == (s, code_of(s)));
            },
            Status::LoggedOut => {
                assert(table[19] == (s, code_of(s)));
            },
            Status::LogoutAck => {
                assert(table[20] == (s, code_of(s)));
            },
            Status::AuthOk => {
                assert(table[21] == (s, code_of(s)));
            },
            Status::RequestedFileActionOk => {
                assert(table[22] == (s, code_of(s)));
            },
            Status::PathCreated => {
                assert(table[23] == (s, code_of(s)));
            },
            Status::NeedPassword => {
                assert(table[24] == (s, code_of(s)));
            },
            Status::LoginNeedAccount => {
                assert(table[25] == (s, code_of(s)));
            },
            Status::RequestFilePending => {
                assert(table[26] == (s, code_of(s)));
            },
            Status::NotAvailable => {
                assert(table[27] == (s, code_of(s)));
            },
            Status::CannotOpenDataConnection => {
                assert(table[28] == (s, code_of(s)));
            },
            Status::TransferAborted => {
                assert(table[29] == (s, code_of(s)));
            },
            Status::InvalidCredentials => {
                assert(table[30] == (s, code_of(s)));
            },
            Status::HostUnavailable => {
                assert(table[31] == (s, code_of(s)));
            },
            Status::RequestFileActionIgnored => {
                assert(table[32] == (s, code_of(s)));
            },
            Status::ActionAborted => {
                assert(table[33] == (s, code_of(s)));
            },
            Status::RequestedActionNotTaken => {
                assert(table[34] == (s, code_of(s)));
            },
            Status::BadCommand => {
                assert(table[35] == (s, code_of(s)));
            },
            Status::BadArguments => {
                assert(table[36] == (s, code_of(s)));
            },
            Status::NotImplemented => {
                assert(table[37] == (s, code_of(s)));
            },
            Status::BadSequence => {
                assert(table[38] == (s, code_of(s)));
            },
            Status::NotImplementedParameter => {
                assert(table[39] == (s, code_of(s)));
            },
            Status::NotLoggedIn => {
                assert(table[40] == (s, code_of(s)));
            },
            Status::StoringFiles => {
                assert(table[41] == (s, code_of(s)));
            },
            Status::FileUnavailable => {
                assert(table[42] == (s, code_of(s)));
            },
            Status::PageTypeUnknown => {
                assert(table[43] == (s, code_of(s)));
            },
            Status::ExceededStorage => {
                assert(table[44] == (s, code_of(s)));
            },
            Status::BadFilename => {
                assert(table[45] == (s, code_of(s)));
            },
            Status::Unknown => {},
        }
    }
    if status_of(code) != Status::Unknown {
        code_of_status_of(code);
        assert(table.contains((status_of(code), code_of(status_of(code)))));
    }
    if status != Status::Unknown {
        assert(table.contains((status, code_of(status))));
    }
}

/// Two different statuses never share a code.
pub proof fn codes_differ(a: Status, b: Status)
    requires
        a != b,
    ensures
        code_of(a) != code_of(b),
{
    status_of_code_of(a);
    status_of_code_of(b);
}

} // verus!
