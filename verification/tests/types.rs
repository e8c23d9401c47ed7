use suppaftp::{
    ActivePeerCheck, ConnectionError, ErrorDetail, ErrorKind, FileType, FormatControl, FtpError,
    IpAddr, Mode, ReplyTooLarge, Response, Status,
};

fn v4(octets: [u8; 4]) -> IpAddr {
    IpAddr::V4(u32::from_be_bytes(octets))
}

/// `::ffff:a.b.c.d`
fn mapped(octets: [u8; 4]) -> IpAddr {
    let mut bytes = [0u8; 16];
    bytes[10] = 0xff;
    bytes[11] = 0xff;
    bytes[12..].copy_from_slice(&octets);
    IpAddr::V6(u128::from_be_bytes(bytes))
}

#[test]
fn should_check_active_peers() {
    let server = v4([192, 0, 2, 1]);
    let mapped = mapped([192, 0, 2, 1]);
    let other = v4([192, 0, 2, 2]);

    assert!(ActivePeerCheck::ControlPeer.allows(server, server));
    assert!(ActivePeerCheck::ControlPeer.allows(mapped, server));
    assert!(ActivePeerCheck::ControlPeer.allows(server, mapped));
    assert!(!ActivePeerCheck::ControlPeer.allows(other, server));

    assert!(ActivePeerCheck::Any.allows(other, server));

    let allow = ActivePeerCheck::Allow(vec![other]);
    assert!(allow.allows(other, server));
    assert!(!allow.allows(server, server));
    assert!(!ActivePeerCheck::Allow(Vec::new()).allows(server, server));
}

#[test]
fn canonical_form_of_addresses() {
    let octets = [192, 0, 2, 1];
    assert_eq!(mapped(octets).to_canonical(), v4(octets));
    assert_eq!(v4(octets).to_canonical(), v4(octets));
    // `::192.0.2.1` and `::fffe:192.0.2.1` are not IPv4-mapped.
    let compatible = IpAddr::V6(0xc000_0201);
    assert_eq!(compatible.to_canonical(), compatible);
    let near = IpAddr::V6(0xfffe_c000_0201);
    assert_eq!(near.to_canonical(), near);
    let beyond = IpAddr::V6(0x1_ffff_c000_0201);
    assert_eq!(beyond.to_canonical(), beyond);
}

#[test]
fn mapped_entries_of_a_list_match() {
    let allow = ActivePeerCheck::Allow(vec![v4([10, 0, 0, 1]), mapped([192, 0, 2, 1])]);
    assert!(allow.allows(v4([192, 0, 2, 1]), v4([10, 0, 0, 9])));
    assert!(allow.allows(mapped([10, 0, 0, 1]), v4([10, 0, 0, 9])));
    assert!(!allow.allows(v4([10, 0, 0, 9]), v4([10, 0, 0, 9])));
    assert_eq!(allow.clone(), allow);
    let same = ActivePeerCheck::Allow(vec![mapped([10, 0, 0, 1]), v4([192, 0, 2, 1])]);
    for peer in [v4([10, 0, 0, 1]), v4([192, 0, 2, 1]), v4([10, 0, 0, 9])] {
        assert_eq!(
            allow.allows(peer, v4([10, 0, 0, 9])),
            same.allows(peer, v4([10, 0, 0, 9]))
        );
    }
}

#[test]
fn control_peer_is_the_default_check() {
    assert_eq!(ActivePeerCheck::default(), ActivePeerCheck::ControlPeer);
}

fn connection_error(kind: ErrorKind, text: &str) -> FtpError {
    FtpError::ConnectionError(ConnectionError {
        kind,
        detail: ErrorDetail::Message(text.to_string()),
    })
}

#[test]
fn fmt_error() {
    assert_eq!(
        connection_error(ErrorKind::NotFound, "omar").to_string().as_str(),
        "Connection error: omar"
    );
    assert_eq!(
        FtpError::SecureError("omar".to_string()).to_string().as_str(),
        "Secure error: omar"
    );
    assert_eq!(
        FtpError::UnexpectedResponse(Response::new(
            Status::ExceededStorage,
            "error".as_bytes().to_vec()
        ))
        .to_string()
        .as_str(),
        "Invalid response: [552] error"
    );
    assert_eq!(
        FtpError::BadResponse.to_string().as_str(),
        "Response contains an invalid syntax"
    );
    assert_eq!(
        FtpError::InvalidAddress("invalid socket address syntax".to_string())
            .to_string()
            .as_str(),
        "Invalid address: invalid socket address syntax"
    );
    assert_eq!(
        FtpError::DataConnectionAlreadyOpen.to_string().as_str(),
        "Data connection is already open"
    );
}

#[test]
fn fmt_reply_too_large() {
    let text = "the server sent a reply larger than 262144 bytes";
    assert_eq!(ReplyTooLarge.to_string(), text);
    let err = FtpError::from(ReplyTooLarge);
    assert_eq!(err.to_string(), format!("Connection error: {}", text));
    match err {
        FtpError::ConnectionError(err) => {
            assert_eq!(err.kind, ErrorKind::InvalidData);
            assert!(matches!(err.detail, ErrorDetail::ReplyTooLarge(ReplyTooLarge)));
        }
        other => panic!("unexpected error {:?}", other),
    }
}

#[test]
fn response() {
    let response: Response = Response::new(Status::AboutToSend, "error".as_bytes().to_vec());
    assert_eq!(response.status, Status::AboutToSend);
    assert_eq!(response.as_string().unwrap(), "error");
}

#[test]
fn fmt_response() {
    let response: Response = Response::new(
        Status::FileUnavailable,
        "Can't create directory: File exists".as_bytes().to_vec(),
    );
    assert_eq!(
        response.to_string().as_str(),
        "[550] Can't create directory: File exists"
    );
}

#[test]
fn response_as_string_with_invalid_utf8() {
    let response = Response::new(Status::CommandOk, vec![0xff, 0xfe, 0xfd]);
    assert!(response.as_string().is_err());
}

#[test]
fn error_of_as_string_holds_the_body() {
    let body = vec![b'2', b'0', 0xff, b' ', b'\n'];
    let response = Response::new(Status::CommandOk, body.clone());
    assert_eq!(response.as_string().unwrap_err().into_bytes(), body);
}

#[test]
fn fmt_response_with_invalid_utf8() {
    let response = Response::new(Status::CommandOk, vec![0xff, 0xfe, 0xfd]);
    assert_eq!(response.to_string(), "[200] ");
}

#[test]
fn response_as_string_trims_trailing_whitespace() {
    let response = Response::new(Status::CommandOk, "hello world  \r\n".as_bytes().to_vec());
    assert_eq!(response.as_string().unwrap(), "hello world");
}

#[test]
fn response_as_string_trims_every_white_space_character() {
    let spaces = "\u{9}\u{a}\u{b}\u{c}\u{d}\u{20}\u{85}\u{a0}\u{1680}\u{2000}\u{2001}\u{2002}\
        \u{2003}\u{2004}\u{2005}\u{2006}\u{2007}\u{2008}\u{2009}\u{200a}\u{2028}\u{2029}\u{202f}\
        \u{205f}\u{3000}";
    assert_eq!(spaces.chars().count(), 25);
    let text = format!(" \u{e9}t\u{e9}{}", spaces);
    let response = Response::new(Status::CommandOk, text.into_bytes());
    assert_eq!(response.as_string().unwrap(), " \u{e9}t\u{e9}");
}

#[test]
fn response_as_string_keeps_what_is_no_white_space() {
    // Zero width space, word joiner, Mongolian vowel separator, information separators.
    for last in ['\u{200b}', '\u{2060}', '\u{180e}', '\u{1c}', '\u{1f}', '\u{8}', '\u{e}', '\u{200c}'] {
        let text = format!("a{}", last);
        let response = Response::new(Status::CommandOk, text.clone().into_bytes());
        assert_eq!(response.as_string().unwrap(), text);
    }
}

#[test]
fn no_other_character_is_white_space() {
    let mut found = Vec::new();
    for code in 0u32..0x11_0000 {
        if let Some(c) = char::from_u32(code) {
            if c.to_string().trim_end().is_empty() {
                found.push(code);
            }
        }
    }
    let expected: Vec<u32> = (0x9..=0xd)
        .chain([0x20, 0x85, 0xa0, 0x1680])
        .chain(0x2000..=0x200a)
        .chain([0x2028, 0x2029, 0x202f, 0x205f, 0x3000])
        .collect();
    assert_eq!(found, expected);
}

#[test]
fn response_empty_body() {
    let response = Response::new(Status::CommandOk, vec![]);
    assert_eq!(response.as_string().unwrap(), "");
    assert_eq!(response.to_string(), "[200] ");
}

#[test]
fn response_of_unknown_status() {
    let response = Response::new(Status::Unknown, b"999 odd\r\n".to_vec());
    assert_eq!(response.to_string(), "[0] 999 odd");
}

#[test]
fn response_clone() {
    let response = Response::new(Status::CommandOk, b"200 ok\r\n".to_vec());
    let cloned = response.clone();
    assert_eq!(cloned.status, response.status);
    assert_eq!(cloned.body, response.body);
}

#[test]
fn mode_debug() {
    assert_eq!(format!("{:?}", Mode::Active), "Active");
    assert_eq!(format!("{:?}", Mode::Passive), "Passive");
    assert_eq!(format!("{:?}", Mode::ExtendedPassive), "ExtendedPassive");
}

#[test]
fn mode_clone_and_eq() {
    let mode = Mode::Passive;
    let cloned = mode;
    assert_eq!(mode, cloned);
    assert_ne!(Mode::Active, Mode::Passive);
    assert_ne!(Mode::ExtendedPassive, Mode::Passive);
}

#[test]
fn file_type_clone_and_eq() {
    let ft = FileType::Binary;
    let cloned = ft.clone();
    assert_eq!(ft, cloned);
    assert_ne!(FileType::Binary, FileType::Ascii(FormatControl::Default));
    assert_ne!(FileType::Image, FileType::Local(8));
}

#[test]
fn every_file_type_is_cloned_as_it_is() {
    let controls = [
        FormatControl::Default,
        FormatControl::NonPrint,
        FormatControl::Telnet,
        FormatControl::Asa,
    ];
    for control in controls {
        assert_eq!(control.clone(), control);
        for ft in [FileType::Ascii(control.clone()), FileType::Ebcdic(control.clone())] {
            assert_eq!(ft.clone(), ft);
        }
    }
    for ft in [FileType::Image, FileType::Binary, FileType::Local(7)] {
        assert_eq!(ft.clone(), ft);
    }
}

#[test]
fn format_control_ordering() {
    assert!(FormatControl::Default < FormatControl::NonPrint);
    assert!(FormatControl::NonPrint < FormatControl::Telnet);
    assert!(FormatControl::Telnet < FormatControl::Asa);
}

#[test]
fn fmt_format_control() {
    assert_eq!(FormatControl::Asa.to_string().as_str(), "C");
    assert_eq!(FormatControl::Telnet.to_string().as_str(), "T");
    assert_eq!(FormatControl::Default.to_string().as_str(), "N");
    assert_eq!(FormatControl::NonPrint.to_string().as_str(), "N");
}

#[test]
fn fmt_file_type() {
    assert_eq!(
        FileType::Ascii(FormatControl::Telnet).to_string().as_str(),
        "A T"
    );
    assert_eq!(FileType::Binary.to_string().as_str(), "I");
    assert_eq!(FileType::Image.to_string().as_str(), "I");
    assert_eq!(
        FileType::Ebcdic(FormatControl::Telnet).to_string().as_str(),
        "E T"
    );
    assert_eq!(FileType::Local(2).to_string().as_str(), "L 2");
}

#[test]
fn fmt_local_file_type_of_any_size() {
    assert_eq!(FileType::Local(0).to_string(), "L 0");
    assert_eq!(FileType::Local(36).to_string(), "L 36");
    assert_eq!(FileType::Local(255).to_string(), "L 255");
}
