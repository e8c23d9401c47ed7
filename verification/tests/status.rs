use suppaftp::number::{decimal_text, parse_u32};
use suppaftp::Status;

#[test]
fn codes_of_statuses() {
    assert_eq!(Status::AboutToSend.code(), 150);
    assert_eq!(Status::CommandOk.code(), 200);
    assert_eq!(Status::System.code(), 211);
    assert_eq!(Status::Ready.code(), 220);
    assert_eq!(Status::ClosingDataConnection.code(), 226);
    assert_eq!(Status::RequestedFileActionOk.code(), 250);
    assert_eq!(Status::FileUnavailable.code(), 550);
    assert_eq!(Status::ExceededStorage.code(), 552);
    assert_eq!(Status::Unknown.code(), 0);
}

#[test]
fn status_is_found_from_its_code() {
    let mut known: usize = 0;
    for code in 0u32..2000 {
        let status = Status::from(code);
        if status == Status::Unknown {
            assert_eq!(status.code(), 0);
        } else {
            assert_eq!(status.code(), code);
            known += 1;
        }
    }
    assert_eq!(known, 46);
    assert_eq!(Status::from(u32::MAX), Status::Unknown);
}

#[test]
fn decimal_numbers() {
    for (value, text) in [
        (0, "0"),
        (7, "7"),
        (10, "10"),
        (905, "905"),
        (262144, "262144"),
        (u32::MAX, "4294967295"),
    ] {
        assert_eq!(decimal_text(value), text);
        assert_eq!(parse_u32(text.as_bytes()), Some(value));
    }
}

#[test]
fn parse_agrees_with_std() {
    let texts: [&[u8]; 20] = [
        b"", b"+", b"-", b"+0", b"-0", b"007", b"+12", b"++1", b"1+", b" 12", b"12 ", b"1_0",
        b"4294967295", b"4294967296", b"42949672950", b"00000000000000000001", b"\xff12",
        b"\xc3\xa912", b"2a0", b"/:0",
    ];
    for text in texts {
        let expected = std::str::from_utf8(text).ok().and_then(|text| text.parse::<u32>().ok());
        assert_eq!(parse_u32(text), expected, "{:?}", text);
    }
}
