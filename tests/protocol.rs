use rotator::operation::{expect_calibrated, expect_done, expect_position, expect_version, parse_bool};
use rotator::reply::{accept_chunk, read_status, split_words, trim_text, validate_parse, ReadStep};
use rotator::numeral::{integer_string, thousandths_string};
use rotator::{build_request, Command, Direction, Error, Operation};

/// Feeds `chunks` to the reply reader as a port would hand them over,
/// followed by an idle read.
fn gather(chunks: &[&[u8]]) -> Result<String, Error> {
    let mut text = String::new();
    for chunk in chunks {
        match accept_chunk(&mut text, chunk) {
            ReadStep::Continue => {}
            ReadStep::Complete => return Ok(text),
            ReadStep::Invalid => return Err(Error::InvalidResponse),
        }
    }
    match accept_chunk(&mut text, &[]) {
        ReadStep::Complete => Ok(text),
        _ => panic!("an empty read must end the reply"),
    }
}

/// A device that echoes the request and then answers `status`.
fn echo_reply(request: &str, status: &str) -> String {
    let text = format!("{request}{status}\n");
    gather(&[text.as_bytes()]).unwrap()
}

#[test]
fn command_tokens() {
    let all = [
        (Command::DegreesVertical, "DVER"),
        (Command::DegreesHorizontal, "DHOR"),
        (Command::CalibrateVertical, "CALV"),
        (Command::CalibrateHorizontal, "CALH"),
        (Command::Movement, "MOVC"),
        (Command::MoveVerticalSteps, "MOVV"),
        (Command::MoveHorizontalSteps, "MOVH"),
        (Command::GetPosition, "GETP"),
        (Command::GetCalibrated, "GETC"),
        (Command::GetVersion, "VERS"),
        (Command::Halt, "HALT"),
    ];
    for (command, token) in all {
        assert_eq!(command.as_str(), token);
    }
}

#[test]
fn direction_tokens() {
    let all = [
        (Direction::Up, "UP"),
        (Direction::Down, "DN"),
        (Direction::StopVertical, "SV"),
        (Direction::Left, "LT"),
        (Direction::Right, "RT"),
        (Direction::StopHorizontal, "SH"),
    ];
    for (direction, token) in all {
        assert_eq!(direction.as_str(), token);
    }
}

#[test]
fn request_without_arguments() {
    assert_eq!(build_request(Command::Halt, &[]), "HALT\n");
    assert_eq!(build_request(Command::GetVersion, &[]), "VERS\n");
}

#[test]
fn request_with_arguments_in_order() {
    assert_eq!(build_request(Command::CalibrateVertical, &["SET"]), "CALV SET\n");
    assert_eq!(build_request(Command::Movement, &["a", "b", "c"]), "MOVC a b c\n");
}

#[test]
fn position_requests_use_three_decimals_and_negate_horizontal() {
    assert_eq!(Operation::SetPositionHorizontal(30_000).request(), "DHOR -30.000\n");
    assert_eq!(Operation::SetPositionVertical(30_000).request(), "DVER 30.000\n");
    assert_eq!(Operation::SetPositionHorizontal(-12_345).request(), "DHOR 12.345\n");
    assert_eq!(Operation::SetPositionVertical(-5).request(), "DVER -0.005\n");
    assert_eq!(Operation::SetPositionVertical(0).request(), "DVER 0.000\n");
}

#[test]
fn other_requests() {
    assert_eq!(Operation::CalibrateVertical(true).request(), "CALV SET\n");
    assert_eq!(Operation::CalibrateVertical(false).request(), "CALV\n");
    assert_eq!(Operation::CalibrateHorizontal.request(), "CALH\n");
    assert_eq!(Operation::MoveDirection(Direction::Left).request(), "MOVC LT\n");
    assert_eq!(Operation::MoveVerticalSteps(-250).request(), "MOVV -250\n");
    assert_eq!(Operation::MoveHorizontalSteps(i32::MAX).request(), "MOVH 2147483647\n");
    assert_eq!(Operation::MoveHorizontalSteps(i32::MIN).request(), "MOVH -2147483648\n");
    assert_eq!(Operation::Position.request(), "GETP\n");
    assert_eq!(Operation::Calibrated.request(), "GETC\n");
    assert_eq!(Operation::Version.request(), "VERS\n");
    assert_eq!(Operation::Halt.request(), "HALT\n");
}

#[test]
fn numerals() {
    assert_eq!(integer_string(0), "0");
    assert_eq!(integer_string(-7), "-7");
    assert_eq!(integer_string(1_000_000), "1000000");
    assert_eq!(thousandths_string(12_500), "12.500");
    assert_eq!(thousandths_string(-3_250), "-3.250");
    assert_eq!(thousandths_string(999), "0.999");
}

#[test]
fn zero_value_operations_succeed_on_echo_and_ok() {
    for op in [Operation::Halt, Operation::CalibrateHorizontal, Operation::SetPositionVertical(30_000)] {
        let request = op.request();
        let reply = echo_reply(&request, "OK");
        assert_eq!(expect_done(&reply, &request), Ok(()));
    }
}

#[test]
fn position_is_decoded_as_sent() {
    let request = Operation::Position.request();
    let reply = echo_reply(&request, "OK 12.500 -3.250");
    let (v, h) = expect_position(&reply, &request).unwrap();
    assert_eq!((v.as_str(), h.as_str()), ("12.500", "-3.250"));
    // The horizontal value is the device's own: it is not negated back.
    let v: f32 = v.parse().unwrap();
    let h: f32 = h.parse().unwrap();
    assert_eq!((v, h), (12.5, -3.25));
}

#[test]
fn position_value_count() {
    let request = Operation::Position.request();
    let none = echo_reply(&request, "OK");
    assert_eq!(expect_position(&none, &request), Err(Error::ExpectedValue));
    let one = echo_reply(&request, "OK 1.000");
    assert_eq!(expect_position(&one, &request), Err(Error::InvalidResponse));
    let three = echo_reply(&request, "OK 1 2 3");
    assert_eq!(expect_position(&three, &request), Err(Error::InvalidResponse));
}

#[test]
fn calibrated_is_decoded() {
    let request = Operation::Calibrated.request();
    assert_eq!(expect_calibrated(&echo_reply(&request, "OK true"), &request), Ok(true));
    assert_eq!(expect_calibrated(&echo_reply(&request, "OK false"), &request), Ok(false));
    assert!(matches!(
        expect_calibrated(&echo_reply(&request, "OK maybe"), &request),
        Err(Error::ParseError(_))
    ));
    assert_eq!(
        expect_calibrated(&echo_reply(&request, "OK"), &request),
        Err(Error::ExpectedValue)
    );
    assert_eq!(
        expect_calibrated(&echo_reply(&request, "OK true false"), &request),
        Err(Error::InvalidResponse)
    );
}

#[test]
fn bool_literals() {
    assert_eq!(parse_bool("true"), Ok(true));
    assert_eq!(parse_bool("false"), Ok(false));
    assert_eq!(
        parse_bool("True"),
        Err(Error::ParseError("provided string was not `true` or `false`".to_string()))
    );
    assert!(matches!(parse_bool(""), Err(Error::ParseError(_))));
}

#[test]
fn version_is_first_value() {
    let request = Operation::Version.request();
    let reply = echo_reply(&request, "OK v1.2.3 extra");
    assert_eq!(expect_version(&reply, &request), Ok("v1.2.3".to_string()));
    let empty = echo_reply(&request, "OK ");
    assert_eq!(expect_version(&empty, &request), Err(Error::ExpectedValue));
}

#[test]
fn wrong_echo_is_invalid() {
    let reply = gather(&[b"WRONG\nOK\n"]).unwrap();
    for op in [
        Operation::Halt,
        Operation::Position,
        Operation::Calibrated,
        Operation::Version,
        Operation::MoveDirection(Direction::Up),
    ] {
        let request = op.request();
        assert_eq!(validate_parse(&reply, &request), Err(Error::InvalidResponse));
    }
    let request = Operation::Position.request();
    assert_eq!(expect_position(&reply, &request), Err(Error::InvalidResponse));
}

#[test]
fn device_error_carries_message() {
    let request = Operation::Halt.request();
    let reply = echo_reply(&request, "ERR motor stalled");
    assert_eq!(
        expect_done(&reply, &request),
        Err(Error::ResponseError("motor stalled".to_string()))
    );
    let request = Operation::Version.request();
    let reply = echo_reply(&request, "ERR motor stalled");
    assert_eq!(
        expect_version(&reply, &request),
        Err(Error::ResponseError("motor stalled".to_string()))
    );
}

#[test]
fn silent_device_is_invalid() {
    let reply = gather(&[]).unwrap();
    assert_eq!(reply, "");
    for op in [Operation::Halt, Operation::Position, Operation::Calibrated, Operation::Version] {
        let request = op.request();
        assert_eq!(validate_parse(&reply, &request), Err(Error::InvalidResponse));
    }
}

#[test]
fn malformed_replies() {
    let request = Operation::Halt.request();
    // Only the echo.
    assert_eq!(validate_parse("HALT\n", &request), Err(Error::InvalidResponse));
    assert_eq!(validate_parse("HALT", &request), Err(Error::InvalidResponse));
    // Unknown status word.
    assert_eq!(validate_parse("HALT\nOKAY\n", &request), Err(Error::InvalidResponse));
    // ERR without a message.
    assert_eq!(validate_parse("HALT\nERR\n", &request), Err(Error::InvalidResponse));
    // A status line without its terminator is still a line.
    assert_eq!(validate_parse("HALT\nOK", &request), Ok(vec![]));
    // Lines after the status are not read.
    assert_eq!(
        validate_parse("HALT\nOK 1\ngarbage\n", &request),
        Ok(vec!["1".to_string()])
    );
}

#[test]
fn status_line_values() {
    assert_eq!(
        read_status("OK  a\tb \r c"),
        Ok(vec!["a".to_string(), "b".to_string(), "c".to_string()])
    );
    assert_eq!(
        read_status("ERR out of range: 400"),
        Err(Error::ResponseError("out of range: 400".to_string()))
    );
    assert_eq!(read_status(""), Err(Error::InvalidResponse));
    assert_eq!(split_words("  x  yz "), vec!["x".to_string(), "yz".to_string()]);
    assert_eq!(split_words(""), Vec::<String>::new());
}

#[test]
fn reply_reader_decodes_text_chunks() {
    let mut text = String::new();
    assert_eq!(accept_chunk(&mut text, "GETP\nOK ".as_bytes()), ReadStep::Continue);
    assert_eq!(accept_chunk(&mut text, "é1 2\n".as_bytes()), ReadStep::Continue);
    assert_eq!(text, "GETP\nOK é1 2\n");
    assert_eq!(accept_chunk(&mut text, &[]), ReadStep::Complete);
    assert_eq!(text, "GETP\nOK é1 2\n");
}

#[test]
fn reply_reader_rejects_bytes_that_are_not_text() {
    let mut text = String::from("HALT\n");
    assert_eq!(accept_chunk(&mut text, &[0x4f, 0xff, 0x4b]), ReadStep::Invalid);
    assert_eq!(text, "HALT\n");
    // A character split across two reads is not put back together.
    let bytes = "é".as_bytes();
    assert_eq!(accept_chunk(&mut text, &bytes[..1]), ReadStep::Invalid);
    assert_eq!(gather(&[b"HALT\n", &[0xc3]]), Err(Error::InvalidResponse));
}

#[test]
fn echo_is_compared_with_the_trimmed_request() {
    let request = build_request(Command::Halt, &[""]);
    assert_eq!(request, "HALT \n");
    assert_eq!(validate_parse("HALT \nOK\n", &request), Err(Error::InvalidResponse));
    assert_eq!(validate_parse("HALT\nOK\n", &request), Ok(vec![]));
    assert_eq!(validate_parse("HALT\nOK \n", &request), Ok(vec![]));
    assert_eq!(validate_parse("HALT\nOK 1\n", &request), Ok(vec!["1".to_string()]));
    assert_eq!(
        validate_parse("HALT\nERR x\n", &request),
        Err(Error::ResponseError("x".to_string()))
    );
}

#[test]
fn trimming_matches_std() {
    for text in ["", "   ", "\u{3000} a b\t\n", "x", "\u{85}GETP\u{2029}", "\r\nMOVC UP \u{a0}"] {
        assert_eq!(trim_text(text), text.trim());
    }
}
