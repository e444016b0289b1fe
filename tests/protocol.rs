use musicpd::protocol::{
    parse_audio, parse_decimal, parse_error, parse_handshake, parse_num_bool, parse_status_state,
    ParseResult,
};
use musicpd::response::parse_status_line;
use musicpd::types::{CmdError, CmdErrorType, State};
use musicpd::wire::parse_unsigned;

#[test]
fn it_works() {}

#[test]
fn handshake() {
    let i = b"OK MPD 0.12.2\n";
    let expected = semver::Version::parse("0.12.2").unwrap();
    match parse_handshake(&i[..]) {
        ParseResult::Done(n, v) => {
            assert_eq!(n, i.len());
            assert_eq!((v.major, v.minor, v.patch), (expected.major, expected.minor, expected.patch));
            assert_eq!(v.pre, expected.pre.as_str());
            assert_eq!(v.build, expected.build.as_str());
        }
        other => panic!("unexpected {:?}", other),
    }
}

#[test]
fn error() {
    let i = b"ACK [50@1] {play} song doesn't exist: \"10240\"\n";
    assert_eq!(
        parse_error(&i[..]),
        ParseResult::Done(
            i.len(),
            CmdError {
                error_type: CmdErrorType::NoExist,
                command_no: 1,
                command_name: "play".to_owned(),
                message_text: "song doesn't exist: \"10240\"".to_owned(),
            }
        )
    );
}

#[test]
fn num_bool() {
    let i = b"0";
    assert_eq!(parse_num_bool(&i[..]), ParseResult::Done(1, false));
    let i = b"1";
    assert_eq!(parse_num_bool(&i[..]), ParseResult::Done(1, true));
}

#[test]
fn f32() {
    let d = parse_decimal(&b"3.141"[..]).unwrap();
    let value = d.digits as f32 / 10f32.powi(d.scale as i32);
    assert_eq!(value, 3.141);
}

#[test]
fn test_parse_status_line() {
    let input = b"volume: 23\n";
    match parse_status_line(&input[..]) {
        ParseResult::Done(n, (name, value)) => {
            assert_eq!(n, input.len());
            assert_eq!(name, b"volume");
            assert_eq!(parse_unsigned(value, u32::MAX as u64), Some(23));
        }
        other => panic!("unexpected {:?}", other),
    }
}

#[test]
fn test_parse_status_state() {
    let input = b"play";
    assert_eq!(parse_status_state(&input[..]), Some(State::Play));
}

#[test]
fn test_parse_audio() {
    let input = b"44100:24:2";
    assert_eq!(parse_audio(&input[..]), Some((44100, 24, 2)));
}
