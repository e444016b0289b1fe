use musicpd::command::{CommandList, CommandResponse};
use musicpd::protocol::{Dispatch, ParseResult};
use musicpd::records::Status;
use musicpd::response::parse_status_response;
use musicpd::types::{Decimal, Duration, State};

#[test]
fn test_parse_status_response() {
    let input = b"volume: 80
repeat: 1
random: 1
single: 0
consume: 0
playlist: 4
playlistlength: 1
mixrampdb: 0.000000
state: play
xfade: 1000000000
song: 0
songid: 9
time: 80:302
elapsed: 80.074
bitrate: 320
audio: 44100:24:2
nextsong: 0
nextsongid: 9
list_OK
";
    assert_eq!(
        parse_status_response(&input[..]),
        ParseResult::Done(
            input.len() - b"list_OK\n".len(),
            CommandResponse::Status(Status {
                volume: 80,
                repeat: true,
                random: true,
                single: false,
                consume: false,
                playlist: 4,
                playlist_length: 1,
                mix_ramp_db: Decimal { negative: false, digits: 0, scale: 6 },
                state: State::Play,
                crossfade: 1_000_000_000,
                song: 0,
                song_id: 9,
                elapsed: Duration::new(80, 74_000_000),
                duration: None,
                bitrate: 320,
                audio: (44100, 24, 2),
                next_song: 0,
                next_song_id: 9,
                updating_db: None,
                error: None,
            })
        )
    );
}

#[test]
fn command_list_dispatch() {
    let mut s_raw: Vec<u8> = Vec::new();
    let cmd_list = CommandList::new();
    cmd_list.dispatch(&mut s_raw);
    assert_eq!(
        std::str::from_utf8(&s_raw[..]).unwrap(),
        "command_list_ok_begin\ncommand_list_end\n"
    )
}
