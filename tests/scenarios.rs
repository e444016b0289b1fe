use musicpd::buffer::Buffer;
use musicpd::command::{Command, CommandList, CommandResponse};
use musicpd::protocol::{parse_error, parse_handshake, parse_time, Dispatch, Handshake, ParseResponse, ParseResult};
use musicpd::records::{MaybeStatus, Stats, Status};
use musicpd::types::{
    CmdError, CmdErrorType, Decimal, Duration, Range, ReplayGainMode, SingleOrRange, State, SubSystem,
    TagType,
};

const STATUS_LINES: &str = "volume: 80\nrepeat: 1\nrandom: 1\nsingle: 0\nconsume: 0\nplaylist: 4\nplaylistlength: 1\nmixrampdb: 0.000000\nstate: play\nxfade: 1000000000\nsong: 0\nsongid: 9\ntime: 80:302\nelapsed: 80.074\nbitrate: 320\naudio: 44100:24:2\nnextsong: 0\nnextsongid: 9\n";

fn scenario_status() -> Status {
    Status {
        volume: 80,
        repeat: true,
        random: true,
        single: false,
        consume: false,
        playlist: 4,
        playlist_length: 1,
        mix_ramp_db: Decimal { negative: false, digits: 0, scale: 6 },
        state: State::Play,
        crossfade: 1_000_000_000,
        song: 0,
        song_id: 9,
        elapsed: Duration::new(80, 74_000_000),
        duration: None,
        bitrate: 320,
        audio: (44100, 24, 2),
        next_song: 0,
        next_song_id: 9,
        updating_db: None,
        error: None,
    }
}

fn list_of(cmds: Vec<Command>) -> CommandList {
    let mut list = CommandList::new();
    for c in cmds {
        list.push(c);
    }
    list
}

fn wire(c: Command) -> String {
    let mut out = Vec::new();
    c.dispatch(&mut out);
    String::from_utf8(out).unwrap()
}

#[test]
fn status_scenario_decodes() {
    let reply = format!("{}OK\n", STATUS_LINES);
    assert_eq!(
        Command::Status.parse_response(reply.as_bytes()),
        ParseResult::Done(STATUS_LINES.len(), CommandResponse::Status(scenario_status()))
    );
    let list = list_of(vec![Command::Status]);
    let reply = format!("{}list_OK\nOK\n", STATUS_LINES);
    assert_eq!(
        list.parse_response(reply.as_bytes()),
        ParseResult::Done(reply.len(), vec![CommandResponse::Status(scenario_status())])
    );
}

#[test]
fn status_fields_in_any_order() {
    let mut lines: Vec<&str> = STATUS_LINES.lines().collect();
    lines.reverse();
    let reordered = format!("{}\nOK\n", lines.join("\n"));
    assert_eq!(
        Command::Status.parse_response(reordered.as_bytes()),
        ParseResult::Done(STATUS_LINES.len(), CommandResponse::Status(scenario_status()))
    );
}

#[test]
fn status_missing_required_field_fails() {
    let without_volume = format!("{}OK\n", &STATUS_LINES["volume: 80\n".len()..]);
    assert_eq!(Command::Status.parse_response(without_volume.as_bytes()), ParseResult::Error);
    let mut partial = MaybeStatus::default();
    partial.volume = Some(1);
    assert_eq!(MaybeStatus::try_into(&partial), None);
}

#[test]
fn status_optional_fields_are_read() {
    let reply = format!("{}duration: 302.214\nupdating_db: 7\nerror: disk full\nOK\n", STATUS_LINES);
    let mut expected = scenario_status();
    expected.duration = Some(Duration::new(302, 214_000_000));
    expected.updating_db = Some(7);
    expected.error = Some("disk full".to_owned());
    assert_eq!(
        Command::Status.parse_response(reply.as_bytes()),
        ParseResult::Done(reply.len() - 3, CommandResponse::Status(expected))
    );
}

#[test]
fn status_incomplete_until_a_line_ends() {
    assert_eq!(Command::Status.parse_response(b""), ParseResult::Incomplete);
    assert_eq!(Command::Status.parse_response(b"volume: 8"), ParseResult::Incomplete);
    assert_eq!(Command::Status.parse_response(b"volume: 256\nOK\n"), ParseResult::Error);
}

#[test]
fn stats_decode_and_timestamp_range() {
    let reply = "artists: 12\nalbums: 3\nsongs: 40\nuptime: 100\nplaytime: 5\ndb_playtime: 6000\ndb_update: 1431648000\nOK\n";
    let expected = Stats {
        artists: 12,
        albums: 3,
        songs: 40,
        uptime: Duration::from_secs(100),
        db_playtime: Duration::from_secs(6000),
        db_update: 1431648000,
        playtime: Duration::from_secs(5),
    };
    assert_eq!(
        Command::Stats.parse_response(reply.as_bytes()),
        ParseResult::Done(reply.len() - 3, CommandResponse::Stats(expected))
    );
    let far = reply.replace("1431648000", "9223372036854775807");
    assert_eq!(Command::Stats.parse_response(far.as_bytes()), ParseResult::Error);
}

#[test]
fn blank_and_pairs_replies() {
    assert_eq!(Command::Next.parse_response(b"OK\n"), ParseResult::Done(0, CommandResponse::Blank));
    assert_eq!(
        Command::CurrentSong.parse_response(b"OK\n"),
        ParseResult::Done(0, CommandResponse::Pairs(vec![]))
    );
    let reply = b"file: a.ogg\nTitle: Caf\xc3\xa9\nOK\n";
    assert_eq!(
        Command::CurrentSong.parse_response(&reply[..]),
        ParseResult::Done(
            reply.len() - 3,
            CommandResponse::Pairs(vec![
                ("file".to_owned(), "a.ogg".to_owned()),
                ("Title".to_owned(), "Café".to_owned()),
            ])
        )
    );
}

#[test]
fn list_framing_needs_one_marker_per_command() {
    let list = list_of(vec![Command::Next, Command::Stop]);
    let reply = b"list_OK\nlist_OK\nOK\n";
    assert_eq!(
        list.parse_response(&reply[..]),
        ParseResult::Done(19, vec![CommandResponse::Blank, CommandResponse::Blank])
    );
    assert_eq!(list.parse_response(b"list_OK\nOK\n"), ParseResult::Error);
    assert_eq!(list.parse_response(b"OK\nlist_OK\nlist_OK\n"), ParseResult::Error);
    assert_eq!(list.parse_response(b"list_OK\nlist_O"), ParseResult::Incomplete);
    assert_eq!(CommandList::new().parse_response(b"OK\n"), ParseResult::Done(3, vec![]));
}

#[test]
fn list_error_line_ends_the_list() {
    let list = list_of(vec![Command::Stop, Command::Play(10240), Command::Next]);
    let reply = b"list_OK\nACK [50@1] {play} song doesn't exist: \"10240\"\n";
    assert_eq!(
        list.parse_response(&reply[..]),
        ParseResult::Done(
            reply.len(),
            vec![
                CommandResponse::Blank,
                CommandResponse::Error(CmdError {
                    error_type: CmdErrorType::NoExist,
                    command_no: 1,
                    command_name: "play".to_owned(),
                    message_text: "song doesn't exist: \"10240\"".to_owned(),
                }),
            ]
        )
    );
}

#[test]
fn chunked_reply_decodes_as_whole() {
    let list = list_of(vec![Command::Status, Command::Next]);
    let reply = format!("{}list_OK\nlist_OK\nOK\ntrailing", STATUS_LINES);
    let whole = list.parse_response(reply.as_bytes());
    let mut buf = Buffer::with_block_size(1);
    let mut first = None;
    for b in reply.as_bytes() {
        buf.fetch(&[*b]);
        match buf.parse(&list) {
            ParseResult::Incomplete => {}
            other => {
                first = Some(other);
                break;
            }
        }
    }
    assert_eq!(first, Some(whole));
    assert_eq!(buf.data(), b"");
}

#[test]
fn buffer_parse_consumes_the_reply() {
    let mut buf = Buffer::new();
    buf.fetch(b"OK MPD 0.21.0\nlist_OK\n");
    match buf.parse(&Handshake) {
        ParseResult::Done(n, v) => {
            assert_eq!(n, 14);
            assert_eq!((v.major, v.minor, v.patch), (0, 21, 0));
        }
        other => panic!("unexpected {:?}", other),
    }
    assert_eq!(buf.data(), b"list_OK\n");
    assert_eq!(buf.len(), 22);
}

#[test]
fn handshake_versions() {
    match parse_handshake(b"OK MPD 0.23.5-beta+git\r\n") {
        ParseResult::Done(n, v) => {
            assert_eq!(n, 24);
            assert_eq!((v.major, v.minor, v.patch), (0, 23, 5));
            assert_eq!(v.pre, "beta");
            assert_eq!(v.build, "git");
        }
        other => panic!("unexpected {:?}", other),
    }
    assert_eq!(parse_handshake(b"OK MPD bogus\n"), ParseResult::Error);
    assert_eq!(parse_handshake(b"OK MP"), ParseResult::Incomplete);
    assert_eq!(parse_handshake(b"HELLO"), ParseResult::Error);
}

#[test]
fn error_codes() {
    let codes: [(&[u8], CmdErrorType); 12] = [
        (b"1", CmdErrorType::NotList),
        (b"2", CmdErrorType::Arg),
        (b"3", CmdErrorType::Password),
        (b"4", CmdErrorType::Permission),
        (b"5", CmdErrorType::Unknown),
        (b"50", CmdErrorType::NoExist),
        (b"51", CmdErrorType::PlaylistMax),
        (b"52", CmdErrorType::System),
        (b"53", CmdErrorType::PlaylistLoad),
        (b"54", CmdErrorType::UpdateAlready),
        (b"55", CmdErrorType::PlayerSync),
        (b"56", CmdErrorType::Exist),
    ];
    for (code, kind) in codes.iter() {
        assert_eq!(CmdErrorType::from_code(code), Some(*kind));
    }
    assert_eq!(CmdErrorType::from_code(b"6"), None);
    assert_eq!(CmdErrorType::from_code(b"57"), None);
    assert_eq!(CmdErrorType::from_code(b""), None);
    assert_eq!(parse_error(b"ACK [6@0] {x} y\n"), ParseResult::Error);
    assert_eq!(parse_error(b"ACK [5@0"), ParseResult::Incomplete);
    match parse_error(b"ACK [5@0] {} unknown command \"frob\"\n") {
        ParseResult::Done(_, e) => {
            assert_eq!(e.error_type, CmdErrorType::Unknown);
            assert_eq!(e.command_name, "");
        }
        other => panic!("unexpected {:?}", other),
    }
    assert_eq!(parse_error(b"ACK [50@1] {play} \xff\n"), ParseResult::Error);
}

#[test]
fn time_values() {
    assert_eq!(parse_time(b"80.074"), Some(Duration::new(80, 74_000_000)));
    assert_eq!(parse_time(b"1.123456789"), Some(Duration::new(1, 123_456_789)));
    assert_eq!(parse_time(b"1.1234567890"), None);
    assert_eq!(parse_time(b"80"), None);
}

#[test]
fn decimal_values() {
    assert_eq!(
        musicpd::protocol::parse_decimal(b"-17.5"),
        Some(Decimal { negative: true, digits: 175, scale: 1 })
    );
    assert_eq!(musicpd::protocol::parse_decimal(b"12"), Some(Decimal { negative: false, digits: 12, scale: 0 }));
    assert_eq!(musicpd::protocol::parse_decimal(b"1."), None);
    assert_eq!(musicpd::protocol::parse_decimal(b"nan"), None);
}

#[test]
fn command_wire_forms() {
    assert_eq!(wire(Command::Consume(true)), "consume 1\n");
    assert_eq!(wire(Command::MixRampDB(-17)), "mixrampdb -17\n");
    assert_eq!(wire(Command::MixRampDelay(None)), "mixrampdelay nan\n");
    assert_eq!(wire(Command::MixRampDelay(Some(3))), "mixrampdelay 3\n");
    assert_eq!(wire(Command::Volume(55)), "setvol 55\n");
    assert_eq!(wire(Command::ReplayGainMode(ReplayGainMode::Auto)), "replay_gain_mode auto\n");
    assert_eq!(
        wire(Command::Seek { song_position: 3, time: Duration::new(12, 500_000_000) }),
        "seek 3 12.500000000\n"
    );
    assert_eq!(wire(Command::SeekCurrent(Duration::from_secs(7))), "seekcur 7\n");
    assert_eq!(wire(Command::Idle(vec![SubSystem::Player, SubSystem::StoredPlaylist])), "idle player stored_playlist\n");
    assert_eq!(wire(Command::Idle(vec![])), "idle\n");
    assert_eq!(wire(Command::Delete(SingleOrRange::Range(Range { start: 3, end: None }))), "delete 3:\n");
    assert_eq!(wire(Command::Delete(SingleOrRange::from(4u32))), "delete 4\n");
    assert_eq!(wire(Command::Shuffle(Range { start: 1, end: Some(9) })), "shuffle 1:9\n");
    assert_eq!(
        wire(Command::AddId { uri: "a b.ogg".to_owned(), position: Some(2) }),
        "addid a b.ogg 2\n"
    );
    assert_eq!(
        wire(Command::Priority {
            priority: 255,
            songs: vec![SingleOrRange::Single(1), SingleOrRange::Range(Range { start: 4, end: Some(6) })],
        }),
        "prio 255 1 4:6\n"
    );
    assert_eq!(
        wire(Command::PriorityId { priority: 1, songs: vec!["7".to_owned(), "8".to_owned()] }),
        "prioid 1 7 8\n"
    );
    assert_eq!(
        wire(Command::Count { tag: (TagType::Genre, "Rock".to_owned()), group: Some(TagType::Artist) }),
        "count genre Rock group artist\n"
    );
    assert_eq!(wire(Command::GroupCount(TagType::MusicbrainzTrackId)), "count group musicbrainz_trackid\n");
    assert_eq!(
        wire(Command::AddTagId { id: "5".to_owned(), tag: (TagType::Comment, "x".to_owned()) }),
        "addtagid 5 comment x\n"
    );
    assert_eq!(wire(Command::Remove("old".to_owned())), "rm old\n");
    let list = list_of(vec![Command::Status, Command::Next]);
    let mut out = Vec::new();
    list.dispatch(&mut out);
    assert_eq!(out, b"command_list_ok_begin\nstatus\nnext\ncommand_list_end\n".to_vec());
}
