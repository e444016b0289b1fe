//! Decoding of the replies that carry `name: value` lines: the status
//! record, the stats record, and plain lists of pairs.
use vstd::prelude::*;
use crate::command::{CommandResponse, CommandResponseView};
use crate::protocol::{
    ParseResult, bytes_eq, audio_of, bool_of, bool_value, decimal_of, no_cr, has_no_cr, parse_audio,
    parse_decimal, parse_status_state, parse_time, state_of, time_of,
};
use crate::command::pairs_view;
use crate::records::{MaybeStats, MaybeStatus, MaybeStatusView, Stats, Status};
use crate::types::{Decimal, Duration, State};
use crate::wire::{
    find_byte, index_of, lemma_index_of, parse_signed, parse_unsigned, signed_number, text_from,
    text_of, unsigned_number, utf8,
};

verus! {

/// A line `<name>: <value>` (without its newline) split into name and
/// value; the name ends at the first colon, and no carriage return may
/// appear.
pub open spec fn split_field(l: Seq<u8>) -> Option<(Seq<u8>, Seq<u8>)> {
    if no_cr(l) {
        match index_of(l, 58u8) {
            Some(k) => if k + 1 < l.len() && l[k + 1 as int] == 32u8 {
                Some((l.take(k as int), l.skip(k + 2 as int)))
            } else {
                None
            },
            None => None,
        }
    } else {
        None
    }
}

/// Splits a field line (without its newline) into name and value.
pub fn split_field_line(l: &[u8]) -> (r: Option<(&[u8], &[u8])>)
    ensures
        match split_field(l@) {
            Some((k, v)) => match r {
                Some((a, b)) => a@ == k && b@ == v,
                None => false,
            },
            None => r is None,
        },
{
    if !has_no_cr(l) {
        return None;
    }
    match find_byte(l, 58) {
        Some(k) => {
            proof {
                lemma_index_of(l@, 58u8);
            }
            assert(k < l.len());
            if k + 1 < l.len() && l[k + 1] == 32u8 {
                let v = &l[k + 2..l.len()];
                assert(v@ =~= l@.skip(k + 2 as int));
                Some((&l[0..k], v))
            } else {
                None
            }
        },
        None => None,
    }
}

/// Reads one complete line `<name>: <value>\n`, giving its name and value.
pub fn parse_status_line(i: &[u8]) -> (r: ParseResult<(&[u8], &[u8])>)
    ensures
        match index_of(i@, 10u8) {
            None => r is Incomplete,
            Some(p) => match split_field(i@.take(p as int)) {
                Some((k, v)) => match r {
                    ParseResult::Done(n, (a, b)) => n == p + 1 && a@ == k && b@ == v,
                    _ => false,
                },
                None => r is Error,
            },
        },
{
    match find_byte(i, 10) {
        None => ParseResult::Incomplete,
        Some(p) => {
            proof {
                lemma_index_of(i@, 10u8);
            }
            assert(p < i.len());
            match split_field_line(&i[0..p]) {
                Some((k, v)) => ParseResult::Done(p + 1, (k, v)),
                None => ParseResult::Error,
            }
        },
    }
}

/// Reads the lines of a reply one by one while `step` accepts them,
/// threading an accumulator through: how many bytes the accepted lines
/// take and the final accumulator, or `None` when the input ends before a
/// line that `step` refuses.
#[verifier::opaque]
pub open spec fn fields_spec<A>(i: Seq<u8>, acc: A, step: spec_fn(Seq<u8>, A) -> Option<A>) -> Option<(nat, A)>
    decreases i.len(),
{
    match index_of(i, 10u8) {
        None => None,
        Some(p) => if p < i.len() {
            match step(i.take(p as int), acc) {
                Some(next) => match fields_spec(i.skip(p + 1 as int), next, step) {
                    Some((n, last)) => Some((n + p + 1, last)),
                    None => None,
                },
                None => Some((0, acc)),
            }
        } else {
            None
        },
    }
}

pub open spec fn shifted<A>(r: Option<(nat, A)>, by: nat) -> Option<(nat, A)> {
    match r {
        Some((n, a)) => Some((n + by, a)),
        None => None,
    }
}

proof fn lemma_fields_step<A>(i: Seq<u8>, pos: nat, acc: A, next: A, p: nat, step: spec_fn(Seq<u8>, A) -> Option<A>)
    requires
        pos <= i.len(),
        index_of(i.skip(pos as int), 10u8) == Some(p),
        step(i.skip(pos as int).take(p as int), acc) == Some(next),
    ensures
        pos + p + 1 <= i.len(),
        shifted(fields_spec(i.skip(pos as int), acc, step), pos) == shifted(
            fields_spec(i.skip((pos + p + 1) as int), next, step),
            pos + p + 1,
        ),
{
    reveal(fields_spec);
    lemma_index_of(i.skip(pos as int), 10u8);
    assert(i.skip(pos as int).skip(p + 1 as int) =~= i.skip((pos + p + 1) as int));
}

pub proof fn lemma_fields_len<A>(i: Seq<u8>, acc: A, step: spec_fn(Seq<u8>, A) -> Option<A>)
    ensures
        fields_spec(i, acc, step) matches Some((n, _)) ==> n <= i.len(),
    decreases i.len(),
{
    reveal(fields_spec);
    if let Some(p) = index_of(i, 10u8) {
        if p < i.len() {
            if let Some(next) = step(i.take(p as int), acc) {
                lemma_fields_len(i.skip(p + 1 as int), next, step);
            }
        }
    }
}

/// One item of a status reply.
pub enum StatusItem {
    Volume(u8),
    Repeat(bool),
    Random(bool),
    Single(bool),
    Consume(bool),
    Playlist(u32),
    PlaylistLength(u32),
    MixRampDb(Decimal),
    State(State),
    Crossfade(u32),
    Song(u32),
    SongId(u32),
    Time,
    Elapsed(Duration),
    Bitrate(u32),
    Duration(Duration),
    Audio((u32, u32, u32)),
    NextSong(u32),
    NextSongId(u32),
    UpdatingDb(u32),
    Error(Seq<char>),
}

/// The item that a status line's name and value stand for.
#[verifier::opaque]
pub open spec fn status_item(k: Seq<u8>, v: Seq<u8>) -> Option<StatusItem> {
    if k == utf8("volume"@) {
        match unsigned_number(v, 255) {
            Some(x) => Some(StatusItem::Volume(x as u8)),
            None => None,
        }
    } else if k == utf8("repeat"@) {
        match bool_of(v) {
            Some(x) => Some(StatusItem::Repeat(x)),
            None => None,
        }
    } else if k == utf8("random"@) {
        match bool_of(v) {
            Some(x) => Some(StatusItem::Random(x)),
            None => None,
        }
    } else if k == utf8("single"@) {
        match bool_of(v) {
            Some(x) => Some(StatusItem::Single(x)),
            None => None,
        }
    } else if k == utf8("consume"@) {
        match bool_of(v) {
            Some(x) => Some(StatusItem::Consume(x)),
            None => None,
        }
    } else if k == utf8("playlist"@) {
        match unsigned_number(v, u32::MAX as nat) {
            Some(x) => Some(StatusItem::Playlist(x as u32)),
            None => None,
        }
    } else if k == utf8("playlistlength"@) {
        match unsigned_number(v, u32::MAX as nat) {
            Some(x) => Some(StatusItem::PlaylistLength(x as u32)),
            None => None,
        }
    } else if k == utf8("mixrampdb"@) {
        match decimal_of(v) {
            Some(x) => Some(StatusItem::MixRampDb(x)),
            None => None,
        }
    } else if k == utf8("state"@) {
        match state_of(v) {
            Some(x) => Some(StatusItem::State(x)),
            None => None,
        }
    } else if k == utf8("xfade"@) {
        match unsigned_number(v, u32::MAX as nat) {
            Some(x) => Some(StatusItem::Crossfade(x as u32)),
            None => None,
        }
    } else if k == utf8("song"@) {
        match unsigned_number(v, u32::MAX as nat) {
            Some(x) => Some(StatusItem::Song(x as u32)),
            None => None,
        }
    } else if k == utf8("songid"@) {
        match unsigned_number(v, u32::MAX as nat) {
            Some(x) => Some(StatusItem::SongId(x as u32)),
            None => None,
        }
    } else if k == utf8("time"@) {
        Some(StatusItem::Time)
    } else if k == utf8("elapsed"@) {
        match time_of(v) {
            Some(x) => Some(StatusItem::Elapsed(x)),
            None => None,
        }
    } else if k == utf8("bitrate"@) {
        match unsigned_number(v, u32::MAX as nat) {
            Some(x) => Some(StatusItem::Bitrate(x as u32)),
            None => None,
        }
    } else if k == utf8("duration"@) {
        match time_of(v) {
            Some(x) => Some(StatusItem::Duration(x)),
            None => None,
        }
    } else if k == utf8("audio"@) {
        match audio_of(v) {
            Some(x) => Some(StatusItem::Audio(x)),
            None => None,
        }
    } else if k == utf8("nextsong"@) {
        match unsigned_number(v, u32::MAX as nat) {
            Some(x) => Some(StatusItem::NextSong(x as u32)),
            None => None,
        }
    } else if k == utf8("nextsongid"@) {
        match unsigned_number(v, u32::MAX as nat) {
            Some(x) => Some(StatusItem::NextSongId(x as u32)),
            None => None,
        }
    } else if k == utf8("updating_db"@) {
        match unsigned_number(v, u32::MAX as nat) {
            Some(x) => Some(StatusItem::UpdatingDb(x as u32)),
            None => None,
        }
    } else if k == utf8("error"@) {
        match text_of(v) {
            Some(x) => Some(StatusItem::Error(x)),
            None => None,
        }
    } else {
        None
    }
}

/// The accumulator after one item.
pub open spec fn apply_item(s: MaybeStatusView, it: StatusItem) -> MaybeStatusView {
    match it {
        StatusItem::Volume(x) => MaybeStatusView { volume: Some(x), ..s },
        StatusItem::Repeat(x) => MaybeStatusView { repeat: Some(x), ..s },
        StatusItem::Random(x) => MaybeStatusView { random: Some(x), ..s },
        StatusItem::Single(x) => MaybeStatusView { single: Some(x), ..s },
        StatusItem::Consume(x) => MaybeStatusView { consume: Some(x), ..s },
        StatusItem::Playlist(x) => MaybeStatusView { playlist: Some(x), ..s },
        StatusItem::PlaylistLength(x) => MaybeStatusView { playlist_length: Some(x), ..s },
        StatusItem::MixRampDb(x) => MaybeStatusView { mix_ramp_db: Some(x), ..s },
        StatusItem::State(x) => MaybeStatusView { state: Some(x), ..s },
        StatusItem::Crossfade(x) => MaybeStatusView { crossfade: Some(x), ..s },
        StatusItem::Song(x) => MaybeStatusView { song: Some(x), ..s },
        StatusItem::SongId(x) => MaybeStatusView { song_id: Some(x), ..s },
        StatusItem::Time => s,
        StatusItem::Elapsed(x) => MaybeStatusView { elapsed: Some(x), ..s },
        StatusItem::Bitrate(x) => MaybeStatusView { bitrate: Some(x), ..s },
        StatusItem::Duration(x) => MaybeStatusView { duration: Some(x), ..s },
        StatusItem::Audio(x) => MaybeStatusView { audio: Some(x), ..s },
        StatusItem::NextSong(x) => MaybeStatusView { next_song: Some(x), ..s },
        StatusItem::NextSongId(x) => MaybeStatusView { next_song_id: Some(x), ..s },
        StatusItem::UpdatingDb(x) => MaybeStatusView { updating_db: Some(x), ..s },
        StatusItem::Error(x) => MaybeStatusView { error: Some(x), ..s },
    }
}

/// One line of a status reply, applied to the accumulator.
pub open spec fn status_step(l: Seq<u8>, s: MaybeStatusView) -> Option<MaybeStatusView> {
    match split_field(l) {
        Some((k, v)) => match status_item(k, v) {
            Some(it) => Some(apply_item(s, it)),
            None => None,
        },
        None => None,
    }
}

/// The status that a reply holds: its field lines are read until the first
/// line that is no status field; the status must then be complete.
pub open spec fn status_spec(i: Seq<u8>) -> ParseResult<CommandResponseView> {
    match fields_spec(i, MaybeStatusView::empty(), |l: Seq<u8>, s: MaybeStatusView| status_step(l, s)) {
        None => ParseResult::Incomplete,
        Some((n, s)) => match s.finish() {
            Some(st) => ParseResult::Done(n as usize, CommandResponseView::Status(st)),
            None => ParseResult::Error,
        },
    }
}

/// Applies one status field, given as name and value, to the accumulator.
/// Returns false, and leaves it as it was, when the line is no status
/// field.
pub fn status_field(k: &[u8], v: &[u8], acc: &mut MaybeStatus) -> (r: bool)
    ensures
        match status_item(k@, v@) {
            Some(it) => r && final(acc)@ == apply_item(old(acc)@, it),
            None => !r && final(acc)@ == old(acc)@,
        },
{
    reveal(status_item);
    if bytes_eq(k, "volume".as_bytes()) {
        match parse_unsigned(v, 255) {
            Some(x) => {
                acc.volume = Some(x as u8);
                true
            },
            None => false,
        }
    } else if bytes_eq(k, "repeat".as_bytes()) {
        match bool_value(v) {
            Some(x) => {
                acc.repeat = Some(x);
                true
            },
            None => false,
        }
    } else if bytes_eq(k, "random".as_bytes()) {
        match bool_value(v) {
            Some(x) => {
                acc.random = Some(x);
                true
            },
            None => false,
        }
    } else if bytes_eq(k, "single".as_bytes()) {
        match bool_value(v) {
            Some(x) => {
                acc.single = Some(x);
                true
            },
            None => false,
        }
    } else if bytes_eq(k, "consume".as_bytes()) {
        match bool_value(v) {
            Some(x) => {
                acc.consume = Some(x);
                true
            },
            None => false,
        }
    } else if bytes_eq(k, "playlist".as_bytes()) {
        match parse_unsigned(v, u32::MAX as u64) {
            Some(x) => {
                acc.playlist = Some(x as u32);
                true
            },
            None => false,
        }
    } else if bytes_eq(k, "playlistlength".as_bytes()) {
        match parse_unsigned(v, u32::MAX as u64) {
            Some(x) => {
                acc.playlist_length = Some(x as u32);
                true
            },
            None => false,
        }
    } else if bytes_eq(k, "mixrampdb".as_bytes()) {
        match parse_decimal(v) {
            Some(x) => {
                acc.mix_ramp_db = Some(x);
                true
            },
            None => false,
        }
    } else if bytes_eq(k, "state".as_bytes()) {
        match parse_status_state(v) {
            Some(x) => {
                acc.state = Some(x);
                true
            },
            None => false,
        }
    } else if bytes_eq(k, "xfade".as_bytes()) {
        match parse_unsigned(v, u32::MAX as u64) {
            Some(x) => {
                acc.crossfade = Some(x as u32);
                true
            },
            None => false,
        }
    } else if bytes_eq(k, "song".as_bytes()) {
        match parse_unsigned(v, u32::MAX as u64) {
            Some(x) => {
                acc.song = Some(x as u32);
                true
            },
            None => false,
        }
    } else if bytes_eq(k, "songid".as_bytes()) {
        match parse_unsigned(v, u32::MAX as u64) {
            Some(x) => {
                acc.song_id = Some(x as u32);
                true
            },
            None => false,
        }
    } else if bytes_eq(k, "time".as_bytes()) {
        true
    } else if bytes_eq(k, "elapsed".as_bytes()) {
        match parse_time(v) {
            Some(x) => {
                acc.elapsed = Some(x);
                true
            },
            None => false,
        }
    } else if bytes_eq(k, "bitrate".as_bytes()) {
        match parse_unsigned(v, u32::MAX as u64) {
            Some(x) => {
                acc.bitrate = Some(x as u32);
                true
            },
            None => false,
        }
    } else if bytes_eq(k, "duration".as_bytes()) {
        match parse_time(v) {
            Some(x) => {
                acc.duration = Some(x);
                true
            },
            None => false,
        }
    } else if bytes_eq(k, "audio".as_bytes()) {
        match parse_audio(v) {
            Some(x) => {
                acc.audio = Some(x);
                true
            },
            None => false,
        }
    } else if bytes_eq(k, "nextsong".as_bytes()) {
        match parse_unsigned(v, u32::MAX as u64) {
            Some(x) => {
                acc.next_song = Some(x as u32);
                true
            },
            None => false,
        }
    } else if bytes_eq(k, "nextsongid".as_bytes()) {
        match parse_unsigned(v, u32::MAX as u64) {
            Some(x) => {
                acc.next_song_id = Some(x as u32);
                true
            },
            None => false,
        }
    } else if bytes_eq(k, "updating_db".as_bytes()) {
        match parse_unsigned(v, u32::MAX as u64) {
            Some(x) => {
                acc.updating_db = Some(x as u32);
                true
            },
            None => false,
        }
    } else if bytes_eq(k, "error".as_bytes()) {
        match text_from(v) {
            Some(x) => {
                acc.error = Some(x);
                true
            },
            None => false,
        }
    } else {
        false
    }
}

/// Decodes a status reply: field lines up to the first line that is no
/// status field, which is left in the input.
pub fn parse_status_response(i: &[u8]) -> (r: ParseResult<CommandResponse>)
    ensures
        r@ == status_spec(i@),
        r matches ParseResult::Done(n, _) ==> n <= i@.len(),
{
    reveal(fields_spec);
    let ghost step = |l: Seq<u8>, s: MaybeStatusView| status_step(l, s);
    let mut acc = MaybeStatus::default();
    let mut pos: usize = 0;
    assert(i@.skip(0) =~= i@);
    loop
        invariant
            pos <= i@.len(),
            step == (|l: Seq<u8>, s: MaybeStatusView| status_step(l, s)),
            fields_spec(i@, MaybeStatusView::empty(), step) == shifted(
                fields_spec(i@.skip(pos as int), acc@, step),
                pos as nat,
            ),
        decreases i@.len() - pos,
    {
        reveal(fields_spec);
        let rest = &i[pos..i.len()];
        assert(rest@ =~= i@.skip(pos as int));
        let p = match find_byte(rest, 10) {
            Some(p) => p,
            None => {
                return ParseResult::Incomplete;
            },
        };
        proof {
            lemma_index_of(rest@, 10u8);
        }
        let line = &rest[0..p];
        let ghost before = acc@;
        let accepted = match split_field_line(line) {
            Some((k, v)) => status_field(k, v, &mut acc),
            None => false,
        };
        if !accepted {
            assert(step(rest@.take(p as int), before) is None);
            return match MaybeStatus::try_into(&acc) {
                Some(st) => ParseResult::Done(pos, CommandResponse::Status(st)),
                None => ParseResult::Error,
            };
        }
        proof {
            lemma_fields_step(i@, pos as nat, before, acc@, p as nat, step);
        }
        pos = pos + p + 1;
    }
}


pub uninterp spec fn utc_timestamp_valid(secs: int) -> bool;

/// Relies on chrono's DateTime::<Utc>::from_timestamp: whether a count of
/// seconds since the Unix epoch is a date that chrono can represent
/// depends on the count alone.
#[verifier::external_body]
fn timestamp_in_range(secs: i64) -> (r: bool)
    ensures
        r == utc_timestamp_valid(secs as int),
{
    match chrono::DateTime::<chrono::Utc>::from_timestamp(secs, 0) {
        Some(_) => true,
        None => false,
    }
}

/// The accumulator after one stats line, given as name and value.
pub open spec fn stats_item(k: Seq<u8>, v: Seq<u8>, s: MaybeStats) -> Option<MaybeStats> {
    if k == utf8("artists"@) {
        match unsigned_number(v, u64::MAX as nat) {
            Some(x) => Some(MaybeStats { artists: Some(x as u64), ..s }),
            None => None,
        }
    } else if k == utf8("albums"@) {
        match unsigned_number(v, u64::MAX as nat) {
            Some(x) => Some(MaybeStats { albums: Some(x as u64), ..s }),
            None => None,
        }
    } else if k == utf8("songs"@) {
        match unsigned_number(v, u64::MAX as nat) {
            Some(x) => Some(MaybeStats { songs: Some(x as u64), ..s }),
            None => None,
        }
    } else if k == utf8("uptime"@) {
        match unsigned_number(v, u64::MAX as nat) {
            Some(x) => Some(MaybeStats { uptime: Some(Duration { secs: x as u64, nanos: 0 }), ..s }),
            None => None,
        }
    } else if k == utf8("db_playtime"@) {
        match unsigned_number(v, u64::MAX as nat) {
            Some(x) => Some(MaybeStats { db_playtime: Some(Duration { secs: x as u64, nanos: 0 }), ..s }),
            None => None,
        }
    } else if k == utf8("db_update"@) {
        match signed_number(v) {
            Some(x) => if utc_timestamp_valid(x) {
                Some(MaybeStats { db_update: Some(x as i64), ..s })
            } else {
                None
            },
            None => None,
        }
    } else if k == utf8("playtime"@) {
        match unsigned_number(v, u64::MAX as nat) {
            Some(x) => Some(MaybeStats { playtime: Some(Duration { secs: x as u64, nanos: 0 }), ..s }),
            None => None,
        }
    } else {
        None
    }
}

/// One line of a stats reply, applied to the accumulator.
pub open spec fn stats_step(l: Seq<u8>, s: MaybeStats) -> Option<MaybeStats> {
    match split_field(l) {
        Some((k, v)) => stats_item(k, v, s),
        None => None,
    }
}

/// The stats that a reply holds: its field lines are read until the first
/// line that is no stats field; the stats must then be complete.
pub open spec fn stats_spec(i: Seq<u8>) -> ParseResult<CommandResponseView> {
    match fields_spec(i, MaybeStats::empty(), |l: Seq<u8>, s: MaybeStats| stats_step(l, s)) {
        None => ParseResult::Incomplete,
        Some((n, s)) => match s.finish() {
            Some(st) => ParseResult::Done(n as usize, CommandResponseView::Stats(st)),
            None => ParseResult::Error,
        },
    }
}

/// Applies one stats field, given as name and value, to the accumulator.
/// Returns false, and leaves it as it was, when the line is no stats field.
pub fn stats_field(k: &[u8], v: &[u8], acc: &mut MaybeStats) -> (r: bool)
    ensures
        match stats_item(k@, v@, *old(acc)) {
            Some(s) => r && *final(acc) == s,
            None => !r && *final(acc) == *old(acc),
        },
{
    if bytes_eq(k, "artists".as_bytes()) {
        match parse_unsigned(v, u64::MAX) {
            Some(x) => {
                acc.artists = Some(x);
                true
            },
            None => false,
        }
    } else if bytes_eq(k, "albums".as_bytes()) {
        match parse_unsigned(v, u64::MAX) {
            Some(x) => {
                acc.albums = Some(x);
                true
            },
            None => false,
        }
    } else if bytes_eq(k, "songs".as_bytes()) {
        match parse_unsigned(v, u64::MAX) {
            Some(x) => {
                acc.songs = Some(x);
                true
            },
            None => false,
        }
    } else if bytes_eq(k, "uptime".as_bytes()) {
        match parse_unsigned(v, u64::MAX) {
            Some(x) => {
                acc.uptime = Some(Duration::from_secs(x));
                true
            },
            None => false,
        }
    } else if bytes_eq(k, "db_playtime".as_bytes()) {
        match parse_unsigned(v, u64::MAX) {
            Some(x) => {
                acc.db_playtime = Some(Duration::from_secs(x));
                true
            },
            None => false,
        }
    } else if bytes_eq(k, "db_update".as_bytes()) {
        match parse_signed(v) {
            Some(x) => {
                if timestamp_in_range(x) {
                    acc.db_update = Some(x);
                    true
                } else {
                    false
                }
            },
            None => false,
        }
    } else if bytes_eq(k, "playtime".as_bytes()) {
        match parse_unsigned(v, u64::MAX) {
            Some(x) => {
                acc.playtime = Some(Duration::from_secs(x));
                true
            },
            None => false,
        }
    } else {
        false
    }
}

/// Decodes a stats reply: field lines up to the first line that is no
/// stats field, which is left in the input.
pub fn parse_stats_response(i: &[u8]) -> (r: ParseResult<CommandResponse>)
    ensures
        r@ == stats_spec(i@),
        r matches ParseResult::Done(n, _) ==> n <= i@.len(),
{
    reveal(fields_spec);
    let ghost step = |l: Seq<u8>, s: MaybeStats| stats_step(l, s);
    let mut acc = MaybeStats::default();
    let mut pos: usize = 0;
    assert(i@.skip(0) =~= i@);
    loop
        invariant
            pos <= i@.len(),
            step == (|l: Seq<u8>, s: MaybeStats| stats_step(l, s)),
            fields_spec(i@, MaybeStats::empty(), step) == shifted(
                fields_spec(i@.skip(pos as int), acc, step),
                pos as nat,
            ),
        decreases i@.len() - pos,
    {
        reveal(fields_spec);
        let rest = &i[pos..i.len()];
        assert(rest@ =~= i@.skip(pos as int));
        let p = match find_byte(rest, 10) {
            Some(p) => p,
            None => {
                return ParseResult::Incomplete;
            },
        };
        proof {
            lemma_index_of(rest@, 10u8);
        }
        let line = &rest[0..p];
        let ghost before = acc;
        let accepted = match split_field_line(line) {
            Some((k, v)) => stats_field(k, v, &mut acc),
            None => false,
        };
        if !accepted {
            assert(step(rest@.take(p as int), before) is None);
            return match MaybeStats::try_into(&acc) {
                Some(st) => ParseResult::Done(pos, CommandResponse::Stats(st)),
                None => ParseResult::Error,
            };
        }
        proof {
            lemma_fields_step(i@, pos as nat, before, acc, p as nat, step);
        }
        pos = pos + p + 1;
    }
}

pub open spec fn no_space(s: Seq<u8>) -> bool {
    forall|j: int| 0 <= j < s.len() ==> s[j] != 32u8
}

/// A line `<name>: <value>` read as a pair of texts; the name is not
/// empty and holds no space.
pub open spec fn pair_of(l: Seq<u8>) -> Option<(Seq<char>, Seq<char>)> {
    match split_field(l) {
        Some((k, v)) => if k.len() > 0 && no_space(k) {
            match (text_of(k), text_of(v)) {
                (Some(a), Some(b)) => Some((a, b)),
                _ => None,
            }
        } else {
            None
        },
        None => None,
    }
}

pub open spec fn pairs_step(l: Seq<u8>, acc: Seq<(Seq<char>, Seq<char>)>) -> Option<Seq<(Seq<char>, Seq<char>)>> {
    match pair_of(l) {
        Some(p) => Some(acc.push(p)),
        None => None,
    }
}

/// The pairs that a reply holds: its lines are read until the first line
/// that is no `name: value` pair.
pub open spec fn pairs_spec(i: Seq<u8>) -> ParseResult<CommandResponseView> {
    match fields_spec(i, Seq::empty(), |l: Seq<u8>, s: Seq<(Seq<char>, Seq<char>)>| pairs_step(l, s)) {
        None => ParseResult::Incomplete,
        Some((n, ps)) => ParseResult::Done(n as usize, CommandResponseView::Pairs(ps)),
    }
}

fn pair_line(l: &[u8]) -> (r: Option<(String, String)>)
    ensures
        match pair_of(l@) {
            Some((a, b)) => match r {
                Some((x, y)) => x@ == a && y@ == b,
                None => false,
            },
            None => r is None,
        },
{
    match split_field_line(l) {
        Some((k, v)) => {
            if k.len() == 0 {
                return None;
            }
            match find_byte(k, 32) {
                Some(_) => {
                    proof {
                        lemma_index_of(k@, 32u8);
                    }
                    None
                },
                None => {
                    proof {
                        lemma_index_of(k@, 32u8);
                    }
                    match (text_from(k), text_from(v)) {
                        (Some(a), Some(b)) => Some((a, b)),
                        _ => None,
                    }
                },
            }
        },
        None => None,
    }
}

/// Decodes a reply of `name: value` lines, up to the first line that is
/// no such pair, which is left in the input.
pub fn parse_pairs_response(i: &[u8]) -> (r: ParseResult<CommandResponse>)
    ensures
        r@ == pairs_spec(i@),
        r matches ParseResult::Done(n, _) ==> n <= i@.len(),
{
    reveal(fields_spec);
    let ghost step = |l: Seq<u8>, s: Seq<(Seq<char>, Seq<char>)>| pairs_step(l, s);
    let mut acc: Vec<(String, String)> = Vec::new();
    let mut pos: usize = 0;
    assert(i@.skip(0) =~= i@);
    assert(pairs_view(acc@) =~= Seq::empty());
    loop
        invariant
            pos <= i@.len(),
            step == (|l: Seq<u8>, s: Seq<(Seq<char>, Seq<char>)>| pairs_step(l, s)),
            fields_spec(i@, Seq::empty(), step) == shifted(
                fields_spec(i@.skip(pos as int), pairs_view(acc@), step),
                pos as nat,
            ),
        decreases i@.len() - pos,
    {
        reveal(fields_spec);
        let rest = &i[pos..i.len()];
        assert(rest@ =~= i@.skip(pos as int));
        let p = match find_byte(rest, 10) {
            Some(p) => p,
            None => {
                return ParseResult::Incomplete;
            },
        };
        proof {
            lemma_index_of(rest@, 10u8);
        }
        let line = &rest[0..p];
        let ghost before = pairs_view(acc@);
        match pair_line(line) {
            Some(pair) => {
                acc.push(pair);
                assert(pairs_view(acc@) =~= before.push((pair.0@, pair.1@)));
            },
            None => {
                assert(step(rest@.take(p as int), before) is None);
                return ParseResult::Done(pos, CommandResponse::Pairs(acc));
            },
        }
        proof {
            lemma_fields_step(i@, pos as nat, before, pairs_view(acc@), p as nat, step);
        }
        pos = pos + p + 1;
    }
}

} // verus!
