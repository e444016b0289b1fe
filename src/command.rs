//! Commands, command lists, and the responses decoded for them.
use vstd::prelude::*;
use crate::protocol::{Dispatch, ParseResponse, ParseResult, error_spec, lemma_error_len, list_ok_marker, ok_marker, parse_error, parse_list_ok, parse_ok, tag_spec};
use crate::records::{Stats, Status, StatusView};
use crate::records::{MaybeStats, MaybeStatusView};
use crate::response::{lemma_fields_len, pairs_step, stats_step, status_step, pairs_spec, parse_pairs_response, parse_stats_response, parse_status_response, stats_spec, status_spec};
use crate::types::{
    CmdError, CmdErrorView, Duration, Range, ReplayGainMode, SingleOrRange, SubSystem, TagType,
    replay_gain_name, subsystem_name, tag_name,
};
use vstd::seq_lib::lemma_concat_associative;
use crate::wire::{dec, dec_signed, dec_width, push_dec, push_dec_signed, push_dec_width, push_str, utf8};

verus! {

/// What a command's reply decodes to.
#[derive(Debug, PartialEq)]
pub enum CommandResponse {
    /// The command was carried out and has no payload.
    Blank,
    /// The reply to the status command.
    Status(Status),
    /// The reply to the stats command.
    Stats(Stats),
    /// The `name: value` lines of a reply whose records are not modelled.
    Pairs(Vec<(String, String)>),
    /// The daemon reported that the command failed.
    Error(CmdError),
}

pub enum CommandResponseView {
    Blank,
    Status(StatusView),
    Stats(Stats),
    Pairs(Seq<(Seq<char>, Seq<char>)>),
    Error(CmdErrorView),
}

pub open spec fn pairs_view(v: Seq<(String, String)>) -> Seq<(Seq<char>, Seq<char>)> {
    v.map_values(|p: (String, String)| (p.0@, p.1@))
}

impl View for CommandResponse {
    type V = CommandResponseView;

    open spec fn view(&self) -> CommandResponseView {
        match self {
            CommandResponse::Blank => CommandResponseView::Blank,
            CommandResponse::Status(s) => CommandResponseView::Status(s@),
            CommandResponse::Stats(s) => CommandResponseView::Stats(*s),
            CommandResponse::Pairs(v) => CommandResponseView::Pairs(pairs_view(v@)),
            CommandResponse::Error(e) => CommandResponseView::Error(e@),
        }
    }
}


pub open spec fn bool_text(b: bool) -> Seq<u8> {
    if b {
        seq![49u8]
    } else {
        seq![48u8]
    }
}

fn push_bool(out: &mut Vec<u8>, b: bool)
    ensures
        final(out)@ == old(out)@ + bool_text(b),
{
    let ghost start = out@;
    out.push(if b { 49u8 } else { 48u8 });
    assert(out@ =~= start + bool_text(b));
}

/// `start:end`, with the end left blank when open.
pub open spec fn range_text(r: Range) -> Seq<u8> {
    dec(r.start as nat) + seq![58u8] + match r.end {
        Some(e) => dec(e as nat),
        None => Seq::empty(),
    }
}

/// Appends the wire form of a range.
pub fn push_range(out: &mut Vec<u8>, r: &Range)
    ensures
        final(out)@ == old(out)@ + range_text(*r),
{
    let ghost start = out@;
    push_dec(out, r.start as u64);
    out.push(58u8);
    match r.end {
        Some(e) => push_dec(out, e as u64),
        None => {},
    }
    assert(out@ =~= start + range_text(*r));
}

pub open spec fn sor_text(x: SingleOrRange) -> Seq<u8> {
    match x {
        SingleOrRange::Single(n) => dec(n as nat),
        SingleOrRange::Range(r) => range_text(r),
    }
}

/// Appends the wire form of a position or range.
pub fn push_sor(out: &mut Vec<u8>, x: &SingleOrRange)
    ensures
        final(out)@ == old(out)@ + sor_text(*x),
{
    match x {
        SingleOrRange::Single(n) => push_dec(out, *n as u64),
        SingleOrRange::Range(r) => push_range(out, r),
    }
}

/// Seconds, and when there is a fraction, `.` and nine digits of it.
pub open spec fn time_text(d: Duration) -> Seq<u8> {
    dec(d.secs as nat) + if d.nanos == 0 {
        Seq::empty()
    } else {
        seq![46u8] + dec_width(d.nanos as nat, 9)
    }
}

fn push_time(out: &mut Vec<u8>, d: &Duration)
    ensures
        final(out)@ == old(out)@ + time_text(*d),
{
    let ghost start = out@;
    push_dec(out, d.secs);
    if d.nanos != 0 {
        out.push(46u8);
        push_dec_width(out, d.nanos as u64, 9);
    }
    assert(out@ =~= start + time_text(*d));
}

pub open spec fn opt_dec_arg(o: Option<u32>) -> Seq<u8> {
    match o {
        Some(n) => seq![32u8] + dec(n as nat),
        None => Seq::empty(),
    }
}

fn push_opt_dec_arg(out: &mut Vec<u8>, o: &Option<u32>)
    ensures
        final(out)@ == old(out)@ + opt_dec_arg(*o),
{
    let ghost start = out@;
    match o {
        Some(n) => {
            out.push(32u8);
            push_dec(out, *n as u64);
        },
        None => {},
    }
    assert(out@ =~= start + opt_dec_arg(*o));
}

pub open spec fn opt_sor_arg(o: Option<SingleOrRange>) -> Seq<u8> {
    match o {
        Some(x) => seq![32u8] + sor_text(x),
        None => Seq::empty(),
    }
}

fn push_opt_sor_arg(out: &mut Vec<u8>, o: &Option<SingleOrRange>)
    ensures
        final(out)@ == old(out)@ + opt_sor_arg(*o),
{
    let ghost start = out@;
    match o {
        Some(x) => {
            out.push(32u8);
            push_sor(out, x);
        },
        None => {},
    }
    assert(out@ =~= start + opt_sor_arg(*o));
}

pub open spec fn opt_range_arg(o: Option<Range>) -> Seq<u8> {
    match o {
        Some(r) => seq![32u8] + range_text(r),
        None => Seq::empty(),
    }
}

fn push_opt_range_arg(out: &mut Vec<u8>, o: &Option<Range>)
    ensures
        final(out)@ == old(out)@ + opt_range_arg(*o),
{
    let ghost start = out@;
    match o {
        Some(r) => {
            out.push(32u8);
            push_range(out, r);
        },
        None => {},
    }
    assert(out@ =~= start + opt_range_arg(*o));
}

/// A mixramp delay; an absent one is sent as `nan`.
pub open spec fn delay_text(o: Option<u16>) -> Seq<u8> {
    match o {
        Some(n) => dec(n as nat),
        None => utf8("nan"@),
    }
}

fn push_delay(out: &mut Vec<u8>, o: &Option<u16>)
    ensures
        final(out)@ == old(out)@ + delay_text(*o),
{
    match o {
        Some(n) => push_dec(out, *n as u64),
        None => push_str(out, "nan"),
    }
}

pub open spec fn group_arg(g: Option<TagType>) -> Seq<u8> {
    match g {
        Some(t) => utf8(" group "@) + utf8(tag_name(t)),
        None => Seq::empty(),
    }
}

fn push_group_arg(out: &mut Vec<u8>, g: &Option<TagType>)
    ensures
        final(out)@ == old(out)@ + group_arg(*g),
{
    let ghost start = out@;
    match g {
        Some(t) => {
            push_str(out, " group ");
            push_str(out, t.name());
        },
        None => {},
    }
    assert(out@ =~= start + group_arg(*g));
}

/// Each subsystem's name, after a space.
pub open spec fn subsystems_text(s: Seq<SubSystem>) -> Seq<u8>
    decreases s.len(),
{
    if s.len() == 0 {
        Seq::empty()
    } else {
        subsystems_text(s.drop_last()) + seq![32u8] + utf8(subsystem_name(s.last()))
    }
}

fn push_subsystems(out: &mut Vec<u8>, s: &Vec<SubSystem>)
    ensures
        final(out)@ == old(out)@ + subsystems_text(s@),
{
    let ghost start = out@;
    let mut k: usize = 0;
    assert(s@.take(0) =~= Seq::<SubSystem>::empty());
    assert(out@ =~= start + subsystems_text(s@.take(0)));
    while k < s.len()
        invariant
            k <= s@.len(),
            out@ == start + subsystems_text(s@.take(k as int)),
        decreases s@.len() - k,
    {
        out.push(32u8);
        push_str(out, s[k].name());
        assert(s@.take(k + 1 as int).drop_last() =~= s@.take(k as int));
        k += 1;
        assert(out@ =~= start + subsystems_text(s@.take(k as int)));
    }
    assert(s@.take(k as int) =~= s@);
}

/// Each position or range, after a space.
pub open spec fn sors_text(s: Seq<SingleOrRange>) -> Seq<u8>
    decreases s.len(),
{
    if s.len() == 0 {
        Seq::empty()
    } else {
        sors_text(s.drop_last()) + seq![32u8] + sor_text(s.last())
    }
}

fn push_sors(out: &mut Vec<u8>, s: &Vec<SingleOrRange>)
    ensures
        final(out)@ == old(out)@ + sors_text(s@),
{
    let ghost start = out@;
    let mut k: usize = 0;
    assert(s@.take(0) =~= Seq::<SingleOrRange>::empty());
    assert(out@ =~= start + sors_text(s@.take(0)));
    while k < s.len()
        invariant
            k <= s@.len(),
            out@ == start + sors_text(s@.take(k as int)),
        decreases s@.len() - k,
    {
        out.push(32u8);
        push_sor(out, &s[k]);
        assert(s@.take(k + 1 as int).drop_last() =~= s@.take(k as int));
        k += 1;
        assert(out@ =~= start + sors_text(s@.take(k as int)));
    }
    assert(s@.take(k as int) =~= s@);
}

/// Each text, after a space.
pub open spec fn strs_text(s: Seq<String>) -> Seq<u8>
    decreases s.len(),
{
    if s.len() == 0 {
        Seq::empty()
    } else {
        strs_text(s.drop_last()) + seq![32u8] + utf8(s.last()@)
    }
}

fn push_strs(out: &mut Vec<u8>, s: &Vec<String>)
    ensures
        final(out)@ == old(out)@ + strs_text(s@),
{
    let ghost start = out@;
    let mut k: usize = 0;
    assert(s@.take(0) =~= Seq::<String>::empty());
    assert(out@ =~= start + strs_text(s@.take(0)));
    while k < s.len()
        invariant
            k <= s@.len(),
            out@ == start + strs_text(s@.take(k as int)),
        decreases s@.len() - k,
    {
        out.push(32u8);
        push_str(out, s[k].as_str());
        assert(s@.take(k + 1 as int).drop_last() =~= s@.take(k as int));
        k += 1;
        assert(out@ =~= start + strs_text(s@.take(k as int)));
    }
    assert(s@.take(k as int) =~= s@);
}

/// All the commands that can be sent to the daemon.
#[derive(Debug, PartialEq)]
pub enum Command {
    /// Clears the current error message in status.
    ClearError,
    /// Displays the song info of the current song.
    CurrentSong,
    /// Waits until there is a noteworthy change in one or more subsystems; an empty list
    /// waits on all of them.
    Idle(Vec<SubSystem>),
    /// Reports the current status of the player and the volume level.
    Status,
    /// Displays statistics.
    Stats,
    /// Activates or deactivates consume.
    Consume(bool),
    /// Sets crossfading between songs to the given number of seconds.
    Crossfade(u16),
    /// Sets the threshold at which songs will be overlapped, in dB.
    MixRampDB(i16),
    /// Additional time subtracted from the mixramp overlap; `None` disables mixramp
    /// overlapping.
    MixRampDelay(Option<u16>),
    /// Sets the random state.
    Random(bool),
    /// Sets the repeat state.
    Repeat(bool),
    /// Sets the volume (the daemon clamps it at 100).
    Volume(u8),
    /// Sets the single state.
    Single(bool),
    /// Sets the replay gain mode.
    ReplayGainMode(ReplayGainMode),
    /// Fetches replay gain options.
    ReplayGainStatus,
    /// Plays the next song.
    Next,
    /// Pauses (true) or resumes (false) playback.
    Pause(bool),
    /// Plays the song at the given playlist position.
    Play(u32),
    /// Plays the song with the given id.
    PlayId(String),
    /// Plays the previous song.
    Previous,
    /// Plays from the given time in the song at the given playlist position.
    Seek { song_position: u32, time: Duration },
    /// Plays from the given time in the song with the given id.
    SeekId { song_id: String, time: Duration },
    /// Plays from the given time in the current song.
    SeekCurrent(Duration),
    /// Stops playing.
    Stop,
    /// Adds the file at the given uri to the playlist (directories recursively).
    Add(String),
    /// Adds a song to the playlist, optionally at a position, and returns its id.
    AddId { uri: String, position: Option<u32> },
    /// Clears the playlist.
    Clear,
    /// Deletes a song or a range of songs from the playlist.
    Delete(SingleOrRange),
    /// Deletes the song with the given id from the playlist.
    DeleteId(String),
    /// Moves the song or range at `from` to position `to`.
    Move { from: SingleOrRange, to: u32 },
    /// Moves the song with id `from` to position `to`.
    MoveId { from: String, to: u32 },
    /// Finds songs in the playlist with strict matching.
    PlaylistFind { tag: String, needle: String },
    /// Displays the playlist, or the song with the given id.
    PlaylistId(Option<u32>),
    /// Displays the playlist, or the songs at a position or in a range.
    PlaylistInfo(Option<SingleOrRange>),
    /// Searches the playlist case-insensitively for partial matches.
    PlaylistSearch { tag: TagType, needle: String },
    /// Displays the songs changed since the given playlist version.
    PlaylistChanges { version: String, range: Option<Range> },
    /// Displays position and id of the songs changed since the given playlist version.
    PlaylistChangesPositionId { version: String, range: Option<Range> },
    /// Sets the priority of the given songs (by position).
    Priority { priority: u8, songs: Vec<SingleOrRange> },
    /// Sets the priority of the given songs (by id).
    PriorityId { priority: u8, songs: Vec<String> },
    /// Specifies the part of a song that should be played.
    RangeId { id: String, range: Range },
    /// Shuffles the playlist between the two ends of the range.
    Shuffle(Range),
    /// Swaps the songs at the two positions.
    Swap(u32, u32),
    /// Swaps the songs with the two ids.
    SwapId(String, String),
    /// Adds a tag to the song with the given id (in the playlist only).
    AddTagId { id: String, tag: (TagType, String) },
    /// Clears a tag of the song with the given id (in the playlist only).
    ClearTagId { id: String, tag: TagType },
    /// Lists the songs in the given stored playlist.
    ListPlaylist(String),
    /// Lists the songs, with metadata, in the given stored playlist.
    ListPlaylistInfo(String),
    /// Lists the stored playlists.
    ListPlaylists,
    /// Loads a stored playlist, or a range of it, into the queue.
    Load { name: String, range: Option<Range> },
    /// Adds a song to a stored playlist, creating it if needed.
    PlaylistAdd { playlist: String, song: String },
    /// Clears a stored playlist.
    PlaylistClear(String),
    /// Deletes the song at a position from a stored playlist.
    PlaylistDelete { playlist: String, song: u32 },
    /// Moves a song within a stored playlist.
    PlaylistMove { playlist: String, from: u32, to: u32 },
    /// Renames a stored playlist.
    Rename { old_name: String, new_name: String },
    /// Removes a stored playlist.
    Remove(String),
    /// Saves the playlist under the given name.
    Save(String),
    /// Counts the songs, and their playtime, whose tag matches exactly; optionally
    /// grouped by another tag.
    Count { tag: (TagType, String), group: Option<TagType> },
    /// Counts the songs grouped by the given tag.
    GroupCount(TagType),
}

/// The wire form of a command: one line.
pub open spec fn command_wire(c: Command) -> Seq<u8> {
    match c {
        Command::ClearError => utf8("clearerror\n"@),
        Command::CurrentSong => utf8("currentsong\n"@),
        Command::Idle(a0) => utf8("idle"@) + subsystems_text(a0@) + utf8("\n"@),
        Command::Status => utf8("status\n"@),
        Command::Stats => utf8("stats\n"@),
        Command::Consume(a0) => utf8("consume "@) + bool_text(a0) + utf8("\n"@),
        Command::Crossfade(a0) => utf8("crossfade "@) + dec(a0 as nat) + utf8("\n"@),
        Command::MixRampDB(a0) => utf8("mixrampdb "@) + dec_signed(a0 as int) + utf8("\n"@),
        Command::MixRampDelay(a0) => utf8("mixrampdelay "@) + delay_text(a0) + utf8("\n"@),
        Command::Random(a0) => utf8("random "@) + bool_text(a0) + utf8("\n"@),
        Command::Repeat(a0) => utf8("repeat "@) + bool_text(a0) + utf8("\n"@),
        Command::Volume(a0) => utf8("setvol "@) + dec(a0 as nat) + utf8("\n"@),
        Command::Single(a0) => utf8("single "@) + bool_text(a0) + utf8("\n"@),
        Command::ReplayGainMode(a0) => utf8("replay_gain_mode "@) + utf8(replay_gain_name(a0)) + utf8("\n"@),
        Command::ReplayGainStatus => utf8("replay_gain_status\n"@),
        Command::Next => utf8("next\n"@),
        Command::Pause(a0) => utf8("pause "@) + bool_text(a0) + utf8("\n"@),
        Command::Play(a0) => utf8("play "@) + dec(a0 as nat) + utf8("\n"@),
        Command::PlayId(a0) => utf8("playid "@) + utf8(a0@) + utf8("\n"@),
        Command::Previous => utf8("previous\n"@),
        Command::Seek { song_position, time } => utf8("seek "@) + dec(song_position as nat) + utf8(" "@) + time_text(time) + utf8("\n"@),
        Command::SeekId { song_id, time } => utf8("seekid "@) + utf8(song_id@) + utf8(" "@) + time_text(time) + utf8("\n"@),
        Command::SeekCurrent(a0) => utf8("seekcur "@) + time_text(a0) + utf8("\n"@),
        Command::Stop => utf8("stop\n"@),
        Command::Add(a0) => utf8("add "@) + utf8(a0@) + utf8("\n"@),
        Command::AddId { uri, position } => utf8("addid "@) + utf8(uri@) + opt_dec_arg(position) + utf8("\n"@),
        Command::Clear => utf8("clear\n"@),
        Command::Delete(a0) => utf8("delete "@) + sor_text(a0) + utf8("\n"@),
        Command::DeleteId(a0) => utf8("deleteid "@) + utf8(a0@) + utf8("\n"@),
        Command::Move { from, to } => utf8("move "@) + sor_text(from) + utf8(" "@) + dec(to as nat) + utf8("\n"@),
        Command::MoveId { from, to } => utf8("moveid "@) + utf8(from@) + utf8(" "@) + dec(to as nat) + utf8("\n"@),
        Command::PlaylistFind { tag, needle } => utf8("playlistfind "@) + utf8(tag@) + utf8(" "@) + utf8(needle@) + utf8("\n"@),
        Command::PlaylistId(a0) => utf8("playlistid"@) + opt_dec_arg(a0) + utf8("\n"@),
        Command::PlaylistInfo(a0) => utf8("playlistinfo"@) + opt_sor_arg(a0) + utf8("\n"@),
        Command::PlaylistSearch { tag, needle } => utf8("playlistsearch "@) + utf8(tag_name(tag)) + utf8(" "@) + utf8(needle@) + utf8("\n"@),
        Command::PlaylistChanges { version, range } => utf8("plchanges "@) + utf8(version@) + opt_range_arg(range) + utf8("\n"@),
        Command::PlaylistChangesPositionId { version, range } => utf8("plchangesposid "@) + utf8(version@) + opt_range_arg(range) + utf8("\n"@),
        Command::Priority { priority, songs } => utf8("prio "@) + dec(priority as nat) + sors_text(songs@) + utf8("\n"@),
        Command::PriorityId { priority, songs } => utf8("prioid "@) + dec(priority as nat) + strs_text(songs@) + utf8("\n"@),
        Command::RangeId { id, range } => utf8("rangeid "@) + utf8(id@) + utf8(" "@) + range_text(range) + utf8("\n"@),
        Command::Shuffle(a0) => utf8("shuffle "@) + range_text(a0) + utf8("\n"@),
        Command::Swap(a0, a1) => utf8("swap "@) + dec(a0 as nat) + utf8(" "@) + dec(a1 as nat) + utf8("\n"@),
        Command::SwapId(a0, a1) => utf8("swapid "@) + utf8(a0@) + utf8(" "@) + utf8(a1@) + utf8("\n"@),
        Command::AddTagId { id, tag } => utf8("addtagid "@) + utf8(id@) + utf8(" "@) + utf8(tag_name(tag.0)) + utf8(" "@) + utf8(tag.1@) + utf8("\n"@),
        Command::ClearTagId { id, tag } => utf8("cleartagid "@) + utf8(id@) + utf8(" "@) + utf8(tag_name(tag)) + utf8("\n"@),
        Command::ListPlaylist(a0) => utf8("listplaylist "@) + utf8(a0@) + utf8("\n"@),
        Command::ListPlaylistInfo(a0) => utf8("listplaylistinfo "@) + utf8(a0@) + utf8("\n"@),
        Command::ListPlaylists => utf8("listplaylists\n"@),
        Command::Load { name, range } => utf8("load "@) + utf8(name@) + opt_range_arg(range) + utf8("\n"@),
        Command::PlaylistAdd { playlist, song } => utf8("playlistadd "@) + utf8(playlist@) + utf8(" "@) + utf8(song@) + utf8("\n"@),
        Command::PlaylistClear(a0) => utf8("playlistclear "@) + utf8(a0@) + utf8("\n"@),
        Command::PlaylistDelete { playlist, song } => utf8("playlistdelete "@) + utf8(playlist@) + utf8(" "@) + dec(song as nat) + utf8("\n"@),
        Command::PlaylistMove { playlist, from, to } => utf8("playlistmove "@) + utf8(playlist@) + utf8(" "@) + dec(from as nat) + utf8(" "@) + dec(to as nat) + utf8("\n"@),
        Command::Rename { old_name, new_name } => utf8("rename "@) + utf8(old_name@) + utf8(" "@) + utf8(new_name@) + utf8("\n"@),
        Command::Remove(a0) => utf8("rm "@) + utf8(a0@) + utf8("\n"@),
        Command::Save(a0) => utf8("save "@) + utf8(a0@) + utf8("\n"@),
        Command::Count { tag, group } => utf8("count "@) + utf8(tag_name(tag.0)) + utf8(" "@) + utf8(tag.1@) + group_arg(group) + utf8("\n"@),
        Command::GroupCount(a0) => utf8("count group "@) + utf8(tag_name(a0)) + utf8("\n"@),
    }
}

/// How a command's reply is decoded.
pub enum ReplyKind {
    /// No payload: nothing is read.
    Blank,
    /// A status record.
    Status,
    /// A stats record.
    Stats,
    /// Plain `name: value` lines.
    Pairs,
}

pub open spec fn reply_kind(c: Command) -> ReplyKind {
    match c {
        Command::ClearError => ReplyKind::Blank,
        Command::CurrentSong => ReplyKind::Pairs,
        Command::Idle(..) => ReplyKind::Pairs,
        Command::Status => ReplyKind::Status,
        Command::Stats => ReplyKind::Stats,
        Command::Consume(..) => ReplyKind::Blank,
        Command::Crossfade(..) => ReplyKind::Blank,
        Command::MixRampDB(..) => ReplyKind::Blank,
        Command::MixRampDelay(..) => ReplyKind::Blank,
        Command::Random(..) => ReplyKind::Blank,
        Command::Repeat(..) => ReplyKind::Blank,
        Command::Volume(..) => ReplyKind::Blank,
        Command::Single(..) => ReplyKind::Blank,
        Command::ReplayGainMode(..) => ReplyKind::Blank,
        Command::ReplayGainStatus => ReplyKind::Pairs,
        Command::Next => ReplyKind::Blank,
        Command::Pause(..) => ReplyKind::Blank,
        Command::Play(..) => ReplyKind::Blank,
        Command::PlayId(..) => ReplyKind::Blank,
        Command::Previous => ReplyKind::Blank,
        Command::Seek { .. } => ReplyKind::Blank,
        Command::SeekId { .. } => ReplyKind::Blank,
        Command::SeekCurrent(..) => ReplyKind::Blank,
        Command::Stop => ReplyKind::Blank,
        Command::Add(..) => ReplyKind::Blank,
        Command::AddId { .. } => ReplyKind::Pairs,
        Command::Clear => ReplyKind::Blank,
        Command::Delete(..) => ReplyKind::Blank,
        Command::DeleteId(..) => ReplyKind::Blank,
        Command::Move { .. } => ReplyKind::Blank,
        Command::MoveId { .. } => ReplyKind::Blank,
        Command::PlaylistFind { .. } => ReplyKind::Pairs,
        Command::PlaylistId(..) => ReplyKind::Pairs,
        Command::PlaylistInfo(..) => ReplyKind::Pairs,
        Command::PlaylistSearch { .. } => ReplyKind::Pairs,
        Command::PlaylistChanges { .. } => ReplyKind::Pairs,
        Command::PlaylistChangesPositionId { .. } => ReplyKind::Pairs,
        Command::Priority { .. } => ReplyKind::Blank,
        Command::PriorityId { .. } => ReplyKind::Blank,
        Command::RangeId { .. } => ReplyKind::Blank,
        Command::Shuffle(..) => ReplyKind::Blank,
        Command::Swap(..) => ReplyKind::Blank,
        Command::SwapId(..) => ReplyKind::Blank,
        Command::AddTagId { .. } => ReplyKind::Blank,
        Command::ClearTagId { .. } => ReplyKind::Blank,
        Command::ListPlaylist(..) => ReplyKind::Pairs,
        Command::ListPlaylistInfo(..) => ReplyKind::Pairs,
        Command::ListPlaylists => ReplyKind::Pairs,
        Command::Load { .. } => ReplyKind::Blank,
        Command::PlaylistAdd { .. } => ReplyKind::Blank,
        Command::PlaylistClear(..) => ReplyKind::Blank,
        Command::PlaylistDelete { .. } => ReplyKind::Blank,
        Command::PlaylistMove { .. } => ReplyKind::Blank,
        Command::Rename { .. } => ReplyKind::Blank,
        Command::Remove(..) => ReplyKind::Blank,
        Command::Save(..) => ReplyKind::Blank,
        Command::Count { .. } => ReplyKind::Pairs,
        Command::GroupCount(..) => ReplyKind::Pairs,
    }
}

impl Dispatch for Command {
    open spec fn wire(&self) -> Seq<u8> {
        command_wire(*self)
    }

    /// Appends the wire form of the command.
    fn dispatch(&self, out: &mut Vec<u8>) {
        match self {
            Command::ClearError | Command::CurrentSong | Command::Idle(..) | Command::Status | Command::Stats | Command::Consume(..) | Command::Crossfade(..) | Command::MixRampDB(..) | Command::MixRampDelay(..) | Command::Random(..) | Command::Repeat(..) | Command::Volume(..) => self.write_part0(out),
            Command::Single(..) | Command::ReplayGainMode(..) | Command::ReplayGainStatus | Command::Next | Command::Pause(..) | Command::Play(..) | Command::PlayId(..) | Command::Previous | Command::Seek { .. } | Command::SeekId { .. } | Command::SeekCurrent(..) | Command::Stop => self.write_part1(out),
            Command::Add(..) | Command::AddId { .. } | Command::Clear | Command::Delete(..) | Command::DeleteId(..) | Command::Move { .. } | Command::MoveId { .. } | Command::PlaylistFind { .. } | Command::PlaylistId(..) | Command::PlaylistInfo(..) | Command::PlaylistSearch { .. } | Command::PlaylistChanges { .. } => self.write_part2(out),
            Command::PlaylistChangesPositionId { .. } | Command::Priority { .. } | Command::PriorityId { .. } | Command::RangeId { .. } | Command::Shuffle(..) | Command::Swap(..) | Command::SwapId(..) | Command::AddTagId { .. } | Command::ClearTagId { .. } | Command::ListPlaylist(..) | Command::ListPlaylistInfo(..) | Command::ListPlaylists => self.write_part3(out),
            Command::Load { .. } | Command::PlaylistAdd { .. } | Command::PlaylistClear(..) | Command::PlaylistDelete { .. } | Command::PlaylistMove { .. } | Command::Rename { .. } | Command::Remove(..) | Command::Save(..) | Command::Count { .. } | Command::GroupCount(..) => self.write_part4(out),
        }
    }
}

// The variants are written in groups of about a dozen, each proved on its own.
impl Command {
    fn write_part0(&self, out: &mut Vec<u8>)
        requires
            match *self {
                Command::ClearError | Command::CurrentSong | Command::Idle(..) | Command::Status | Command::Stats | Command::Consume(..) | Command::Crossfade(..) | Command::MixRampDB(..) | Command::MixRampDelay(..) | Command::Random(..) | Command::Repeat(..) | Command::Volume(..) => true,
                _ => false,
            },
        ensures
            final(out)@ == old(out)@ + command_wire(*self),
    {
        let ghost start = out@;
        match self {
            Command::ClearError => {
                push_str(out, "clearerror\n");
            },
            Command::CurrentSong => {
                push_str(out, "currentsong\n");
            },
            Command::Idle(a0) => {
                push_str(out, "idle");
                push_subsystems(out, a0);
                proof {
                    lemma_concat_associative(start, utf8("idle"@), subsystems_text(a0@));
                }
                push_str(out, "\n");
                proof {
                    lemma_concat_associative(start, utf8("idle"@) + subsystems_text(a0@), utf8("\n"@));
                }
            },
            Command::Status => {
                push_str(out, "status\n");
            },
            Command::Stats => {
                push_str(out, "stats\n");
            },
            Command::Consume(a0) => {
                push_str(out, "consume ");
                push_bool(out, *a0);
                proof {
                    lemma_concat_associative(start, utf8("consume "@), bool_text(*a0));
                }
                push_str(out, "\n");
                proof {
                    lemma_concat_associative(start, utf8("consume "@) + bool_text(*a0), utf8("\n"@));
                }
            },
            Command::Crossfade(a0) => {
                push_str(out, "crossfade ");
                push_dec(out, *a0 as u64);
                proof {
                    lemma_concat_associative(start, utf8("crossfade "@), dec(*a0 as nat));
                }
                push_str(out, "\n");
                proof {
                    lemma_concat_associative(start, utf8("crossfade "@) + dec(*a0 as nat), utf8("\n"@));
                }
            },
            Command::MixRampDB(a0) => {
                push_str(out, "mixrampdb ");
                push_dec_signed(out, *a0 as i64);
                proof {
                    lemma_concat_associative(start, utf8("mixrampdb "@), dec_signed(*a0 as int));
                }
                push_str(out, "\n");
                proof {
                    lemma_concat_associative(start, utf8("mixrampdb "@) + dec_signed(*a0 as int), utf8("\n"@));
                }
            },
            Command::MixRampDelay(a0) => {
                push_str(out, "mixrampdelay ");
                push_delay(out, a0);
                proof {
                    lemma_concat_associative(start, utf8("mixrampdelay "@), delay_text(*a0));
                }
                push_str(out, "\n");
                proof {
                    lemma_concat_associative(start, utf8("mixrampdelay "@) + delay_text(*a0), utf8("\n"@));
                }
            },
            Command::Random(a0) => {
                push_str(out, "random ");
                push_bool(out, *a0);
                proof {
                    lemma_concat_associative(start, utf8("random "@), bool_text(*a0));
                }
                push_str(out, "\n");
                proof {
                    lemma_concat_associative(start, utf8("random "@) + bool_text(*a0), utf8("\n"@));
                }
            },
            Command::Repeat(a0) => {
                push_str(out, "repeat ");
                push_bool(out, *a0);
                proof {
                    lemma_concat_associative(start, utf8("repeat "@), bool_text(*a0));
                }
                push_str(out, "\n");
                proof {
                    lemma_concat_associative(start, utf8("repeat "@) + bool_text(*a0), utf8("\n"@));
                }
            },
            Command::Volume(a0) => {
                push_str(out, "setvol ");
                push_dec(out, *a0 as u64);
                proof {
                    lemma_concat_associative(start, utf8("setvol "@), dec(*a0 as nat));
                }
                push_str(out, "\n");
                proof {
                    lemma_concat_associative(start, utf8("setvol "@) + dec(*a0 as nat), utf8("\n"@));
                }
            },
            _ => {},
        }
    }

    fn write_part1(&self, out: &mut Vec<u8>)
        requires
            match *self {
                Command::Single(..) | Command::ReplayGainMode(..) | Command::ReplayGainStatus | Command::Next | Command::Pause(..) | Command::Play(..) | Command::PlayId(..) | Command::Previous | Command::Seek { .. } | Command::SeekId { .. } | Command::SeekCurrent(..) | Command::Stop => true,
                _ => false,
            },
        ensures
            final(out)@ == old(out)@ + command_wire(*self),
    {
        let ghost start = out@;
        match self {
            Command::Single(a0) => {
                push_str(out, "single ");
                push_bool(out, *a0);
                proof {
                    lemma_concat_associative(start, utf8("single "@), bool_text(*a0));
                }
                push_str(out, "\n");
                proof {
                    lemma_concat_associative(start, utf8("single "@) + bool_text(*a0), utf8("\n"@));
                }
            },
            Command::ReplayGainMode(a0) => {
                push_str(out, "replay_gain_mode ");
                push_str(out, a0.name());
                proof {
                    lemma_concat_associative(start, utf8("replay_gain_mode "@), utf8(replay_gain_name(*a0)));
                }
                push_str(out, "\n");
                proof {
                    lemma_concat_associative(start, utf8("replay_gain_mode "@) + utf8(replay_gain_name(*a0)), utf8("\n"@));
                }
            },
            Command::ReplayGainStatus => {
                push_str(out, "replay_gain_status\n");
            },
            Command::Next => {
                push_str(out, "next\n");
            },
            Command::Pause(a0) => {
                push_str(out, "pause ");
                push_bool(out, *a0);
                proof {
                    lemma_concat_associative(start, utf8("pause "@), bool_text(*a0));
                }
                push_str(out, "\n");
                proof {
                    lemma_concat_associative(start, utf8("pause "@) + bool_text(*a0), utf8("\n"@));
                }
            },
            Command::Play(a0) => {
                push_str(out, "play ");
                push_dec(out, *a0 as u64);
                proof {
                    lemma_concat_associative(start, utf8("play "@), dec(*a0 as nat));
                }
                push_str(out, "\n");
                proof {
                    lemma_concat_associative(start, utf8("play "@) + dec(*a0 as nat), utf8("\n"@));
                }
            },
            Command::PlayId(a0) => {
                push_str(out, "playid ");
                push_str(out, a0.as_str());
                proof {
                    lemma_concat_associative(start, utf8("playid "@), utf8(a0@));
                }
                push_str(out, "\n");
                proof {
                    lemma_concat_associative(start, utf8("playid "@) + utf8(a0@), utf8("\n"@));
                }
            },
            Command::Previous => {
                push_str(out, "previous\n");
            },
            Command::Seek { song_position, time } => {
                push_str(out, "seek ");
                push_dec(out, *song_position as u64);
                proof {
                    lemma_concat_associative(start, utf8("seek "@), dec(*song_position as nat));
                }
                push_str(out, " ");
                proof {
                    lemma_concat_associative(start, utf8("seek "@) + dec(*song_position as nat), utf8(" "@));
                }
                push_time(out, time);
                proof {
                    lemma_concat_associative(start, utf8("seek "@) + dec(*song_position as nat) + utf8(" "@), time_text(*time));
                }
                push_str(out, "\n");
                proof {
                    lemma_concat_associative(start, utf8("seek "@) + dec(*song_position as nat) + utf8(" "@) + time_text(*time), utf8("\n"@));
                }
            },
            Command::SeekId { song_id, time } => {
                push_str(out, "seekid ");
                push_str(out, song_id.as_str());
                proof {
                    lemma_concat_associative(start, utf8("seekid "@), utf8(song_id@));
                }
                push_str(out, " ");
                proof {
                    lemma_concat_associative(start, utf8("seekid "@) + utf8(song_id@), utf8(" "@));
                }
                push_time(out, time);
                proof {
                    lemma_concat_associative(start, utf8("seekid "@) + utf8(song_id@) + utf8(" "@), time_text(*time));
                }
                push_str(out, "\n");
                proof {
                    lemma_concat_associative(start, utf8("seekid "@) + utf8(song_id@) + utf8(" "@) + time_text(*time), utf8("\n"@));
                }
            },
            Command::SeekCurrent(a0) => {
                push_str(out, "seekcur ");
                push_time(out, a0);
                proof {
                    lemma_concat_associative(start, utf8("seekcur "@), time_text(*a0));
                }
                push_str(out, "\n");
                proof {
                    lemma_concat_associative(start, utf8("seekcur "@) + time_text(*a0), utf8("\n"@));
                }
            },
            Command::Stop => {
                push_str(out, "stop\n");
            },
            _ => {},
        }
    }

    fn write_part2(&self, out: &mut Vec<u8>)
        requires
            match *self {
                Command::Add(..) | Command::AddId { .. } | Command::Clear | Command::Delete(..) | Command::DeleteId(..) | Command::Move { .. } | Command::MoveId { .. } | Command::PlaylistFind { .. } | Command::PlaylistId(..) | Command::PlaylistInfo(..) | Command::PlaylistSearch { .. } | Command::PlaylistChanges { .. } => true,
                _ => false,
            },
        ensures
            final(out)@ == old(out)@ + command_wire(*self),
    {
        let ghost start = out@;
        match self {
            Command::Add(a0) => {
                push_str(out, "add ");
                push_str(out, a0.as_str());
                proof {
                    lemma_concat_associative(start, utf8("add "@), utf8(a0@));
                }
                push_str(out, "\n");
                proof {
                    lemma_concat_associative(start, utf8("add "@) + utf8(a0@), utf8("\n"@));
                }
            },
            Command::AddId { uri, position } => {
                push_str(out, "addid ");
                push_str(out, uri.as_str());
                proof {
                    lemma_concat_associative(start, utf8("addid "@), utf8(uri@));
                }
                push_opt_dec_arg(out, position);
                proof {
                    lemma_concat_associative(start, utf8("addid "@) + utf8(uri@), opt_dec_arg(*position));
                }
                push_str(out, "\n");
                proof {
                    lemma_concat_associative(start, utf8("addid "@) + utf8(uri@) + opt_dec_arg(*position), utf8("\n"@));
                }
            },
            Command::Clear => {
                push_str(out, "clear\n");
            },
            Command::Delete(a0) => {
                push_str(out, "delete ");
                push_sor(out, a0);
                proof {
                    lemma_concat_associative(start, utf8("delete "@), sor_text(*a0));
                }
                push_str(out, "\n");
                proof {
                    lemma_concat_associative(start, utf8("delete "@) + sor_text(*a0), utf8("\n"@));
                }
            },
            Command::DeleteId(a0) => {
                push_str(out, "deleteid ");
                push_str(out, a0.as_str());
                proof {
                    lemma_concat_associative(start, utf8("deleteid "@), utf8(a0@));
                }
                push_str(out, "\n");
                proof {
                    lemma_concat_associative(start, utf8("deleteid "@) + utf8(a0@), utf8("\n"@));
                }
            },
            Command::Move { from, to } => {
                push_str(out, "move ");
                push_sor(out, from);
                proof {
                    lemma_concat_associative(start, utf8("move "@), sor_text(*from));
                }
                push_str(out, " ");
                proof {
                    lemma_concat_associative(start, utf8("move "@) + sor_text(*from), utf8(" "@));
                }
                push_dec(out, *to as u64);
                proof {
                    lemma_concat_associative(start, utf8("move "@) + sor_text(*from) + utf8(" "@), dec(*to as nat));
                }
                push_str(out, "\n");
                proof {
                    lemma_concat_associative(start, utf8("move "@) + sor_text(*from) + utf8(" "@) + dec(*to as nat), utf8("\n"@));
                }
            },
            Command::MoveId { from, to } => {
                push_str(out, "moveid ");
                push_str(out, from.as_str());
                proof {
                    lemma_concat_associative(start, utf8("moveid "@), utf8(from@));
                }
                push_str(out, " ");
                proof {
                    lemma_concat_associative(start, utf8("moveid "@) + utf8(from@), utf8(" "@));
                }
                push_dec(out, *to as u64);
                proof {
                    lemma_concat_associative(start, utf8("moveid "@) + utf8(from@) + utf8(" "@), dec(*to as nat));
                }
                push_str(out, "\n");
                proof {
                    lemma_concat_associative(start, utf8("moveid "@) + utf8(from@) + utf8(" "@) + dec(*to as nat), utf8("\n"@));
                }
            },
            Command::PlaylistFind { tag, needle } => {
                push_str(out, "playlistfind ");
                push_str(out, tag.as_str());
                proof {
                    lemma_concat_associative(start, utf8("playlistfind "@), utf8(tag@));
                }
                push_str(out, " ");
                proof {
                    lemma_concat_associative(start, utf8("playlistfind "@) + utf8(tag@), utf8(" "@));
                }
                push_str(out, needle.as_str());
                proof {
                    lemma_concat_associative(start, utf8("playlistfind "@) + utf8(tag@) + utf8(" "@), utf8(needle@));
                }
                push_str(out, "\n");
                proof {
                    lemma_concat_associative(start, utf8("playlistfind "@) + utf8(tag@) + utf8(" "@) + utf8(needle@), utf8("\n"@));
                }
            },
            Command::PlaylistId(a0) => {
                push_str(out, "playlistid");
                push_opt_dec_arg(out, a0);
                proof {
                    lemma_concat_associative(start, utf8("playlistid"@), opt_dec_arg(*a0));
                }
                push_str(out, "\n");
                proof {
                    lemma_concat_associative(start, utf8("playlistid"@) + opt_dec_arg(*a0), utf8("\n"@));
                }
            },
            Command::PlaylistInfo(a0) => {
                push_str(out, "playlistinfo");
                push_opt_sor_arg(out, a0);
                proof {
                    lemma_concat_associative(start, utf8("playlistinfo"@), opt_sor_arg(*a0));
                }
                push_str(out, "\n");
                proof {
                    lemma_concat_associative(start, utf8("playlistinfo"@) + opt_sor_arg(*a0), utf8("\n"@));
                }
            },
            Command::PlaylistSearch { tag, needle } => {
                push_str(out, "playlistsearch ");
                push_str(out, tag.name());
                proof {
                    lemma_concat_associative(start, utf8("playlistsearch "@), utf8(tag_name(*tag)));
                }
                push_str(out, " ");
                proof {
                    lemma_concat_associative(start, utf8("playlistsearch "@) + utf8(tag_name(*tag)), utf8(" "@));
                }
                push_str(out, needle.as_str());
                proof {
                    lemma_concat_associative(start, utf8("playlistsearch "@) + utf8(tag_name(*tag)) + utf8(" "@), utf8(needle@));
                }
                push_str(out, "\n");
                proof {
                    lemma_concat_associative(start, utf8("playlistsearch "@) + utf8(tag_name(*tag)) + utf8(" "@) + utf8(needle@), utf8("\n"@));
                }
            },
            Command::PlaylistChanges { version, range } => {
                push_str(out, "plchanges ");
                push_str(out, version.as_str());
                proof {
                    lemma_concat_associative(start, utf8("plchanges "@), utf8(version@));
                }
                push_opt_range_arg(out, range);
                proof {
                    lemma_concat_associative(start, utf8("plchanges "@) + utf8(version@), opt_range_arg(*range));
                }
                push_str(out, "\n");
                proof {
                    lemma_concat_associative(start, utf8("plchanges "@) + utf8(version@) + opt_range_arg(*range), utf8("\n"@));
                }
            },
            _ => {},
        }
    }

    fn write_part3(&self, out: &mut Vec<u8>)
        requires
            match *self {
                Command::PlaylistChangesPositionId { .. } | Command::Priority { .. } | Command::PriorityId { .. } | Command::RangeId { .. } | Command::Shuffle(..) | Command::Swap(..) | Command::SwapId(..) | Command::AddTagId { .. } | Command::ClearTagId { .. } | Command::ListPlaylist(..) | Command::ListPlaylistInfo(..) | Command::ListPlaylists => true,
                _ => false,
            },
        ensures
            final(out)@ == old(out)@ + command_wire(*self),
    {
        let ghost start = out@;
        match self {
            Command::PlaylistChangesPositionId { version, range } => {
                push_str(out, "plchangesposid ");
                push_str(out, version.as_str());
                proof {
                    lemma_concat_associative(start, utf8("plchangesposid "@), utf8(version@));
                }
                push_opt_range_arg(out, range);
                proof {
                    lemma_concat_associative(start, utf8("plchangesposid "@) + utf8(version@), opt_range_arg(*range));
                }
                push_str(out, "\n");
                proof {
                    lemma_concat_associative(start, utf8("plchangesposid "@) + utf8(version@) + opt_range_arg(*range), utf8("\n"@));
                }
            },
            Command::Priority { priority, songs } => {
                push_str(out, "prio ");
                push_dec(out, *priority as u64);
                proof {
                    lemma_concat_associative(start, utf8("prio "@), dec(*priority as nat));
                }
                push_sors(out, songs);
                proof {
                    lemma_concat_associative(start, utf8("prio "@) + dec(*priority as nat), sors_text(songs@));
                }
                push_str(out, "\n");
                proof {
                    lemma_concat_associative(start, utf8("prio "@) + dec(*priority as nat) + sors_text(songs@), utf8("\n"@));
                }
            },
            Command::PriorityId { priority, songs } => {
                push_str(out, "prioid ");
                push_dec(out, *priority as u64);
                proof {
                    lemma_concat_associative(start, utf8("prioid "@), dec(*priority as nat));
                }
                push_strs(out, songs);
                proof {
                    lemma_concat_associative(start, utf8("prioid "@) + dec(*priority as nat), strs_text(songs@));
                }
                push_str(out, "\n");
                proof {
                    lemma_concat_associative(start, utf8("prioid "@) + dec(*priority as nat) + strs_text(songs@), utf8("\n"@));
                }
            },
            Command::RangeId { id, range } => {
                push_str(out, "rangeid ");
                push_str(out, id.as_str());
                proof {
                    lemma_concat_associative(start, utf8("rangeid "@), utf8(id@));
                }
                push_str(out, " ");
                proof {
                    lemma_concat_associative(start, utf8("rangeid "@) + utf8(id@), utf8(" "@));
                }
                push_range(out, range);
                proof {
                    lemma_concat_associative(start, utf8("rangeid "@) + utf8(id@) + utf8(" "@), range_text(*range));
                }
                push_str(out, "\n");
                proof {
                    lemma_concat_associative(start, utf8("rangeid "@) + utf8(id@) + utf8(" "@) + range_text(*range), utf8("\n"@));
                }
            },
            Command::Shuffle(a0) => {
                push_str(out, "shuffle ");
                push_range(out, a0);
                proof {
                    lemma_concat_associative(start, utf8("shuffle "@), range_text(*a0));
                }
                push_str(out, "\n");
                proof {
                    lemma_concat_associative(start, utf8("shuffle "@) + range_text(*a0), utf8("\n"@));
                }
            },
            Command::Swap(a0, a1) => {
                push_str(out, "swap ");
                push_dec(out, *a0 as u64);
                proof {
                    lemma_concat_associative(start, utf8("swap "@), dec(*a0 as nat));
                }
                push_str(out, " ");
                proof {
                    lemma_concat_associative(start, utf8("swap "@) + dec(*a0 as nat), utf8(" "@));
                }
                push_dec(out, *a1 as u64);
                proof {
                    lemma_concat_associative(start, utf8("swap "@) + dec(*a0 as nat) + utf8(" "@), dec(*a1 as nat));
                }
                push_str(out, "\n");
                proof {
                    lemma_concat_associative(start, utf8("swap "@) + dec(*a0 as nat) + utf8(" "@) + dec(*a1 as nat), utf8("\n"@));
                }
            },
            Command::SwapId(a0, a1) => {
                push_str(out, "swapid ");
                push_str(out, a0.as_str());
                proof {
                    lemma_concat_associative(start, utf8("swapid "@), utf8(a0@));
                }
                push_str(out, " ");
                proof {
                    lemma_concat_associative(start, utf8("swapid "@) + utf8(a0@), utf8(" "@));
                }
                push_str(out, a1.as_str());
                proof {
                    lemma_concat_associative(start, utf8("swapid "@) + utf8(a0@) + utf8(" "@), utf8(a1@));
                }
                push_str(out, "\n");
                proof {
                    lemma_concat_associative(start, utf8("swapid "@) + utf8(a0@) + utf8(" "@) + utf8(a1@), utf8("\n"@));
                }
            },
            Command::AddTagId { id, tag } => {
                push_str(out, "addtagid ");
                push_str(out, id.as_str());
                proof {
                    lemma_concat_associative(start, utf8("addtagid "@), utf8(id@));
                }
                push_str(out, " ");
                proof {
                    lemma_concat_associative(start, utf8("addtagid "@) + utf8(id@), utf8(" "@));
                }
                push_str(out, tag.0.name());
                proof {
                    lemma_concat_associative(start, utf8("addtagid "@) + utf8(id@) + utf8(" "@), utf8(tag_name(tag.0)));
                }
                push_str(out, " ");
                proof {
                    lemma_concat_associative(start, utf8("addtagid "@) + utf8(id@) + utf8(" "@) + utf8(tag_name(tag.0)), utf8(" "@));
                }
                push_str(out, tag.1.as_str());
                proof {
                    lemma_concat_associative(start, utf8("addtagid "@) + utf8(id@) + utf8(" "@) + utf8(tag_name(tag.0)) + utf8(" "@), utf8(tag.1@));
                }
                push_str(out, "\n");
                proof {
                    lemma_concat_associative(start, utf8("addtagid "@) + utf8(id@) + utf8(" "@) + utf8(tag_name(tag.0)) + utf8(" "@) + utf8(tag.1@), utf8("\n"@));
                }
            },
            Command::ClearTagId { id, tag } => {
                push_str(out, "cleartagid ");
                push_str(out, id.as_str());
                proof {
                    lemma_concat_associative(start, utf8("cleartagid "@), utf8(id@));
                }
                push_str(out, " ");
                proof {
                    lemma_concat_associative(start, utf8("cleartagid "@) + utf8(id@), utf8(" "@));
                }
                push_str(out, tag.name());
                proof {
                    lemma_concat_associative(start, utf8("cleartagid "@) + utf8(id@) + utf8(" "@), utf8(tag_name(*tag)));
                }
                push_str(out, "\n");
                proof {
                    lemma_concat_associative(start, utf8("cleartagid "@) + utf8(id@) + utf8(" "@) + utf8(tag_name(*tag)), utf8("\n"@));
                }
            },
            Command::ListPlaylist(a0) => {
                push_str(out, "listplaylist ");
                push_str(out, a0.as_str());
                proof {
                    lemma_concat_associative(start, utf8("listplaylist "@), utf8(a0@));
                }
                push_str(out, "\n");
                proof {
                    lemma_concat_associative(start, utf8("listplaylist "@) + utf8(a0@), utf8("\n"@));
                }
            },
            Command::ListPlaylistInfo(a0) => {
                push_str(out, "listplaylistinfo ");
                push_str(out, a0.as_str());
                proof {
                    lemma_concat_associative(start, utf8("listplaylistinfo "@), utf8(a0@));
                }
                push_str(out, "\n");
                proof {
                    lemma_concat_associative(start, utf8("listplaylistinfo "@) + utf8(a0@), utf8("\n"@));
                }
            },
            Command::ListPlaylists => {
                push_str(out, "listplaylists\n");
            },
            _ => {},
        }
    }

    fn write_part4(&self, out: &mut Vec<u8>)
        requires
            match *self {
                Command::Load { .. } | Command::PlaylistAdd { .. } | Command::PlaylistClear(..) | Command::PlaylistDelete { .. } | Command::PlaylistMove { .. } | Command::Rename { .. } | Command::Remove(..) | Command::Save(..) | Command::Count { .. } | Command::GroupCount(..) => true,
                _ => false,
            },
        ensures
            final(out)@ == old(out)@ + command_wire(*self),
    {
        let ghost start = out@;
        match self {
            Command::Load { name, range } => {
                push_str(out, "load ");
                push_str(out, name.as_str());
                proof {
                    lemma_concat_associative(start, utf8("load "@), utf8(name@));
                }
                push_opt_range_arg(out, range);
                proof {
                    lemma_concat_associative(start, utf8("load "@) + utf8(name@), opt_range_arg(*range));
                }
                push_str(out, "\n");
                proof {
                    lemma_concat_associative(start, utf8("load "@) + utf8(name@) + opt_range_arg(*range), utf8("\n"@));
                }
            },
            Command::PlaylistAdd { playlist, song } => {
                push_str(out, "playlistadd ");
                push_str(out, playlist.as_str());
                proof {
                    lemma_concat_associative(start, utf8("playlistadd "@), utf8(playlist@));
                }
                push_str(out, " ");
                proof {
                    lemma_concat_associative(start, utf8("playlistadd "@) + utf8(playlist@), utf8(" "@));
                }
                push_str(out, song.as_str());
                proof {
                    lemma_concat_associative(start, utf8("playlistadd "@) + utf8(playlist@) + utf8(" "@), utf8(song@));
                }
                push_str(out, "\n");
                proof {
                    lemma_concat_associative(start, utf8("playlistadd "@) + utf8(playlist@) + utf8(" "@) + utf8(song@), utf8("\n"@));
                }
            },
            Command::PlaylistClear(a0) => {
                push_str(out, "playlistclear ");
                push_str(out, a0.as_str());
                proof {
                    lemma_concat_associative(start, utf8("playlistclear "@), utf8(a0@));
                }
                push_str(out, "\n");
                proof {
                    lemma_concat_associative(start, utf8("playlistclear "@) + utf8(a0@), utf8("\n"@));
                }
            },
            Command::PlaylistDelete { playlist, song } => {
                push_str(out, "playlistdelete ");
                push_str(out, playlist.as_str());
                proof {
                    lemma_concat_associative(start, utf8("playlistdelete "@), utf8(playlist@));
                }
                push_str(out, " ");
                proof {
                    lemma_concat_associative(start, utf8("playlistdelete "@) + utf8(playlist@), utf8(" "@));
                }
                push_dec(out, *song as u64);
                proof {
                    lemma_concat_associative(start, utf8("playlistdelete "@) + utf8(playlist@) + utf8(" "@), dec(*song as nat));
                }
                push_str(out, "\n");
                proof {
                    lemma_concat_associative(start, utf8("playlistdelete "@) + utf8(playlist@) + utf8(" "@) + dec(*song as nat), utf8("\n"@));
                }
            },
            Command::PlaylistMove { playlist, from, to } => {
                push_str(out, "playlistmove ");
                push_str(out, playlist.as_str());
                proof {
                    lemma_concat_associative(start, utf8("playlistmove "@), utf8(playlist@));
                }
                push_str(out, " ");
                proof {
                    lemma_concat_associative(start, utf8("playlistmove "@) + utf8(playlist@), utf8(" "@));
                }
                push_dec(out, *from as u64);
                proof {
                    lemma_concat_associative(start, utf8("playlistmove "@) + utf8(playlist@) + utf8(" "@), dec(*from as nat));
                }
                push_str(out, " ");
                proof {
                    lemma_concat_associative(start, utf8("playlistmove "@) + utf8(playlist@) + utf8(" "@) + dec(*from as nat), utf8(" "@));
                }
                push_dec(out, *to as u64);
                proof {
                    lemma_concat_associative(start, utf8("playlistmove "@) + utf8(playlist@) + utf8(" "@) + dec(*from as nat) + utf8(" "@), dec(*to as nat));
                }
                push_str(out, "\n");
                proof {
                    lemma_concat_associative(start, utf8("playlistmove "@) + utf8(playlist@) + utf8(" "@) + dec(*from as nat) + utf8(" "@) + dec(*to as nat), utf8("\n"@));
                }
            },
            Command::Rename { old_name, new_name } => {
                push_str(out, "rename ");
                push_str(out, old_name.as_str());
                proof {
                    lemma_concat_associative(start, utf8("rename "@), utf8(old_name@));
                }
                push_str(out, " ");
                proof {
                    lemma_concat_associative(start, utf8("rename "@) + utf8(old_name@), utf8(" "@));
                }
                push_str(out, new_name.as_str());
                proof {
                    lemma_concat_associative(start, utf8("rename "@) + utf8(old_name@) + utf8(" "@), utf8(new_name@));
                }
                push_str(out, "\n");
                proof {
                    lemma_concat_associative(start, utf8("rename "@) + utf8(old_name@) + utf8(" "@) + utf8(new_name@), utf8("\n"@));
                }
            },
            Command::Remove(a0) => {
                push_str(out, "rm ");
                push_str(out, a0.as_str());
                proof {
                    lemma_concat_associative(start, utf8("rm "@), utf8(a0@));
                }
                push_str(out, "\n");
                proof {
                    lemma_concat_associative(start, utf8("rm "@) + utf8(a0@), utf8("\n"@));
                }
            },
            Command::Save(a0) => {
                push_str(out, "save ");
                push_str(out, a0.as_str());
                proof {
                    lemma_concat_associative(start, utf8("save "@), utf8(a0@));
                }
                push_str(out, "\n");
                proof {
                    lemma_concat_associative(start, utf8("save "@) + utf8(a0@), utf8("\n"@));
                }
            },
            Command::Count { tag, group } => {
                push_str(out, "count ");
                push_str(out, tag.0.name());
                proof {
                    lemma_concat_associative(start, utf8("count "@), utf8(tag_name(tag.0)));
                }
                push_str(out, " ");
                proof {
                    lemma_concat_associative(start, utf8("count "@) + utf8(tag_name(tag.0)), utf8(" "@));
                }
                push_str(out, tag.1.as_str());
                proof {
                    lemma_concat_associative(start, utf8("count "@) + utf8(tag_name(tag.0)) + utf8(" "@), utf8(tag.1@));
                }
                push_group_arg(out, group);
                proof {
                    lemma_concat_associative(start, utf8("count "@) + utf8(tag_name(tag.0)) + utf8(" "@) + utf8(tag.1@), group_arg(*group));
                }
                push_str(out, "\n");
                proof {
                    lemma_concat_associative(start, utf8("count "@) + utf8(tag_name(tag.0)) + utf8(" "@) + utf8(tag.1@) + group_arg(*group), utf8("\n"@));
                }
            },
            Command::GroupCount(a0) => {
                push_str(out, "count group ");
                push_str(out, a0.name());
                proof {
                    lemma_concat_associative(start, utf8("count group "@), utf8(tag_name(*a0)));
                }
                push_str(out, "\n");
                proof {
                    lemma_concat_associative(start, utf8("count group "@) + utf8(tag_name(*a0)), utf8("\n"@));
                }
            },
            _ => {},
        }
    }
}


/// What a command's reply decodes to, by the kind of its reply.
pub open spec fn command_reply(c: Command, i: Seq<u8>) -> ParseResult<CommandResponseView> {
    match reply_kind(c) {
        ReplyKind::Blank => ParseResult::Done(0, CommandResponseView::Blank),
        ReplyKind::Status => status_spec(i),
        ReplyKind::Stats => stats_spec(i),
        ReplyKind::Pairs => pairs_spec(i),
    }
}

impl ParseResponse for Command {
    type ResponseType = CommandResponse;

    open spec fn decodes(&self, i: Seq<u8>, r: ParseResult<CommandResponse>) -> bool {
        r@ == command_reply(*self, i)
    }

    /// Decodes the reply to this command from the start of the input: no
    /// bytes for a command without payload, else the lines of its record
    /// or pairs, up to the first line that is not one of them.
    fn parse_response(&self, i: &[u8]) -> (r: ParseResult<CommandResponse>) {
        match self {
            Command::Status => parse_status_response(i),
            Command::Stats => parse_stats_response(i),
            Command::CurrentSong | Command::Idle(..) | Command::ReplayGainStatus | Command::AddId { .. } | Command::PlaylistFind { .. } | Command::PlaylistId(..) | Command::PlaylistInfo(..) | Command::PlaylistSearch { .. } | Command::PlaylistChanges { .. } | Command::PlaylistChangesPositionId { .. } | Command::ListPlaylist(..) | Command::ListPlaylistInfo(..) | Command::ListPlaylists | Command::Count { .. } | Command::GroupCount(..) => parse_pairs_response(i),
            _ => ParseResult::Done(0, CommandResponse::Blank),
        }
    }
}

/// Commands sent together, whose replies come back in the same order.
#[derive(Debug, PartialEq)]
pub struct CommandList(pub Vec<Command>);

impl View for CommandList {
    type V = Seq<Command>;

    open spec fn view(&self) -> Seq<Command> {
        self.0@
    }
}

impl CommandList {
    /// An empty command list.
    pub fn new() -> (r: Self)
        ensures
            r@ == Seq::<Command>::empty(),
    {
        CommandList(Vec::new())
    }

    /// Adds a command at the end.
    pub fn push(&mut self, c: Command)
        ensures
            final(self)@ == old(self)@.push(c),
    {
        self.0.push(c);
    }
}

/// The wire forms of commands, one after the other.
pub open spec fn commands_wire(s: Seq<Command>) -> Seq<u8>
    decreases s.len(),
{
    if s.len() == 0 {
        Seq::empty()
    } else {
        commands_wire(s.drop_last()) + command_wire(s.last())
    }
}

/// The wire form of a command list: its commands between the markers that
/// open and close a list.
pub open spec fn list_wire(s: Seq<Command>) -> Seq<u8> {
    utf8("command_list_ok_begin\n"@) + commands_wire(s) + utf8("command_list_end\n"@)
}

impl Dispatch for CommandList {
    open spec fn wire(&self) -> Seq<u8> {
        list_wire(self@)
    }

    /// Appends the wire form of the list.
    fn dispatch(&self, out: &mut Vec<u8>) {
        let ghost start = out@;
        push_str(out, "command_list_ok_begin\n");
        let ghost head = out@;
        let mut k: usize = 0;
        assert(self@.take(0) =~= Seq::<Command>::empty());
        assert(out@ =~= head + commands_wire(self@.take(0)));
        while k < self.0.len()
            invariant
                k <= self@.len(),
                out@ == head + commands_wire(self@.take(k as int)),
            decreases self@.len() - k,
        {
            self.0[k].dispatch(out);
            assert(self@.take(k + 1 as int).drop_last() =~= self@.take(k as int));
            proof {
                lemma_concat_associative(head, commands_wire(self@.take(k as int)), command_wire(self@[k as int]));
            }
            k += 1;
        }
        assert(self@.take(k as int) =~= self@);
        push_str(out, "command_list_end\n");
        assert(out@ =~= start + list_wire(self@));
    }
}

pub open spec fn responses_view(v: Seq<CommandResponse>) -> Seq<CommandResponseView> {
    v.map_values(|r: CommandResponse| r@)
}

/// One command's place in a list reply: either an error line, which ends
/// the list (the flag is set), or the command's reply followed by
/// `list_OK\n`.
#[verifier::opaque]
pub open spec fn slot_spec(c: Command, i: Seq<u8>) -> ParseResult<(CommandResponseView, bool)> {
    match error_spec(i) {
        ParseResult::Done(n, e) => ParseResult::Done(n, (CommandResponseView::Error(e), true)),
        ParseResult::Incomplete => ParseResult::Incomplete,
        ParseResult::Error => match command_reply(c, i) {
            ParseResult::Done(n, r) => match tag_spec(i.skip(n as int), list_ok_marker()) {
                ParseResult::Done(m, _) => ParseResult::Done((n + m) as usize, (r, false)),
                ParseResult::Incomplete => ParseResult::Incomplete,
                ParseResult::Error => ParseResult::Error,
            },
            ParseResult::Incomplete => ParseResult::Incomplete,
            ParseResult::Error => ParseResult::Error,
        },
    }
}

/// The replies to a list's commands, from the start of the input: each
/// command's slot in turn, then `OK\n` after the last one; an error line
/// in a slot ends the list there.
pub open spec fn list_items(cmds: Seq<Command>, i: Seq<u8>) -> ParseResult<Seq<CommandResponseView>>
    decreases cmds.len(),
{
    if cmds.len() == 0 {
        match tag_spec(i, ok_marker()) {
            ParseResult::Done(n, _) => ParseResult::Done(n, Seq::empty()),
            ParseResult::Incomplete => ParseResult::Incomplete,
            ParseResult::Error => ParseResult::Error,
        }
    } else {
        match slot_spec(cmds[0], i) {
            ParseResult::Done(n, (r, stop)) => if stop {
                ParseResult::Done(n, seq![r])
            } else {
                match list_items(cmds.skip(1), i.skip(n as int)) {
                    ParseResult::Done(k, rs) => ParseResult::Done((n + k) as usize, seq![r] + rs),
                    ParseResult::Incomplete => ParseResult::Incomplete,
                    ParseResult::Error => ParseResult::Error,
                }
            },
            ParseResult::Incomplete => ParseResult::Incomplete,
            ParseResult::Error => ParseResult::Error,
        }
    }
}

pub proof fn lemma_reply_len(c: Command, i: Seq<u8>)
    ensures
        command_reply(c, i) matches ParseResult::Done(n, _) ==> n <= i.len(),
{
    lemma_fields_len(i, MaybeStatusView::empty(), |l: Seq<u8>, s: MaybeStatusView| status_step(l, s));
    lemma_fields_len(i, MaybeStats::empty(), |l: Seq<u8>, s: MaybeStats| stats_step(l, s));
    lemma_fields_len(i, Seq::empty(), |l: Seq<u8>, s: Seq<(Seq<char>, Seq<char>)>| pairs_step(l, s));
}

pub proof fn lemma_slot_len(c: Command, i: Seq<u8>)
    ensures
        slot_spec(c, i) matches ParseResult::Done(n, _) ==> n <= i.len(),
{
    reveal(slot_spec);
    lemma_error_len(i);
    lemma_reply_len(c, i);
}

pub proof fn lemma_list_len(cmds: Seq<Command>, i: Seq<u8>)
    ensures
        list_items(cmds, i) matches ParseResult::Done(n, _) ==> n <= i.len(),
    decreases cmds.len(),
{
    if cmds.len() > 0 {
        lemma_slot_len(cmds[0], i);
        if let ParseResult::Done(n, _) = slot_spec(cmds[0], i) {
            lemma_list_len(cmds.skip(1), i.skip(n as int));
        }
    }
}

pub open spec fn slot_view(r: ParseResult<(CommandResponse, bool)>) -> ParseResult<(CommandResponseView, bool)> {
    match r {
        ParseResult::Done(n, (v, stop)) => ParseResult::Done(n, (v@, stop)),
        ParseResult::Incomplete => ParseResult::Incomplete,
        ParseResult::Error => ParseResult::Error,
    }
}

/// Decodes one command's slot of a list reply.
fn parse_slot(c: &Command, i: &[u8]) -> (r: ParseResult<(CommandResponse, bool)>)
    ensures
        slot_view(r) == slot_spec(*c, i@),
        r matches ParseResult::Done(n, _) ==> n <= i@.len(),
{
    reveal(slot_spec);
    match parse_error(i) {
        ParseResult::Done(n, e) => {
            return ParseResult::Done(n, (CommandResponse::Error(e), true));
        },
        ParseResult::Incomplete => {
            return ParseResult::Incomplete;
        },
        ParseResult::Error => {},
    }
    match c.parse_response(i) {
        ParseResult::Done(n, r) => {
            let rest = &i[n..i.len()];
            assert(rest@ =~= i@.skip(n as int));
            match parse_list_ok(rest) {
                ParseResult::Done(m, _) => ParseResult::Done(n + m, (r, false)),
                ParseResult::Incomplete => ParseResult::Incomplete,
                ParseResult::Error => ParseResult::Error,
            }
        },
        ParseResult::Incomplete => ParseResult::Incomplete,
        ParseResult::Error => ParseResult::Error,
    }
}

pub open spec fn after<V>(r: ParseResult<Seq<V>>, pos: nat, prefix: Seq<V>) -> ParseResult<Seq<V>> {
    match r {
        ParseResult::Done(k, rs) => ParseResult::Done((pos + k) as usize, prefix + rs),
        ParseResult::Incomplete => ParseResult::Incomplete,
        ParseResult::Error => ParseResult::Error,
    }
}

pub open spec fn list_view(r: ParseResult<Vec<CommandResponse>>) -> ParseResult<Seq<CommandResponseView>> {
    match r {
        ParseResult::Done(n, v) => ParseResult::Done(n, responses_view(v@)),
        ParseResult::Incomplete => ParseResult::Incomplete,
        ParseResult::Error => ParseResult::Error,
    }
}

impl ParseResponse for CommandList {
    type ResponseType = Vec<CommandResponse>;

    open spec fn decodes(&self, i: Seq<u8>, r: ParseResult<Vec<CommandResponse>>) -> bool {
        list_view(r) == list_items(self@, i)
    }

    /// Decodes the replies to the list's commands from the start of the
    /// input.
    fn parse_response(&self, i: &[u8]) -> (r: ParseResult<Vec<CommandResponse>>) {
        let mut out: Vec<CommandResponse> = Vec::new();
        let mut pos: usize = 0;
        let mut k: usize = 0;
        assert(self@.skip(0) =~= self@);
        assert(i@.skip(0) =~= i@);
        assert(responses_view(out@) =~= Seq::empty());
        while k < self.0.len()
            invariant
                k <= self@.len(),
                pos <= i@.len(),
                list_items(self@, i@) == after(
                    list_items(self@.skip(k as int), i@.skip(pos as int)),
                    pos as nat,
                    responses_view(out@),
                ),
            decreases self@.len() - k,
        {
            let rest = &i[pos..i.len()];
            assert(rest@ =~= i@.skip(pos as int));
            let ghost cmds = self@.skip(k as int);
            assert(cmds[0] == self@[k as int]);
            assert(cmds.skip(1) =~= self@.skip(k + 1 as int));
            let ghost before = responses_view(out@);
            match parse_slot(&self.0[k], rest) {
                ParseResult::Done(n, (r, stop)) => {
                    let ghost rv = r@;
                    out.push(r);
                    assert(responses_view(out@) =~= before.push(rv));
                    if stop {
                        assert(before + seq![rv] =~= before.push(rv));
                        return ParseResult::Done(pos + n, out);
                    }
                    assert(rest@.skip(n as int) =~= i@.skip(pos + n));
                    proof {
                        lemma_list_len(self@.skip(k + 1 as int), i@.skip(pos + n));
                        match list_items(self@.skip(k + 1 as int), i@.skip(pos + n)) {
                            ParseResult::Done(k2, rs) => {
                                assert(before + (seq![rv] + rs) =~= before.push(rv) + rs);
                            },
                            _ => {},
                        }
                    }
                    pos = pos + n;
                },
                ParseResult::Incomplete => {
                    return ParseResult::Incomplete;
                },
                ParseResult::Error => {
                    return ParseResult::Error;
                },
            }
            k += 1;
        }
        let rest = &i[pos..i.len()];
        assert(rest@ =~= i@.skip(pos as int));
        assert(self@.skip(k as int) =~= Seq::<Command>::empty());
        match parse_ok(rest) {
            ParseResult::Done(m, _) => {
                assert(responses_view(out@) + Seq::empty() =~= responses_view(out@));
                ParseResult::Done(pos + m, out)
            },
            ParseResult::Incomplete => ParseResult::Incomplete,
            ParseResult::Error => ParseResult::Error,
        }
    }
}

} // verus!
