use vstd::prelude::*;

verus! {

/// The kinds of error that the daemon reports for a failed command.
#[derive(Debug, Copy, Clone, PartialEq, Eq, Structural)]
pub enum CmdErrorType {
    NotList,
    Arg,
    Password,
    Permission,
    Unknown,
    NoExist,
    PlaylistMax,
    System,
    PlaylistLoad,
    UpdateAlready,
    PlayerSync,
    Exist,
}

/// The error kind that a numeric code (as ASCII digits) stands for.
pub open spec fn error_type_of(code: Seq<u8>) -> Option<CmdErrorType> {
    if code.len() == 1 {
        if code[0] == 49u8 {
            Some(CmdErrorType::NotList)
        } else if code[0] == 50u8 {
            Some(CmdErrorType::Arg)
        } else if code[0] == 51u8 {
            Some(CmdErrorType::Password)
        } else if code[0] == 52u8 {
            Some(CmdErrorType::Permission)
        } else if code[0] == 53u8 {
            Some(CmdErrorType::Unknown)
        } else {
            None
        }
    } else if code.len() == 2 && code[0] == 53u8 {
        if code[1] == 48u8 {
            Some(CmdErrorType::NoExist)
        } else if code[1] == 49u8 {
            Some(CmdErrorType::PlaylistMax)
        } else if code[1] == 50u8 {
            Some(CmdErrorType::System)
        } else if code[1] == 51u8 {
            Some(CmdErrorType::PlaylistLoad)
        } else if code[1] == 52u8 {
            Some(CmdErrorType::UpdateAlready)
        } else if code[1] == 53u8 {
            Some(CmdErrorType::PlayerSync)
        } else if code[1] == 54u8 {
            Some(CmdErrorType::Exist)
        } else {
            None
        }
    } else {
        None
    }
}

impl CmdErrorType {
    /// Maps a numeric error code, given as its ASCII digits, to its kind.
    pub fn from_code(code: &[u8]) -> (r: Option<CmdErrorType>)
        ensures
            r == error_type_of(code@),
    {
        if code.len() == 1 {
            let c = code[0];
            if c == 49u8 {
                Some(CmdErrorType::NotList)
            } else if c == 50u8 {
                Some(CmdErrorType::Arg)
            } else if c == 51u8 {
                Some(CmdErrorType::Password)
            } else if c == 52u8 {
                Some(CmdErrorType::Permission)
            } else if c == 53u8 {
                Some(CmdErrorType::Unknown)
            } else {
                None
            }
        } else if code.len() == 2 && code[0] == 53u8 {
            let c = code[1];
            if c == 48u8 {
                Some(CmdErrorType::NoExist)
            } else if c == 49u8 {
                Some(CmdErrorType::PlaylistMax)
            } else if c == 50u8 {
                Some(CmdErrorType::System)
            } else if c == 51u8 {
                Some(CmdErrorType::PlaylistLoad)
            } else if c == 52u8 {
                Some(CmdErrorType::UpdateAlready)
            } else if c == 53u8 {
                Some(CmdErrorType::PlayerSync)
            } else if c == 54u8 {
                Some(CmdErrorType::Exist)
            } else {
                None
            }
        } else {
            None
        }
    }
}


/// The error returned from the daemon for a failed command.
#[derive(Debug, Clone, PartialEq)]
pub struct CmdError {
    /// The error type
    pub error_type: CmdErrorType,
    /// The index of the command that caused the error
    pub command_no: usize,
    /// The name of the command that caused the error
    pub command_name: String,
    /// The message text from the daemon
    pub message_text: String,
}

pub struct CmdErrorView {
    pub error_type: CmdErrorType,
    pub command_no: usize,
    pub command_name: Seq<char>,
    pub message_text: Seq<char>,
}

impl View for CmdError {
    type V = CmdErrorView;

    open spec fn view(&self) -> CmdErrorView {
        CmdErrorView {
            error_type: self.error_type,
            command_no: self.command_no,
            command_name: self.command_name@,
            message_text: self.message_text@,
        }
    }
}

/// A piece of textual information about a track.
#[derive(Debug, Clone, PartialEq)]
pub struct Tag {
    /// The value of the tag.
    pub value: String,
    /// The tag type.
    pub tag_type: TagType,
}

/// The metadata tags that the daemon knows.
#[derive(Debug, Copy, Clone, PartialEq, Eq, Structural)]
pub enum TagType {
    /// The artist name.
    Artist,
    /// Same as artist, but for sorting.
    ArtistSort,
    /// The album name.
    Album,
    /// Same as album, but for sorting.
    AlbumSort,
    /// The artist of the whole album, on multi-artist albums.
    AlbumArtist,
    /// Same as albumartist, but for sorting.
    AlbumArtistSort,
    /// The song title.
    Title,
    /// The track number within the album.
    Track,
    /// A name for this song, not its title.
    Name,
    /// The music genre.
    Genre,
    /// The song's release date, usually a year.
    Date,
    /// The artist who composed the song.
    Composer,
    /// The artist who performed the song.
    Performer,
    /// A human-readable comment about this song.
    Comment,
    /// The disc number in a multi-disc album.
    Disc,
    /// The artist id in the MusicBrainz database.
    MusicbrainzArtistId,
    /// The album id in the MusicBrainz database.
    MusicbrainzAlbumId,
    /// The album artist id in the MusicBrainz database.
    MusicbrainzAlbumArtistId,
    /// The track id in the MusicBrainz database.
    MusicbrainzTrackId,
    /// The release track id in the MusicBrainz database.
    MusicbrainzReleaseTrackId,
}

/// The canonical lowercase name of a tag.
pub open spec fn tag_name(v: TagType) -> Seq<char> {
    match v {
        TagType::Artist => "artist"@,
        TagType::ArtistSort => "artistsort"@,
        TagType::Album => "album"@,
        TagType::AlbumSort => "albumsort"@,
        TagType::AlbumArtist => "albumartist"@,
        TagType::AlbumArtistSort => "albumartistsort"@,
        TagType::Title => "title"@,
        TagType::Track => "track"@,
        TagType::Name => "name"@,
        TagType::Genre => "genre"@,
        TagType::Date => "date"@,
        TagType::Composer => "composer"@,
        TagType::Performer => "performer"@,
        TagType::Comment => "comment"@,
        TagType::Disc => "disc"@,
        TagType::MusicbrainzArtistId => "musicbrainz_artistid"@,
        TagType::MusicbrainzAlbumId => "musicbrainz_albumid"@,
        TagType::MusicbrainzAlbumArtistId => "musicbrainz_albumartistid"@,
        TagType::MusicbrainzTrackId => "musicbrainz_trackid"@,
        TagType::MusicbrainzReleaseTrackId => "musicbrainz_releasetrackid"@,
    }
}

impl TagType {
    /// The name of this value on the wire.
    pub fn name(&self) -> (r: &'static str)
        ensures
            r@ == tag_name(*self),
    {
        match self {
            TagType::Artist => "artist",
            TagType::ArtistSort => "artistsort",
            TagType::Album => "album",
            TagType::AlbumSort => "albumsort",
            TagType::AlbumArtist => "albumartist",
            TagType::AlbumArtistSort => "albumartistsort",
            TagType::Title => "title",
            TagType::Track => "track",
            TagType::Name => "name",
            TagType::Genre => "genre",
            TagType::Date => "date",
            TagType::Composer => "composer",
            TagType::Performer => "performer",
            TagType::Comment => "comment",
            TagType::Disc => "disc",
            TagType::MusicbrainzArtistId => "musicbrainz_artistid",
            TagType::MusicbrainzAlbumId => "musicbrainz_albumid",
            TagType::MusicbrainzAlbumArtistId => "musicbrainz_albumartistid",
            TagType::MusicbrainzTrackId => "musicbrainz_trackid",
            TagType::MusicbrainzReleaseTrackId => "musicbrainz_releasetrackid",
        }
    }
}

/// The subsystems that `Command::Idle` can wait on.
#[derive(Copy, Clone, Debug, PartialEq, Eq, Structural)]
pub enum SubSystem {
    Database,
    Update,
    StoredPlaylist,
    Playlist,
    Player,
    Mixer,
    Output,
    Options,
    Sticker,
    Subscription,
    Message,
}

/// The name of a subsystem.
pub open spec fn subsystem_name(v: SubSystem) -> Seq<char> {
    match v {
        SubSystem::Database => "database"@,
        SubSystem::Update => "update"@,
        SubSystem::StoredPlaylist => "stored_playlist"@,
        SubSystem::Playlist => "playlist"@,
        SubSystem::Player => "player"@,
        SubSystem::Mixer => "mixer"@,
        SubSystem::Output => "output"@,
        SubSystem::Options => "options"@,
        SubSystem::Sticker => "sticker"@,
        SubSystem::Subscription => "subscription"@,
        SubSystem::Message => "message"@,
    }
}

impl SubSystem {
    /// The name of this value on the wire.
    pub fn name(&self) -> (r: &'static str)
        ensures
            r@ == subsystem_name(*self),
    {
        match self {
            SubSystem::Database => "database",
            SubSystem::Update => "update",
            SubSystem::StoredPlaylist => "stored_playlist",
            SubSystem::Playlist => "playlist",
            SubSystem::Player => "player",
            SubSystem::Mixer => "mixer",
            SubSystem::Output => "output",
            SubSystem::Options => "options",
            SubSystem::Sticker => "sticker",
            SubSystem::Subscription => "subscription",
            SubSystem::Message => "message",
        }
    }
}

/// The replay gain mode.
#[derive(Copy, Clone, Debug, PartialEq, Eq, Structural)]
pub enum ReplayGainMode {
    Off,
    Track,
    Album,
    Auto,
}

/// The name of a replay gain mode.
pub open spec fn replay_gain_name(v: ReplayGainMode) -> Seq<char> {
    match v {
        ReplayGainMode::Off => "off"@,
        ReplayGainMode::Track => "track"@,
        ReplayGainMode::Album => "album"@,
        ReplayGainMode::Auto => "auto"@,
    }
}

impl ReplayGainMode {
    /// The name of this value on the wire.
    pub fn name(&self) -> (r: &'static str)
        ensures
            r@ == replay_gain_name(*self),
    {
        match self {
            ReplayGainMode::Off => "off",
            ReplayGainMode::Track => "track",
            ReplayGainMode::Album => "album",
            ReplayGainMode::Auto => "auto",
        }
    }
}

/// The current playback state.
#[derive(Copy, Clone, Debug, PartialEq, Eq, Structural)]
pub enum State {
    /// Playing
    Play,
    /// Paused
    Pause,
    /// Stopped
    Stop,
}

/// A range of positions (e.g. for delete).
#[derive(Copy, Clone, Debug, PartialEq, Eq, Structural)]
pub struct Range {
    /// The start of the range
    pub start: u32,
    /// The end of the range; `None` means up to the end.
    pub end: Option<u32>,
}

/// Either a single position or a range of positions.
#[derive(Copy, Clone, Debug, PartialEq, Eq, Structural)]
pub enum SingleOrRange {
    /// A single value
    Single(u32),
    /// A range of values
    Range(Range),
}

impl From<u32> for SingleOrRange {
    fn from(val: u32) -> (r: SingleOrRange)
        ensures
            r == SingleOrRange::Single(val),
    {
        SingleOrRange::Single(val)
    }
}

impl vstd::std_specs::convert::FromSpecImpl<u32> for SingleOrRange {
    open spec fn obeys_from_spec() -> bool {
        true
    }

    open spec fn from_spec(v: u32) -> SingleOrRange {
        SingleOrRange::Single(v)
    }
}

impl From<Range> for SingleOrRange {
    fn from(val: Range) -> (r: SingleOrRange)
        ensures
            r == SingleOrRange::Range(val),
    {
        SingleOrRange::Range(val)
    }
}

impl vstd::std_specs::convert::FromSpecImpl<Range> for SingleOrRange {
    open spec fn obeys_from_spec() -> bool {
        true
    }

    open spec fn from_spec(v: Range) -> SingleOrRange {
        SingleOrRange::Range(v)
    }
}

/// A span of time: whole seconds and the nanoseconds past them.
#[derive(Copy, Clone, Debug, PartialEq, Eq, Structural)]
pub struct Duration {
    pub secs: u64,
    pub nanos: u32,
}

impl Duration {
    pub open spec fn wf(self) -> bool {
        self.nanos < 1_000_000_000
    }

    pub fn new(secs: u64, nanos: u32) -> (r: Duration)
        requires
            nanos < 1_000_000_000,
        ensures
            r.secs == secs,
            r.nanos == nanos,
            r.wf(),
    {
        Duration { secs, nanos }
    }

    pub fn from_secs(secs: u64) -> (r: Duration)
        ensures
            r.secs == secs,
            r.nanos == 0,
            r.wf(),
    {
        Duration { secs, nanos: 0 }
    }
}

/// An exact decimal number: `digits` divided by ten to the power `scale`,
/// negated when `negative` is set.
#[derive(Copy, Clone, Debug, PartialEq, Eq, Structural)]
pub struct Decimal {
    pub negative: bool,
    pub digits: u64,
    pub scale: usize,
}

/// A protocol version, as semantic versioning defines it.
#[derive(Clone, Debug, PartialEq)]
pub struct Version {
    pub major: u64,
    pub minor: u64,
    pub patch: u64,
    /// The pre-release part, empty if there is none.
    pub pre: String,
    /// The build metadata, empty if there is none.
    pub build: String,
}

impl View for Version {
    type V = (u64, u64, u64, Seq<char>, Seq<char>);

    open spec fn view(&self) -> (u64, u64, u64, Seq<char>, Seq<char>) {
        (self.major, self.minor, self.patch, self.pre@, self.build@)
    }
}

} // verus!
