//! The records that the status and stats commands return, and the
//! accumulators that collect their fields line by line.
use vstd::prelude::*;
use crate::types::{Decimal, Duration, State};

verus! {

/// What the daemon is doing; the reply to the status command.
#[derive(Debug, PartialEq)]
pub struct Status {
    /// The current volume
    pub volume: u8,
    /// Whether repeat mode is on
    pub repeat: bool,
    /// Whether random mode is on
    pub random: bool,
    /// Whether single mode is on
    pub single: bool,
    /// Whether songs are removed from the playlist once played
    pub consume: bool,
    /// The playlist version number
    pub playlist: u32,
    /// The number of songs in the playlist
    pub playlist_length: u32,
    /// Whether the daemon is playing, paused or stopped
    pub state: State,
    /// The playlist position of the current song
    pub song: u32,
    /// The song id of the current song
    pub song_id: u32,
    /// The playlist position of the next song
    pub next_song: u32,
    /// The song id of the next song
    pub next_song_id: u32,
    /// How far through the current song playback is
    pub elapsed: Duration,
    /// The length of the current song
    pub duration: Option<Duration>,
    /// The bitrate at the current position, in kbps
    pub bitrate: u32,
    /// The crossfade time in seconds
    pub crossfade: u32,
    /// The mixramp threshold in dB
    pub mix_ramp_db: Decimal,
    /// Audio format: (sample rate, bits, channels)
    pub audio: (u32, u32, u32),
    /// The id of a running database update job
    pub updating_db: Option<u32>,
    /// The pending error message, if any
    pub error: Option<String>,
}

pub struct StatusView {
    pub volume: u8,
    pub repeat: bool,
    pub random: bool,
    pub single: bool,
    pub consume: bool,
    pub playlist: u32,
    pub playlist_length: u32,
    pub state: State,
    pub song: u32,
    pub song_id: u32,
    pub next_song: u32,
    pub next_song_id: u32,
    pub elapsed: Duration,
    pub duration: Option<Duration>,
    pub bitrate: u32,
    pub crossfade: u32,
    pub mix_ramp_db: Decimal,
    pub audio: (u32, u32, u32),
    pub updating_db: Option<u32>,
    pub error: Option<Seq<char>>,
}

impl View for Status {
    type V = StatusView;

    open spec fn view(&self) -> StatusView {
        StatusView {
            volume: self.volume,
            repeat: self.repeat,
            random: self.random,
            single: self.single,
            consume: self.consume,
            playlist: self.playlist,
            playlist_length: self.playlist_length,
            state: self.state,
            song: self.song,
            song_id: self.song_id,
            next_song: self.next_song,
            next_song_id: self.next_song_id,
            elapsed: self.elapsed,
            duration: self.duration,
            bitrate: self.bitrate,
            crossfade: self.crossfade,
            mix_ramp_db: self.mix_ramp_db,
            audio: self.audio,
            updating_db: self.updating_db,
            error: match self.error {
                Some(e) => Some(e@),
                None => None,
            },
        }
    }
}

/// A status under construction: every field is optional.
#[derive(Debug, PartialEq)]
pub struct MaybeStatus {
    pub volume: Option<u8>,
    pub repeat: Option<bool>,
    pub random: Option<bool>,
    pub single: Option<bool>,
    pub consume: Option<bool>,
    pub playlist: Option<u32>,
    pub playlist_length: Option<u32>,
    pub state: Option<State>,
    pub song: Option<u32>,
    pub song_id: Option<u32>,
    pub next_song: Option<u32>,
    pub next_song_id: Option<u32>,
    pub elapsed: Option<Duration>,
    pub duration: Option<Duration>,
    pub bitrate: Option<u32>,
    pub crossfade: Option<u32>,
    pub mix_ramp_db: Option<Decimal>,
    pub audio: Option<(u32, u32, u32)>,
    pub updating_db: Option<u32>,
    pub error: Option<String>,
}

pub struct MaybeStatusView {
    pub volume: Option<u8>,
    pub repeat: Option<bool>,
    pub random: Option<bool>,
    pub single: Option<bool>,
    pub consume: Option<bool>,
    pub playlist: Option<u32>,
    pub playlist_length: Option<u32>,
    pub state: Option<State>,
    pub song: Option<u32>,
    pub song_id: Option<u32>,
    pub next_song: Option<u32>,
    pub next_song_id: Option<u32>,
    pub elapsed: Option<Duration>,
    pub duration: Option<Duration>,
    pub bitrate: Option<u32>,
    pub crossfade: Option<u32>,
    pub mix_ramp_db: Option<Decimal>,
    pub audio: Option<(u32, u32, u32)>,
    pub updating_db: Option<u32>,
    pub error: Option<Seq<char>>,
}

impl View for MaybeStatus {
    type V = MaybeStatusView;

    open spec fn view(&self) -> MaybeStatusView {
        MaybeStatusView {
            volume: self.volume,
            repeat: self.repeat,
            random: self.random,
            single: self.single,
            consume: self.consume,
            playlist: self.playlist,
            playlist_length: self.playlist_length,
            state: self.state,
            song: self.song,
            song_id: self.song_id,
            next_song: self.next_song,
            next_song_id: self.next_song_id,
            elapsed: self.elapsed,
            duration: self.duration,
            bitrate: self.bitrate,
            crossfade: self.crossfade,
            mix_ramp_db: self.mix_ramp_db,
            audio: self.audio,
            updating_db: self.updating_db,
            error: match self.error {
                Some(e) => Some(e@),
                None => None,
            },
        }
    }
}

impl MaybeStatusView {
    /// The accumulator with no field seen.
    pub open spec fn empty() -> MaybeStatusView {
        MaybeStatusView {
            volume: None,
            repeat: None,
            random: None,
            single: None,
            consume: None,
            playlist: None,
            playlist_length: None,
            state: None,
            song: None,
            song_id: None,
            next_song: None,
            next_song_id: None,
            elapsed: None,
            duration: None,
            bitrate: None,
            crossfade: None,
            mix_ramp_db: None,
            audio: None,
            updating_db: None,
            error: None,
        }
    }

    /// Every field that a status needs has been seen.
    pub open spec fn is_complete(self) -> bool {
        self.volume is Some
        && self.repeat is Some
        && self.random is Some
        && self.single is Some
        && self.consume is Some
        && self.playlist is Some
        && self.playlist_length is Some
        && self.state is Some
        && self.song is Some
        && self.song_id is Some
        && self.next_song is Some
        && self.next_song_id is Some
        && self.elapsed is Some
        && self.bitrate is Some
        && self.crossfade is Some
        && self.mix_ramp_db is Some
        && self.audio is Some
    }

    /// The status that the accumulator holds, once complete.
    pub open spec fn finish(self) -> Option<StatusView> {
        if self.is_complete() {
            Some(
                StatusView {
                    volume: self.volume->0,
                    repeat: self.repeat->0,
                    random: self.random->0,
                    single: self.single->0,
                    consume: self.consume->0,
                    playlist: self.playlist->0,
                    playlist_length: self.playlist_length->0,
                    state: self.state->0,
                    song: self.song->0,
                    song_id: self.song_id->0,
                    next_song: self.next_song->0,
                    next_song_id: self.next_song_id->0,
                    elapsed: self.elapsed->0,
                    duration: self.duration,
                    bitrate: self.bitrate->0,
                    crossfade: self.crossfade->0,
                    mix_ramp_db: self.mix_ramp_db->0,
                    audio: self.audio->0,
                    updating_db: self.updating_db,
                    error: self.error,
                },
            )
        } else {
            None
        }
    }
}

impl Default for MaybeStatus {
    fn default() -> (r: Self)
        ensures
            r@ == MaybeStatusView::empty(),
    {
        MaybeStatus {
            volume: None,
            repeat: None,
            random: None,
            single: None,
            consume: None,
            playlist: None,
            playlist_length: None,
            state: None,
            song: None,
            song_id: None,
            next_song: None,
            next_song_id: None,
            elapsed: None,
            duration: None,
            bitrate: None,
            crossfade: None,
            mix_ramp_db: None,
            audio: None,
            updating_db: None,
            error: None,
        }
    }
}

impl MaybeStatus {
    /// The status, if every field that it needs has been seen.
    pub fn try_into(&self) -> (r: Option<Status>)
        ensures
            match r {
                Some(st) => self@.finish() == Some(st@),
                None => self@.finish() is None,
            },
    {
        let volume = match self.volume {
            Some(v) => v,
            None => {
                return None;
            },
        };
        let repeat = match self.repeat {
            Some(v) => v,
            None => {
                return None;
            },
        };
        let random = match self.random {
            Some(v) => v,
            None => {
                return None;
            },
        };
        let single = match self.single {
            Some(v) => v,
            None => {
                return None;
            },
        };
        let consume = match self.consume {
            Some(v) => v,
            None => {
                return None;
            },
        };
        let playlist = match self.playlist {
            Some(v) => v,
            None => {
                return None;
            },
        };
        let playlist_length = match self.playlist_length {
            Some(v) => v,
            None => {
                return None;
            },
        };
        let state = match self.state {
            Some(v) => v,
            None => {
                return None;
            },
        };
        let song = match self.song {
            Some(v) => v,
            None => {
                return None;
            },
        };
        let song_id = match self.song_id {
            Some(v) => v,
            None => {
                return None;
            },
        };
        let next_song = match self.next_song {
            Some(v) => v,
            None => {
                return None;
            },
        };
        let next_song_id = match self.next_song_id {
            Some(v) => v,
            None => {
                return None;
            },
        };
        let elapsed = match self.elapsed {
            Some(v) => v,
            None => {
                return None;
            },
        };
        let bitrate = match self.bitrate {
            Some(v) => v,
            None => {
                return None;
            },
        };
        let crossfade = match self.crossfade {
            Some(v) => v,
            None => {
                return None;
            },
        };
        let mix_ramp_db = match self.mix_ramp_db {
            Some(v) => v,
            None => {
                return None;
            },
        };
        let audio = match self.audio {
            Some(v) => v,
            None => {
                return None;
            },
        };
        let error = match &self.error {
            Some(e) => Some(e.clone()),
            None => None,
        };
        Some(Status {
            volume,
            repeat,
            random,
            single,
            consume,
            playlist,
            playlist_length,
            state,
            song,
            song_id,
            next_song,
            next_song_id,
            elapsed,
            duration: self.duration,
            bitrate,
            crossfade,
            mix_ramp_db,
            audio,
            updating_db: self.updating_db,
            error,
        })
    }
}

/// Statistics about the daemon and its database.
#[derive(Copy, Clone, Debug, PartialEq, Eq)]
pub struct Stats {
    /// Number of artists
    pub artists: u64,
    /// Number of albums
    pub albums: u64,
    /// Number of songs
    pub songs: u64,
    /// Daemon uptime
    pub uptime: Duration,
    /// Sum of the durations of all songs
    pub db_playtime: Duration,
    /// Last database update, in seconds since the Unix epoch (UTC)
    pub db_update: i64,
    /// Time length of music played
    pub playtime: Duration,
}

/// Stats under construction: every field is optional.
#[derive(Copy, Clone, Debug, PartialEq, Eq)]
pub struct MaybeStats {
    pub artists: Option<u64>,
    pub albums: Option<u64>,
    pub songs: Option<u64>,
    pub uptime: Option<Duration>,
    pub db_playtime: Option<Duration>,
    pub db_update: Option<i64>,
    pub playtime: Option<Duration>,
}

impl MaybeStats {
    /// The accumulator with no field seen.
    pub open spec fn empty() -> MaybeStats {
        MaybeStats {
            artists: None,
            albums: None,
            songs: None,
            uptime: None,
            db_playtime: None,
            db_update: None,
            playtime: None,
        }
    }

    /// Every field has been seen.
    pub open spec fn is_complete(self) -> bool {
        self.artists is Some
        && self.albums is Some
        && self.songs is Some
        && self.uptime is Some
        && self.db_playtime is Some
        && self.db_update is Some
        && self.playtime is Some
    }

    /// The stats that the accumulator holds, once complete.
    pub open spec fn finish(self) -> Option<Stats> {
        if self.is_complete() {
            Some(
                Stats {
                    artists: self.artists->0,
                    albums: self.albums->0,
                    songs: self.songs->0,
                    uptime: self.uptime->0,
                    db_playtime: self.db_playtime->0,
                    db_update: self.db_update->0,
                    playtime: self.playtime->0,
                },
            )
        } else {
            None
        }
    }

    /// The stats, if every field has been seen.
    pub fn try_into(&self) -> (r: Option<Stats>)
        ensures
            r == self.finish(),
    {
        let artists = match self.artists {
            Some(v) => v,
            None => {
                return None;
            },
        };
        let albums = match self.albums {
            Some(v) => v,
            None => {
                return None;
            },
        };
        let songs = match self.songs {
            Some(v) => v,
            None => {
                return None;
            },
        };
        let uptime = match self.uptime {
            Some(v) => v,
            None => {
                return None;
            },
        };
        let db_playtime = match self.db_playtime {
            Some(v) => v,
            None => {
                return None;
            },
        };
        let db_update = match self.db_update {
            Some(v) => v,
            None => {
                return None;
            },
        };
        let playtime = match self.playtime {
            Some(v) => v,
            None => {
                return None;
            },
        };
        Some(Stats { artists, albums, songs, uptime, db_playtime, db_update, playtime })
    }
}

impl Default for MaybeStats {
    fn default() -> (r: Self)
        ensures
            r == MaybeStats::empty(),
    {
        MaybeStats {
            artists: None,
            albums: None,
            songs: None,
            uptime: None,
            db_playtime: None,
            db_update: None,
            playtime: None,
        }
    }
}

} // verus!
