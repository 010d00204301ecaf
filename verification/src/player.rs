//! The players that a session drives.
use crate::text::{is_empty, same};
use crate::track::{Track, TrackView};
use vstd::prelude::*;

verus! {

/// What a player is doing. Times are in microseconds.
#[derive(Debug)]
pub struct PlayerState {
    pub playing: bool,
    pub position_us: i64,
    pub duration_us: i64,
    pub uri: String,
    pub title: String,
    pub artist: String,
    pub art_url: String,
}

/// What a player is doing.
#[verifier::ext_equal]
pub struct PlayerStateView {
    pub playing: bool,
    pub position_us: i64,
    pub duration_us: i64,
    pub uri: Seq<char>,
    pub title: Seq<char>,
    pub artist: Seq<char>,
    pub art_url: Seq<char>,
}

impl View for PlayerState {
    type V = PlayerStateView;

    open spec fn view(&self) -> PlayerStateView {
        PlayerStateView {
            playing: self.playing,
            position_us: self.position_us,
            duration_us: self.duration_us,
            uri: self.uri@,
            title: self.title@,
            artist: self.artist@,
            art_url: self.art_url@,
        }
    }
}

impl PlayerStateView {
    /// The song.
    pub open spec fn track(self) -> TrackView {
        TrackView {
            uri: self.uri,
            title: self.title,
            artist: self.artist,
            art_url: self.art_url,
        }
    }

    /// What tells one local song from another: the uri, or the title where there is none.
    pub open spec fn key(self) -> Seq<char> {
        if self.uri.len() == 0 {
            seq!['\u{1}'] + self.title
        } else {
            self.uri
        }
    }

    /// Whether the player knows anything of its song.
    pub open spec fn known(self) -> bool {
        self.uri.len() > 0 || self.title.len() > 0
    }
}

impl PlayerState {
    /// The song.
    pub fn track(&self) -> (r: Track)
        ensures
            r@ == self@.track(),
    {
        Track {
            uri: self.uri.clone(),
            title: self.title.clone(),
            artist: self.artist.clone(),
            art_url: self.art_url.clone(),
        }
    }

    /// What tells one local song from another.
    pub fn key(&self) -> (r: String)
        ensures
            r@ == self@.key(),
    {
        if is_empty(self.uri.as_str()) {
            let mut s = String::new();
            s.push('\u{1}');
            s.append(self.title.as_str());
            assert(s@ =~= self@.key());
            s
        } else {
            self.uri.clone()
        }
    }

    /// Whether the player knows anything of its song.
    pub fn known(&self) -> (r: bool)
        ensures
            r == self@.known(),
    {
        !is_empty(self.uri.as_str()) || !is_empty(self.title.as_str())
    }
}

/// Which player to drive.
#[derive(Debug, PartialEq)]
pub enum Backend {
    /// A player on the session bus.
    Spotifast { bus_suffix: String },
    /// spotifast's command line.
    SpotifastWin,
    Cliamp,
}

/// Which player to drive.
pub enum BackendView {
    Spotifast { bus_suffix: Seq<char> },
    SpotifastWin,
    Cliamp,
}

impl View for Backend {
    type V = BackendView;

    open spec fn view(&self) -> BackendView {
        match self {
            Backend::Spotifast { bus_suffix } => BackendView::Spotifast {
                bus_suffix: bus_suffix@,
            },
            Backend::SpotifastWin => BackendView::SpotifastWin,
            Backend::Cliamp => BackendView::Cliamp,
        }
    }
}

impl Clone for Backend {
    fn clone(&self) -> (r: Backend)
        ensures
            r@ == self@,
    {
        match self {
            Backend::Spotifast { bus_suffix } => Backend::Spotifast {
                bus_suffix: bus_suffix.clone(),
            },
            Backend::SpotifastWin => Backend::SpotifastWin,
            Backend::Cliamp => Backend::Cliamp,
        }
    }
}

impl Backend {
    /// What the player picker shows.
    pub fn label(&self) -> (r: &'static str)
        ensures
            r@ == match self@ {
                BackendView::Spotifast { .. } => "spotifast (MPRIS)"@,
                BackendView::SpotifastWin => "spotifast (CLI)"@,
                BackendView::Cliamp => "cliamp (IPC)"@,
            },
    {
        match self {
            Backend::Spotifast { .. } => "spotifast (MPRIS)",
            Backend::SpotifastWin => "spotifast (CLI)",
            Backend::Cliamp => "cliamp (IPC)",
        }
    }

    /// Whether two backends are the same.
    pub fn same(&self, other: &Backend) -> (r: bool)
        ensures
            r == (self@ == other@),
    {
        match (self, other) {
            (Backend::Spotifast { bus_suffix: a }, Backend::Spotifast { bus_suffix: b }) => same(
                a.as_str(),
                b.as_str(),
            ),
            (Backend::SpotifastWin, Backend::SpotifastWin) => true,
            (Backend::Cliamp, Backend::Cliamp) => true,
            _ => false,
        }
    }
}

} // verus!
