//! The session: guest and host of a Jam.
//!
//! `JamCore` holds the state of a session and decides what happens. It is told what the user
//! wants, what the connections bring and how time passes. It leaves the actions to be taken in
//! a list, and where it has to know something of the world outside (what the player is doing,
//! whether a connection could be made) it puts a question and goes on with the answer. A question
//! is to be answered before the session is told anything else.
pub mod connecting;
pub mod delivery;
pub mod following;
pub mod hosting;
pub mod inbound;
pub mod keeping;
pub mod laws;
pub mod leading;
pub mod resume;
pub mod session;
pub mod signal;
pub mod sync;
pub mod ticking;

use crate::binarypack::{group_packed_views, pack, packed, pairs, Packed, PackedView};
use crate::clock::{time_of_day, Clock};
use crate::codec::{frame_views, frames, message_bytes, CodecView, JamCodec, CHUNKED_MTU};
use crate::json::{Json, JsonView};
use crate::peerjs::{all_alnum, all_upper, is_uuid, random_token, random_token_upper, random_uuid};
use crate::player::{Backend, BackendView};
use crate::position::PosTracker;
use crate::text::{option_view, texts};
use crate::track::{member_views, track_views, Member, MemberView, Track, TrackView};
use vstd::prelude::*;

verus! {

/// Where a session stands.
#[derive(Debug, Clone, Copy, PartialEq, Eq, Structural)]
pub enum Mode {
    Idle,
    Joining,
    Guest,
    Hosting,
}

/// How many lines the log keeps.
pub const LOG_LINES: usize = 400;

/// What the user sees of a session. Times are in microseconds.
#[derive(Debug, Clone)]
pub struct SharedState {
    pub mode: Mode,
    pub jam_id: String,
    pub host_name: String,
    pub display_name: String,
    pub gc: bool,
    pub ping_ms: i64,
    pub connected: bool,
    pub members: Vec<Member>,
    pub now_playing: Option<Track>,
    pub playing: bool,
    pub progress_us: i64,
    pub duration_us: i64,
    pub queue: Vec<Track>,
    pub error: Option<String>,
    pub backend: String,
    pub logs: Vec<String>,
    pub drift_enabled: bool,
    pub drift_deadband_us: u64,
    pub drift_jump_us: u64,
}

/// What the user sees of a session.
pub struct SharedView {
    pub mode: Mode,
    pub jam_id: Seq<char>,
    pub host_name: Seq<char>,
    pub display_name: Seq<char>,
    pub gc: bool,
    pub ping_ms: i64,
    pub connected: bool,
    pub members: Seq<MemberView>,
    pub now_playing: Option<TrackView>,
    pub playing: bool,
    pub progress_us: i64,
    pub duration_us: i64,
    pub queue: Seq<TrackView>,
    pub error: Option<Seq<char>>,
    pub backend: Seq<char>,
    pub logs: Seq<Seq<char>>,
    pub drift_enabled: bool,
    pub drift_deadband_us: u64,
    pub drift_jump_us: u64,
}

impl View for SharedState {
    type V = SharedView;

    open spec fn view(&self) -> SharedView {
        SharedView {
            mode: self.mode,
            jam_id: self.jam_id@,
            host_name: self.host_name@,
            display_name: self.display_name@,
            gc: self.gc,
            ping_ms: self.ping_ms,
            connected: self.connected,
            members: member_views(self.members@),
            now_playing: option_view(self.now_playing),
            playing: self.playing,
            progress_us: self.progress_us,
            duration_us: self.duration_us,
            queue: track_views(self.queue@),
            error: option_view(self.error),
            backend: self.backend@,
            logs: texts(self.logs@),
            drift_enabled: self.drift_enabled,
            drift_deadband_us: self.drift_deadband_us,
            drift_jump_us: self.drift_jump_us,
        }
    }
}

/// The ping while it is not known.
pub const NO_PING: i64 = -1;

/// What the user sees before anything has happened.
pub open spec fn initial_shared() -> SharedView {
    SharedView {
        mode: Mode::Idle,
        jam_id: Seq::empty(),
        host_name: Seq::empty(),
        display_name: Seq::empty(),
        gc: false,
        ping_ms: NO_PING,
        connected: false,
        members: Seq::empty(),
        now_playing: None,
        playing: false,
        progress_us: 0,
        duration_us: 0,
        queue: Seq::empty(),
        error: None,
        backend: Seq::empty(),
        logs: Seq::empty(),
        drift_enabled: true,
        drift_deadband_us: 160_000,
        drift_jump_us: 650_000,
    }
}

impl Default for SharedState {
    fn default() -> (r: SharedState)
        ensures
            r@ == initial_shared(),
    {
        let r = SharedState {
            mode: Mode::Idle,
            jam_id: String::new(),
            host_name: String::new(),
            display_name: String::new(),
            gc: false,
            ping_ms: NO_PING,
            connected: false,
            members: Vec::new(),
            now_playing: None,
            playing: false,
            progress_us: 0,
            duration_us: 0,
            queue: Vec::new(),
            error: None,
            backend: String::new(),
            logs: Vec::new(),
            drift_enabled: true,
            drift_deadband_us: 160_000,
            drift_jump_us: 650_000,
        };
        assert(member_views(r.members@) =~= Seq::empty());
        assert(track_views(r.queue@) =~= Seq::empty());
        assert(texts(r.logs@) =~= Seq::empty());
        r
    }
}

/// What the user wants.
#[derive(Debug, Clone)]
#[allow(inconsistent_fields)]
pub enum UiCmd {
    Join { code: String, name: String },
    Host { name: String, gc: bool, code: Option<String> },
    SetBackend(Backend),
    Leave,
    Play,
    Pause,
    Next,
    SyncNow,
    /// Guest: send a song to the host's queue.
    AddToQueue { uri: String },
    /// Guest: tune the drift correction.
    SetDrift { enabled: bool, deadband_us: i64, jump_us: i64 },
    /// Host: whether the guest may control playback.
    SetGc(bool),
}

/// What the user wants.
#[allow(inconsistent_fields)]
pub enum UiCmdView {
    Join { code: Seq<char>, name: Seq<char> },
    Host { name: Seq<char>, gc: bool, code: Option<Seq<char>> },
    SetBackend(BackendView),
    Leave,
    Play,
    Pause,
    Next,
    SyncNow,
    AddToQueue { uri: Seq<char> },
    SetDrift { enabled: bool, deadband_us: i64, jump_us: i64 },
    SetGc(bool),
}

impl View for UiCmd {
    type V = UiCmdView;

    open spec fn view(&self) -> UiCmdView {
        match self {
            UiCmd::Join { code, name } => UiCmdView::Join { code: code@, name: name@ },
            UiCmd::Host { name, gc, code } => UiCmdView::Host {
                name: name@,
                gc: *gc,
                code: option_view(*code),
            },
            UiCmd::SetBackend(b) => UiCmdView::SetBackend(b@),
            UiCmd::Leave => UiCmdView::Leave,
            UiCmd::Play => UiCmdView::Play,
            UiCmd::Pause => UiCmdView::Pause,
            UiCmd::Next => UiCmdView::Next,
            UiCmd::SyncNow => UiCmdView::SyncNow,
            UiCmd::AddToQueue { uri } => UiCmdView::AddToQueue { uri: uri@ },
            UiCmd::SetDrift { enabled, deadband_us, jump_us } => UiCmdView::SetDrift {
                enabled: *enabled,
                deadband_us: *deadband_us,
                jump_us: *jump_us,
            },
            UiCmd::SetGc(v) => UiCmdView::SetGc(*v),
        }
    }
}

/// What the player is told.
#[derive(Debug)]
pub enum PlayerOp {
    Play,
    Pause,
    /// Skip in the player's own queue.
    Next,
    /// Go to a position, in microseconds.
    Seek(i64),
    Open { uri: String, title: String, artist: String },
}

/// What the player is told.
pub enum PlayerOpView {
    Play,
    Pause,
    Next,
    Seek(i64),
    Open { uri: Seq<char>, title: Seq<char>, artist: Seq<char> },
}

impl View for PlayerOp {
    type V = PlayerOpView;

    open spec fn view(&self) -> PlayerOpView {
        match self {
            PlayerOp::Play => PlayerOpView::Play,
            PlayerOp::Pause => PlayerOpView::Pause,
            PlayerOp::Next => PlayerOpView::Next,
            PlayerOp::Seek(us) => PlayerOpView::Seek(*us),
            PlayerOp::Open { uri, title, artist } => PlayerOpView::Open {
                uri: uri@,
                title: title@,
                artist: artist@,
            },
        }
    }
}

/// What is to be done outside the session.
#[derive(Debug)]
pub enum Action {
    /// Send a message over the data channel: its frames, in order.
    Send { msg: Json, frames: Vec<Vec<u8>> },
    /// Send the notice that this side closes, as one frame.
    Goodbye(Vec<u8>),
    /// Drop the peer connection.
    DropPeer,
    /// Send a message to the signaling server.
    Signal(Json),
    /// Close the signaling connection.
    CloseSignaling,
    /// Let go of a signaling connection that has ended.
    DropSignaling,
    /// Hand the other peer's ICE candidate to the peer connection.
    AddCandidate { candidate: String, mid: String },
    /// Report back that the peer is open.
    RaiseOpen(String),
    /// Report back an error of the signaling server.
    RaiseError(String),
    Player(PlayerOp),
}

/// What is to be done outside the session.
pub enum ActionView {
    Send { msg: JsonView, frames: Seq<Seq<u8>> },
    Goodbye(Seq<u8>),
    DropPeer,
    Signal(JsonView),
    CloseSignaling,
    DropSignaling,
    AddCandidate { candidate: Seq<char>, mid: Seq<char> },
    RaiseOpen(Seq<char>),
    RaiseError(Seq<char>),
    Player(PlayerOpView),
}

impl View for Action {
    type V = ActionView;

    open spec fn view(&self) -> ActionView {
        match self {
            Action::Send { msg, frames } => ActionView::Send {
                msg: msg@,
                frames: frame_views(frames@),
            },
            Action::Goodbye(b) => ActionView::Goodbye(b@),
            Action::DropPeer => ActionView::DropPeer,
            Action::Signal(v) => ActionView::Signal(v@),
            Action::CloseSignaling => ActionView::CloseSignaling,
            Action::DropSignaling => ActionView::DropSignaling,
            Action::AddCandidate { candidate, mid } => ActionView::AddCandidate {
                candidate: candidate@,
                mid: mid@,
            },
            Action::RaiseOpen(id) => ActionView::RaiseOpen(id@),
            Action::RaiseError(e) => ActionView::RaiseError(e@),
            Action::Player(op) => ActionView::Player(op@),
        }
    }
}

/// The views of a list of actions.
pub open spec fn action_views(s: Seq<Action>) -> Seq<ActionView> {
    Seq::new(s.len(), |i: int| s[i]@)
}

/// What a song's title is looked up for.
#[derive(Debug)]
pub enum Purpose {
    /// To add it to the queue, for someone.
    Queue(String),
    /// To play it now.
    Play,
}

/// What a song's title is looked up for.
pub enum PurposeView {
    Queue(Seq<char>),
    Play,
}

impl View for Purpose {
    type V = PurposeView;

    open spec fn view(&self) -> PurposeView {
        match self {
            Purpose::Queue(who) => PurposeView::Queue(who@),
            Purpose::Play => PurposeView::Play,
        }
    }
}

/// What the session goes on with when its question is answered.
#[derive(Debug)]
pub enum Cont {
    /// Show what the player is doing at the start.
    Boot,
    /// Switch to another player.
    Swap { backend: Backend },
    /// Take over what the new player is doing.
    SwapAdopt,
    /// Guest: the new player's song is no pick of the guest's.
    SwapBaseline,
    /// Host: tell the guest what the new player is doing.
    SwapTell,
    /// Guest: what plays before joining is no pick of the guest's.
    SessionBaseline { code: String, name: String },
    /// Register with the signaling server.
    SessionConnect { code: String },
    /// Take over what the player is doing.
    SessionAdopt,
    /// Guest: offer a connection to the host.
    Offer { connection_id: String },
    /// Host: answer a guest's offer.
    Answer { connection_id: String, sdp: Json },
    /// Guest: accept the host's answer.
    Accept { sdp: Json },
    /// Host: take over the data channel that the guest has opened.
    Channel,
    /// Host: welcome a guest.
    Join { name: String },
    /// Host: tell the guest the current song.
    Sync,
    /// Host: look up a song's title.
    Meta { track: Track, purpose: Purpose },
    /// Host: look up a song's title in another way.
    Curl { track: Track, purpose: Purpose },
    /// Host: add a song to the player's own queue.
    Enqueue { track: Track, who: String },
    /// Host: start the queue where nothing plays.
    QueueStart,
    /// Guest: bring the player to the host's song; `progress` tells that a tick goes on then.
    Align { uri: String, want_us: i64, paused: bool, np: Option<Track>, progress: bool },
    /// Guest: measure the drift.
    Drift { pos_us: i64, ts: i64 },
    /// Connect to the signaling server again, as `id`.
    Reconnect { id: String, mode: Mode },
    /// Guest: seek once the song has been opened.
    Pending { mode: Mode },
    /// Guest: hold the player to the host's song.
    Lock,
    /// Host: watch the player.
    Watch,
    /// Host: send the position to measure drift by.
    Tick,
    /// Host: assert a pause again.
    PauseCheck,
}

/// What the session goes on with when its question is answered.
pub enum ContView {
    Boot,
    Swap { backend: BackendView },
    SwapAdopt,
    SwapBaseline,
    SwapTell,
    SessionBaseline { code: Seq<char>, name: Seq<char> },
    SessionConnect { code: Seq<char> },
    SessionAdopt,
    Offer { connection_id: Seq<char> },
    Answer { connection_id: Seq<char>, sdp: JsonView },
    Accept { sdp: JsonView },
    Channel,
    Join { name: Seq<char> },
    Sync,
    Meta { track: TrackView, purpose: PurposeView },
    Curl { track: TrackView, purpose: PurposeView },
    Enqueue { track: TrackView, who: Seq<char> },
    QueueStart,
    Align {
        uri: Seq<char>,
        want_us: i64,
        paused: bool,
        np: Option<TrackView>,
        progress: bool,
    },
    Drift { pos_us: i64, ts: i64 },
    Reconnect { id: Seq<char>, mode: Mode },
    Pending { mode: Mode },
    Lock,
    Watch,
    Tick,
    PauseCheck,
}

impl View for Cont {
    type V = ContView;

    open spec fn view(&self) -> ContView {
        match self {
            Cont::Boot => ContView::Boot,
            Cont::Swap { backend } => ContView::Swap { backend: backend@ },
            Cont::SwapAdopt => ContView::SwapAdopt,
            Cont::SwapBaseline => ContView::SwapBaseline,
            Cont::SwapTell => ContView::SwapTell,
            Cont::SessionBaseline { code, name } => ContView::SessionBaseline {
                code: code@,
                name: name@,
            },
            Cont::SessionConnect { code } => ContView::SessionConnect { code: code@ },
            Cont::SessionAdopt => ContView::SessionAdopt,
            Cont::Offer { connection_id } => ContView::Offer { connection_id: connection_id@ },
            Cont::Answer { connection_id, sdp } => ContView::Answer {
                connection_id: connection_id@,
                sdp: sdp@,
            },
            Cont::Accept { sdp } => ContView::Accept { sdp: sdp@ },
            Cont::Channel => ContView::Channel,
            Cont::Join { name } => ContView::Join { name: name@ },
            Cont::Sync => ContView::Sync,
            Cont::Meta { track, purpose } => ContView::Meta { track: track@, purpose: purpose@ },
            Cont::Curl { track, purpose } => ContView::Curl { track: track@, purpose: purpose@ },
            Cont::Enqueue { track, who } => ContView::Enqueue { track: track@, who: who@ },
            Cont::QueueStart => ContView::QueueStart,
            Cont::Align { uri, want_us, paused, np, progress } => ContView::Align {
                uri: uri@,
                want_us: *want_us,
                paused: *paused,
                np: option_view(*np),
                progress: *progress,
            },
            Cont::Drift { pos_us, ts } => ContView::Drift { pos_us: *pos_us, ts: *ts },
            Cont::Reconnect { id, mode } => ContView::Reconnect { id: id@, mode: *mode },
            Cont::Pending { mode } => ContView::Pending { mode: *mode },
            Cont::Lock => ContView::Lock,
            Cont::Watch => ContView::Watch,
            Cont::Tick => ContView::Tick,
            Cont::PauseCheck => ContView::PauseCheck,
        }
    }
}

/// How offering a connection went.
#[derive(Debug)]
pub enum Offered {
    /// The offer is under way, with a data channel.
    Open,
    /// There is no peer connection.
    NoPeer(String),
    /// The peer connection is there, but no offer; perhaps a data channel.
    Failed { channel: bool, error: String },
}

/// How offering a connection went.
pub enum OfferedView {
    Open,
    NoPeer(Seq<char>),
    Failed { channel: bool, error: Seq<char> },
}

impl View for Offered {
    type V = OfferedView;

    open spec fn view(&self) -> OfferedView {
        match self {
            Offered::Open => OfferedView::Open,
            Offered::NoPeer(e) => OfferedView::NoPeer(e@),
            Offered::Failed { channel, error } => OfferedView::Failed {
                channel: *channel,
                error: error@,
            },
        }
    }
}

/// How answering an offer went.
#[derive(Debug)]
pub enum Answered {
    Done,
    /// There is no peer connection.
    NoPeer(String),
    Failed(String),
}

/// How answering an offer went.
pub enum AnsweredView {
    Done,
    NoPeer(Seq<char>),
    Failed(Seq<char>),
}

impl View for Answered {
    type V = AnsweredView;

    open spec fn view(&self) -> AnsweredView {
        match self {
            Answered::Done => AnsweredView::Done,
            Answered::NoPeer(e) => AnsweredView::NoPeer(e@),
            Answered::Failed(e) => AnsweredView::Failed(e@),
        }
    }
}

/// The peer connection.
#[derive(Debug)]
struct Peer {
    connection_id: String,
    /// Whether there is a data channel.
    channel: bool,
}

/// The peer connection.
pub struct PeerView {
    pub connection_id: Seq<char>,
    pub channel: bool,
}

impl View for Peer {
    type V = PeerView;

    closed spec fn view(&self) -> PeerView {
        PeerView { connection_id: self.connection_id@, channel: self.channel }
    }
}

/// Who takes part in the session.
#[derive(Debug)]
struct Who {
    is_host: bool,
    jam_id: String,
    target_code: Option<String>,
    remote_id: String,
    guest_name: String,
    host_name: String,
    gc: bool,
    members: Vec<Member>,
}

/// Who takes part in the session.
pub struct WhoView {
    pub is_host: bool,
    /// The id of this peer.
    pub jam_id: Seq<char>,
    /// Guest: the code of the Jam, kept for reconnecting.
    pub target_code: Option<Seq<char>>,
    /// Host: the id of the guest.
    pub remote_id: Seq<char>,
    pub guest_name: Seq<char>,
    pub host_name: Seq<char>,
    /// Whether the guest may control playback.
    pub gc: bool,
    pub members: Seq<MemberView>,
}

impl View for Who {
    type V = WhoView;

    closed spec fn view(&self) -> WhoView {
        WhoView {
            is_host: self.is_host,
            jam_id: self.jam_id@,
            target_code: option_view(self.target_code),
            remote_id: self.remote_id@,
            guest_name: self.guest_name@,
            host_name: self.host_name@,
            gc: self.gc,
            members: member_views(self.members@),
        }
    }
}

/// How the connection fares.
#[derive(Debug, Clone, Copy)]
pub struct Link {
    pub ping_ms: i64,
    pub reconnects: u32,
    pub reconnect_at: Option<u64>,
    pub joining_since: Option<u64>,
}

/// The guest's drift correction. Times are in microseconds.
#[derive(Debug, Clone, Copy)]
pub struct Drift {
    /// The smoothed drift.
    pub ema: u64,
    /// How often in a row it was past the deadband.
    pub count: u32,
    pub deadband: u64,
    pub jump: u64,
    pub enabled: bool,
}

/// When each kind of periodic work was last done.
#[derive(Debug, Clone, Copy)]
pub struct Timers {
    pub ping: u64,
    pub sync: u64,
    pub lock: u64,
    pub watch: u64,
    pub tick: u64,
    pub pause: u64,
}

/// What the host plays, as far as the guest knows.
#[derive(Debug)]
struct Target {
    uri: String,
    title: String,
    artist: String,
    pos_us: i64,
    at: u64,
    playing: bool,
}

/// What the host plays, as far as the guest knows.
pub struct TargetView {
    pub uri: Seq<char>,
    pub title: Seq<char>,
    pub artist: Seq<char>,
    pub pos_us: i64,
    /// When the position was that.
    pub at: u64,
    pub playing: bool,
}

impl View for Target {
    type V = TargetView;

    closed spec fn view(&self) -> TargetView {
        TargetView {
            uri: self.uri@,
            title: self.title@,
            artist: self.artist@,
            pos_us: self.pos_us,
            at: self.at,
            playing: self.playing,
        }
    }
}

impl Clone for Target {
    fn clone(&self) -> (r: Target)
        ensures
            r@ == self@,
    {
        Target {
            uri: self.uri.clone(),
            title: self.title.clone(),
            artist: self.artist.clone(),
            pos_us: self.pos_us,
            at: self.at,
            playing: self.playing,
        }
    }
}

/// A seek that waits until the song has been opened.
#[derive(Debug)]
struct PendingSeek {
    uri: String,
    title: String,
    target_us: i64,
    paused: bool,
    deadline: u64,
    opened: bool,
}

/// A seek that waits until the song has been opened.
pub struct PendingView {
    pub uri: Seq<char>,
    pub title: Seq<char>,
    pub target_us: i64,
    pub paused: bool,
    pub deadline: u64,
    pub opened: bool,
}

impl View for PendingSeek {
    type V = PendingView;

    closed spec fn view(&self) -> PendingView {
        PendingView {
            uri: self.uri@,
            title: self.title@,
            target_us: self.target_us,
            paused: self.paused,
            deadline: self.deadline,
            opened: self.opened,
        }
    }
}

/// The local song at the last look: its key, position and duration.
#[derive(Debug)]
struct Local {
    key: String,
    pos_us: i64,
    dur_us: i64,
}

/// The local song at the last look.
pub struct LocalView {
    pub key: Seq<char>,
    pub pos_us: i64,
    pub dur_us: i64,
}

impl View for Local {
    type V = LocalView;

    closed spec fn view(&self) -> LocalView {
        LocalView { key: self.key@, pos_us: self.pos_us, dur_us: self.dur_us }
    }
}

/// How the guest follows the host.
#[derive(Debug)]
struct Follow {
    target: Option<Target>,
    pending: Option<PendingSeek>,
    last_applied: Option<u64>,
    last_sync_req: Option<u64>,
    playuri_sent: Option<String>,
    playuri_sent_at: Option<u64>,
    join_baseline: Option<String>,
    settle_until: Option<u64>,
    last_local: Option<Local>,
}

/// How the guest follows the host.
pub struct FollowView {
    pub target: Option<TargetView>,
    pub pending: Option<PendingView>,
    /// When the player was last brought to the host's song.
    pub last_applied: Option<u64>,
    /// When the host was last asked for its song.
    pub last_sync_req: Option<u64>,
    /// The song that the host was last asked to play.
    pub playuri_sent: Option<Seq<char>>,
    pub playuri_sent_at: Option<u64>,
    /// The song that played before, which is no pick of the guest's.
    pub join_baseline: Option<Seq<char>>,
    /// Until then nothing is taken for a pick of the guest's.
    pub settle_until: Option<u64>,
    pub last_local: Option<LocalView>,
}

impl View for Follow {
    type V = FollowView;

    closed spec fn view(&self) -> FollowView {
        FollowView {
            target: option_view(self.target),
            pending: option_view(self.pending),
            last_applied: self.last_applied,
            last_sync_req: self.last_sync_req,
            playuri_sent: option_view(self.playuri_sent),
            playuri_sent_at: self.playuri_sent_at,
            join_baseline: option_view(self.join_baseline),
            settle_until: self.settle_until,
            last_local: option_view(self.last_local),
        }
    }
}

/// What the host has seen of its player.
#[derive(Debug)]
struct Watch {
    last_uri: Option<String>,
    last_playing: Option<bool>,
}

/// What the host has seen of its player.
pub struct WatchView {
    pub last_uri: Option<Seq<char>>,
    pub last_playing: Option<bool>,
}

impl View for Watch {
    type V = WatchView;

    closed spec fn view(&self) -> WatchView {
        WatchView { last_uri: option_view(self.last_uri), last_playing: self.last_playing }
    }
}

/// A song's title and picture that were looked up.
#[derive(Debug)]
struct Title {
    uri: String,
    title: String,
    art_url: String,
}

/// A song's title and picture that were looked up.
pub struct TitleView {
    pub uri: Seq<char>,
    pub title: Seq<char>,
    pub art_url: Seq<char>,
}

impl View for Title {
    type V = TitleView;

    closed spec fn view(&self) -> TitleView {
        TitleView { uri: self.uri@, title: self.title@, art_url: self.art_url@ }
    }
}

/// The views of a list of titles.
spec fn title_views(s: Seq<Title>) -> Seq<TitleView> {
    Seq::new(s.len(), |i: int| s[i]@)
}

/// A session.
pub struct JamCore {
    shared: SharedState,
    dry_run: bool,
    clock: Clock,
    player: String,
    codec: JamCodec,
    signaling: bool,
    peer: Option<Peer>,
    out: Vec<Action>,
    waiting: Option<Cont>,
    who: Who,
    link: Link,
    queue: Vec<Track>,
    own_queue: Option<bool>,
    titles: Vec<Title>,
    follow: Follow,
    drift: Drift,
    pos: PosTracker,
    watch: Watch,
    timers: Timers,
}

/// A session.
pub struct CoreView {
    pub shared: SharedView,
    /// Whether playback is left alone.
    pub dry_run: bool,
    /// The time.
    pub clock: Clock,
    /// The player's name.
    pub player: Seq<char>,
    pub codec: CodecView,
    /// Whether there is a signaling connection.
    pub signaling: bool,
    pub peer: Option<PeerView>,
    /// What is to be done, in order.
    pub out: Seq<ActionView>,
    /// What the session goes on with when its question is answered.
    pub waiting: Option<ContView>,
    pub who: WhoView,
    pub link: Link,
    pub queue: Seq<TrackView>,
    /// Whether the player has a queue of its own, where that is known.
    pub own_queue: Option<bool>,
    pub titles: Seq<TitleView>,
    pub follow: FollowView,
    pub drift: Drift,
    pub pos: PosTracker,
    pub watch: WatchView,
    pub timers: Timers,
}

impl View for JamCore {
    type V = CoreView;

    closed spec fn view(&self) -> CoreView {
        CoreView {
            shared: self.shared@,
            dry_run: self.dry_run,
            clock: self.clock,
            player: self.player@,
            codec: self.codec@,
            signaling: self.signaling,
            peer: option_view(self.peer),
            out: action_views(self.out@),
            waiting: option_view(self.waiting),
            who: self.who@,
            link: self.link,
            queue: track_views(self.queue@),
            own_queue: self.own_queue,
            titles: title_views(self.titles@),
            follow: self.follow@,
            drift: self.drift,
            pos: self.pos,
            watch: self.watch@,
            timers: self.timers,
        }
    }
}

/// What was drawn at random for one step of a session.
#[derive(Debug)]
pub struct Drawn {
    /// The code of a Jam.
    pub code: String,
    /// The id of a guest.
    pub uuid: String,
    /// What tells one connection from another.
    pub token: String,
}

/// What was drawn at random for one step of a session.
pub struct DrawnView {
    pub code: Seq<char>,
    pub uuid: Seq<char>,
    pub token: Seq<char>,
}

impl View for Drawn {
    type V = DrawnView;

    open spec fn view(&self) -> DrawnView {
        DrawnView { code: self.code@, uuid: self.uuid@, token: self.token@ }
    }
}

impl DrawnView {
    /// The code has six upper-case letters and digits, the id is a random UUID, and the token
    /// has sixteen letters and digits.
    pub open spec fn wf(self) -> bool {
        &&& self.code.len() == 6
        &&& all_upper(self.code)
        &&& is_uuid(self.uuid)
        &&& self.token.len() == 16
        &&& all_alnum(self.token)
    }
}

impl Drawn {
    /// Draws at random.
    pub fn draw() -> (r: Drawn)
        ensures
            r@.wf(),
    {
        Drawn { code: random_token_upper(6), uuid: random_uuid(), token: random_token(16) }
    }
}

/// The notice that this side closes.
pub open spec fn goodbye() -> PackedView {
    PackedView::Dict(
        seq![
            ("__peerData"@, PackedView::Dict(seq![("type"@, PackedView::Str("close"@))])),
        ],
    )
}

/// The frame of the notice that this side closes.
fn goodbye_frame() -> (r: Vec<u8>)
    ensures
        r@ == packed(goodbye()),
{
    let mut inner: Vec<(String, Packed)> = Vec::new();
    inner.push(("type".to_owned(), Packed::Str("close".to_owned())));
    proof {
        broadcast use group_packed_views;

        assert(pairs(inner@) =~= goodbye()->Dict_0[0].1->Dict_0);
    }
    let notice = Packed::Dict(inner);
    let mut outer: Vec<(String, Packed)> = Vec::new();
    outer.push(("__peerData".to_owned(), notice));
    proof {
        broadcast use group_packed_views;

        assert(pairs(outer@) =~= goodbye()->Dict_0);
    }
    pack(&Packed::Dict(outer))
}

/// A log with one more line, of which the oldest are dropped.
pub open spec fn appended(logs: Seq<Seq<char>>, line: Seq<char>) -> Seq<Seq<char>> {
    let l = logs.push(line);
    if l.len() > LOG_LINES {
        l.skip(l.len() - LOG_LINES)
    } else {
        l
    }
}

/// Adds a line to a log and drops the oldest.
fn append_line(logs: &mut Vec<String>, line: String)
    ensures
        texts(final(logs)@) == appended(texts(old(logs)@), line@),
{
    let ghost lv = line@;
    let ghost before = texts(logs@);
    logs.push(line);
    let ghost all = before.push(lv);
    assert(texts(logs@) =~= all);
    let ghost mut k: int = 0;
    assert(all.skip(0) =~= all);
    while logs.len() > LOG_LINES
        invariant
            0 <= k,
            k + logs@.len() == all.len(),
            k > 0 ==> logs@.len() >= LOG_LINES,
            texts(logs@) == all.skip(k),
        decreases logs@.len(),
    {
        let ghost s = logs@;
        logs.remove(0);
        proof {
            k = k + 1;
        }
        assert(logs@ =~= s.skip(1));
        assert(texts(logs@) =~= texts(s).skip(1));
        assert(all.skip(k - 1).skip(1) =~= all.skip(k));
    }
}

impl CoreView {
    /// With a line in the log, behind the time of day.
    pub open spec fn logged(self, msg: Seq<char>) -> CoreView {
        CoreView {
            shared: SharedView {
                logs: appended(self.shared.logs, time_of_day(self.clock) + seq![' '] + msg),
                ..self.shared
            },
            ..self
        }
    }

    /// With one more thing to be done.
    pub open spec fn did(self, a: ActionView) -> CoreView {
        CoreView { out: self.out.push(a), ..self }
    }

    /// With a question put.
    pub open spec fn asked(self, k: ContView) -> CoreView {
        CoreView { waiting: Some(k), ..self }
    }

    /// Whether the data channel is there.
    pub open spec fn channel(self) -> bool {
        self.peer matches Some(p) && p.channel
    }

    /// With a message encoded, and sent where the data channel is there.
    pub open spec fn sent(self, msg: JsonView) -> CoreView {
        let number = self.codec.sent.wrapping_add(1);
        let blob = message_bytes(msg);
        let c = CoreView {
            codec: CodecView {
                sent: if blob.len() > CHUNKED_MTU {
                    number
                } else {
                    self.codec.sent
                },
                ..self.codec
            },
            ..self
        };
        if self.channel() {
            c.did(ActionView::Send { msg, frames: frames(blob, number) })
        } else {
            c
        }
    }

    /// With a message to the signaling server, where that is connected.
    pub open spec fn signalled(self, msg: JsonView) -> CoreView {
        if self.signaling {
            self.did(ActionView::Signal(msg))
        } else {
            self
        }
    }

    /// With the player told something, unless playback is left alone.
    pub open spec fn told(self, op: PlayerOpView) -> CoreView {
        if self.dry_run {
            self
        } else {
            self.did(ActionView::Player(op))
        }
    }

    /// Without the peer connection.
    pub open spec fn peerless(self) -> CoreView {
        if self.peer is Some {
            CoreView { peer: None, ..self }.did(ActionView::DropPeer)
        } else {
            self
        }
    }

    /// Without the signaling connection.
    pub open spec fn unsignalled(self) -> CoreView {
        if self.signaling {
            CoreView { signaling: false, ..self }.did(ActionView::CloseSignaling)
        } else {
            self
        }
    }

    /// Without connections, after a notice to the other side.
    pub open spec fn left_quietly(self) -> CoreView {
        let c = if self.channel() {
            self.did(ActionView::Goodbye(packed(goodbye())))
        } else {
            self
        };
        c.peerless().unsignalled()
    }

    /// How far the host's position is ahead of what it said: half the ping.
    pub open spec fn comp_us(self) -> i64 {
        if self.link.ping_ms > 0 {
            crate::binary64::held(self.link.ping_ms * 500) as i64
        } else {
            0
        }
    }

    /// The moment.
    pub open spec fn now(self) -> u64 {
        self.clock.steady_ns
    }
}

/// A session at its start: nothing is connected, and the player is asked what it is doing.
pub open spec fn started(player: Seq<char>, dry_run: bool, clock: Clock) -> CoreView {
    let t = clock.steady_ns;
    CoreView {
        shared: initial_shared(),
        dry_run,
        clock,
        player,
        codec: CodecView { table: Map::empty(), sent: 0 },
        signaling: false,
        peer: None,
        out: Seq::empty(),
        waiting: Some(ContView::Boot),
        who: WhoView {
            is_host: false,
            jam_id: Seq::empty(),
            target_code: None,
            remote_id: Seq::empty(),
            guest_name: Seq::empty(),
            host_name: Seq::empty(),
            gc: false,
            members: Seq::empty(),
        },
        link: Link { ping_ms: NO_PING, reconnects: 0, reconnect_at: None, joining_since: None },
        queue: Seq::empty(),
        own_queue: None,
        titles: Seq::empty(),
        follow: FollowView {
            target: None,
            pending: None,
            last_applied: None,
            last_sync_req: None,
            playuri_sent: None,
            playuri_sent_at: None,
            join_baseline: None,
            settle_until: None,
            last_local: None,
        },
        drift: Drift { ema: 0, count: 0, deadband: 160_000, jump: 650_000, enabled: true },
        pos: PosTracker::fresh(),
        watch: WatchView { last_uri: None, last_playing: None },
        timers: Timers { ping: t, sync: t, lock: t, watch: t, tick: t, pause: t },
    }
}

impl JamCore {
    /// A session with a player of the given name.
    pub fn new(player: &str, dry_run: bool, clock: Clock) -> (r: JamCore)
        ensures
            r@ == started(player@, dry_run, clock),
    {
        let t: u64 = clock.steady_ns;
        let r = JamCore {
            shared: SharedState::default(),
            dry_run,
            clock,
            player: player.to_owned(),
            codec: JamCodec::new(),
            signaling: false,
            peer: None,
            out: Vec::new(),
            waiting: Some(Cont::Boot),
            who: Who {
                is_host: false,
                jam_id: String::new(),
                target_code: None,
                remote_id: String::new(),
                guest_name: String::new(),
                host_name: String::new(),
                gc: false,
                members: Vec::new(),
            },
            link: Link { ping_ms: NO_PING, reconnects: 0, reconnect_at: None, joining_since: None },
            queue: Vec::new(),
            own_queue: None,
            titles: Vec::new(),
            follow: Follow {
                target: None,
                pending: None,
                last_applied: None,
                last_sync_req: None,
                playuri_sent: None,
                playuri_sent_at: None,
                join_baseline: None,
                settle_until: None,
                last_local: None,
            },
            drift: Drift { ema: 0, count: 0, deadband: 160_000, jump: 650_000, enabled: true },
            pos: PosTracker::new(),
            watch: Watch { last_uri: None, last_playing: None },
            timers: Timers { ping: t, sync: t, lock: t, watch: t, tick: t, pause: t },
        };
        assert(member_views(r.who.members@) =~= Seq::empty());
        assert(track_views(r.queue@) =~= Seq::empty());
        assert(action_views(r.out@) =~= Seq::empty());
        assert(title_views(r.titles@) =~= Seq::empty());
        r
    }

    /// What the user sees.
    pub fn shared(&self) -> (r: &SharedState)
        ensures
            r@ == self@.shared,
    {
        &self.shared
    }

    /// Takes what is to be done.
    pub fn take_actions(&mut self) -> (r: Vec<Action>)
        ensures
            action_views(r@) == old(self)@.out,
            final(self)@ == (CoreView { out: Seq::empty(), ..old(self)@ }),
    {
        let mut r: Vec<Action> = Vec::new();
        std::mem::swap(&mut r, &mut self.out);
        assert(self@.out =~= Seq::empty());
        r
    }

    /// Sets the time.
    pub fn set_clock(&mut self, clock: Clock)
        ensures
            final(self)@ == (CoreView { clock, ..old(self)@ }),
    {
        self.clock = clock;
    }

    /// Adds a line to the log.
    fn log(&mut self, msg: &str)
        ensures
            final(self)@ == old(self)@.logged(msg@),
    {
        let mut line = self.clock.time();
        line.push(' ');
        line.append(msg);
        let ghost lv = line@;
        assert(lv =~= time_of_day(self.clock) + seq![' '] + msg@);
        append_line(&mut self.shared.logs, line);
    }

    /// Adds something to be done.
    fn act(&mut self, a: Action)
        ensures
            final(self)@ == old(self)@.did(a@),
    {
        let ghost av = a@;
        self.out.push(a);
        assert(action_views(self.out@) =~= old(self)@.out.push(av));
    }

    /// Puts a question.
    fn ask(&mut self, k: Cont)
        ensures
            final(self)@ == old(self)@.asked(k@),
    {
        self.waiting = Some(k);
    }

    /// Whether the data channel is there.
    fn has_channel(&self) -> (r: bool)
        ensures
            r == self@.channel(),
    {
        match &self.peer {
            Some(p) => p.channel,
            None => false,
        }
    }

    /// Encodes a message, and sends it where the data channel is there.
    fn send(&mut self, msg: Json)
        ensures
            final(self)@ == old(self)@.sent(msg@),
    {
        let frames = self.codec.encode(&msg);
        if self.has_channel() {
            self.act(Action::Send { msg, frames });
        }
    }

    /// Sends a message to the signaling server, where that is connected.
    fn signal(&mut self, msg: Json)
        ensures
            final(self)@ == old(self)@.signalled(msg@),
    {
        if self.signaling {
            self.act(Action::Signal(msg));
        }
    }

    /// Tells the player something, unless playback is left alone.
    fn tell(&mut self, op: PlayerOp)
        ensures
            final(self)@ == old(self)@.told(op@),
    {
        if !self.dry_run {
            self.act(Action::Player(op));
        }
    }

    /// Drops the peer connection.
    fn drop_peer(&mut self)
        ensures
            final(self)@ == old(self)@.peerless(),
    {
        if self.peer.is_some() {
            self.peer = None;
            self.act(Action::DropPeer);
        }
    }

    /// Closes the signaling connection.
    fn close_signaling(&mut self)
        ensures
            final(self)@ == old(self)@.unsignalled(),
    {
        if self.signaling {
            self.signaling = false;
            self.act(Action::CloseSignaling);
        }
    }

    /// Drops the connections, after a notice to the other side.
    fn leave_quiet(&mut self)
        ensures
            final(self)@ == old(self)@.left_quietly(),
    {
        if self.has_channel() {
            let frame = goodbye_frame();
            self.act(Action::Goodbye(frame));
        }
        self.drop_peer();
        self.close_signaling();
    }

    /// How far the host's position is ahead of what it said.
    fn comp_us(&self) -> (r: i64)
        ensures
            r == self@.comp_us(),
    {
        if self.link.ping_ms > 0 {
            crate::binary64::hold(self.link.ping_ms as i128 * 500)
        } else {
            0
        }
    }
}

} // verus!
