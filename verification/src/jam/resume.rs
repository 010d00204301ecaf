//! The questions that a session puts, and what it does with the answers.
use super::hosting::{oembed, oembed_url};
use super::{
    Answered, AnsweredView, Cont, ContView, CoreView, Drawn, DrawnView, JamCore, Offered,
    OfferedView,
};
use crate::document::{parse_bytes, parsed_bytes};
use crate::json::{Json, JsonView};
use crate::player::{Backend, BackendView, PlayerState, PlayerStateView};
use crate::text::option_view;
use vstd::prelude::*;

verus! {

/// What the session has to know.
#[derive(Debug)]
pub enum Question {
    /// What is the player doing?
    Player,
    /// Can this player be had? By what name?
    MakePlayer(Backend),
    /// Can the signaling server be connected to, under this id?
    Connect(String),
    /// Can a connection be offered, with this id?
    Offer(String),
    /// Can this offer be answered, by a connection with this id?
    Answer { connection_id: String, sdp: Json },
    /// Can this answer be accepted?
    Accept(Json),
    /// Is there a data channel of the guest's?
    Channel,
    /// What is the JSON document at this address?
    Fetch(String),
    /// What is the JSON document at this address, had in another way?
    Curl(String),
    /// Does the player's own queue take this song?
    Enqueue { uri: String, title: String, artist: String },
}

/// What the session has to know.
pub enum QuestionView {
    Player,
    MakePlayer(BackendView),
    Connect(Seq<char>),
    Offer(Seq<char>),
    Answer { connection_id: Seq<char>, sdp: JsonView },
    Accept(JsonView),
    Channel,
    Fetch(Seq<char>),
    Curl(Seq<char>),
    Enqueue { uri: Seq<char>, title: Seq<char>, artist: Seq<char> },
}

impl View for Question {
    type V = QuestionView;

    open spec fn view(&self) -> QuestionView {
        match self {
            Question::Player => QuestionView::Player,
            Question::MakePlayer(b) => QuestionView::MakePlayer(b@),
            Question::Connect(id) => QuestionView::Connect(id@),
            Question::Offer(id) => QuestionView::Offer(id@),
            Question::Answer { connection_id, sdp } => QuestionView::Answer {
                connection_id: connection_id@,
                sdp: sdp@,
            },
            Question::Accept(sdp) => QuestionView::Accept(sdp@),
            Question::Channel => QuestionView::Channel,
            Question::Fetch(url) => QuestionView::Fetch(url@),
            Question::Curl(url) => QuestionView::Curl(url@),
            Question::Enqueue { uri, title, artist } => QuestionView::Enqueue {
                uri: uri@,
                title: title@,
                artist: artist@,
            },
        }
    }
}

/// Why a document could not be had.
#[derive(Debug)]
pub enum FetchError {
    Request(String),
    Parse(String),
}

/// Why a document could not be had.
pub enum FetchErrorView {
    Request(Seq<char>),
    Parse(Seq<char>),
}

impl View for FetchError {
    type V = FetchErrorView;

    open spec fn view(&self) -> FetchErrorView {
        match self {
            FetchError::Request(e) => FetchErrorView::Request(e@),
            FetchError::Parse(e) => FetchErrorView::Parse(e@),
        }
    }
}

impl FetchErrorView {
    /// The line that the log gets.
    pub open spec fn line(self) -> Seq<char> {
        match self {
            FetchErrorView::Request(e) => "oembed: request failed: "@ + e,
            FetchErrorView::Parse(e) => "oembed: parse failed: "@ + e,
        }
    }
}

impl FetchError {
    /// The line that the log gets.
    fn line(&self) -> (r: String)
        ensures
            r@ == self@.line(),
    {
        match self {
            FetchError::Request(e) => {
                let mut m = "oembed: request failed: ".to_owned();
                m.append(e.as_str());
                m
            },
            FetchError::Parse(e) => {
                let mut m = "oembed: parse failed: ".to_owned();
                m.append(e.as_str());
                m
            },
        }
    }
}

/// What the session is told.
#[derive(Debug)]
pub enum Answer {
    Player(Option<PlayerState>),
    /// The player's name, or why it cannot be had.
    Made(Result<String, String>),
    Connected(Result<(), String>),
    Offered(Offered),
    Answered(Answered),
    Accepted(Result<(), String>),
    Channel(bool),
    Fetched(Result<Json, FetchError>),
    Curled(Option<Json>),
    Enqueued(bool),
}

/// What the session is told.
pub enum AnswerView {
    Player(Option<PlayerStateView>),
    Made(Result<Seq<char>, Seq<char>>),
    Connected(Result<(), Seq<char>>),
    Offered(OfferedView),
    Answered(AnsweredView),
    Accepted(Result<(), Seq<char>>),
    Channel(bool),
    Fetched(Result<JsonView, FetchErrorView>),
    Curled(Option<JsonView>),
    Enqueued(bool),
}

/// The view of a result.
pub open spec fn result_view<T: View, E: View>(r: Result<T, E>) -> Result<T::V, E::V> {
    match r {
        Ok(t) => Ok(t@),
        Err(e) => Err(e@),
    }
}

/// The view of a result without a value.
pub open spec fn done_view(r: Result<(), String>) -> Result<(), Seq<char>> {
    match r {
        Ok(_) => Ok(()),
        Err(e) => Err(e@),
    }
}

impl View for Answer {
    type V = AnswerView;

    open spec fn view(&self) -> AnswerView {
        match self {
            Answer::Player(st) => AnswerView::Player(option_view(*st)),
            Answer::Made(r) => AnswerView::Made(result_view(*r)),
            Answer::Connected(r) => AnswerView::Connected(done_view(*r)),
            Answer::Offered(r) => AnswerView::Offered(r@),
            Answer::Answered(r) => AnswerView::Answered(r@),
            Answer::Accepted(r) => AnswerView::Accepted(done_view(*r)),
            Answer::Channel(b) => AnswerView::Channel(*b),
            Answer::Fetched(r) => AnswerView::Fetched(result_view(*r)),
            Answer::Curled(v) => AnswerView::Curled(option_view(*v)),
            Answer::Enqueued(b) => AnswerView::Enqueued(*b),
        }
    }
}

impl Answer {
    /// The answer that the output of a program is which fetches a document; `None` where the
    /// program failed.
    pub fn of_output(out: Option<Vec<u8>>) -> (r: Answer)
        ensures
            r@ == AnswerView::Curled(
                match out {
                    Some(b) => parsed_bytes(b@),
                    None => None,
                },
            ),
    {
        match out {
            Some(b) => Answer::Curled(parse_bytes(b.as_slice())),
            None => Answer::Curled(None),
        }
    }
}

/// The address under which a song is looked up.
pub open spec fn lookup_url(uri: Seq<char>) -> Seq<char> {
    match oembed_url(uri) {
        Some(url) => url,
        None => Seq::empty(),
    }
}

/// The address under which a song is looked up.
fn lookup_address(uri: &str) -> (r: String)
    ensures
        r@ == lookup_url(uri@),
{
    match oembed(uri) {
        Some(url) => url,
        None => String::new(),
    }
}

impl CoreView {
    /// What the session has to know, if anything.
    pub open spec fn question(self) -> Option<QuestionView> {
        match self.waiting {
            None => None,
            Some(k) => Some(
                match k {
                    ContView::Swap { backend } => QuestionView::MakePlayer(backend),
                    ContView::SessionConnect { .. } => QuestionView::Connect(self.who.jam_id),
                    ContView::Reconnect { id, .. } => QuestionView::Connect(id),
                    ContView::Offer { connection_id } => QuestionView::Offer(connection_id),
                    ContView::Answer { connection_id, sdp } => QuestionView::Answer {
                        connection_id,
                        sdp,
                    },
                    ContView::Accept { sdp } => QuestionView::Accept(sdp),
                    ContView::Channel => QuestionView::Channel,
                    ContView::Meta { track, .. } => QuestionView::Fetch(lookup_url(track.uri)),
                    ContView::Curl { track, .. } => QuestionView::Curl(lookup_url(track.uri)),
                    ContView::Enqueue { track, .. } => QuestionView::Enqueue {
                        uri: track.uri,
                        title: track.title,
                        artist: track.artist,
                    },
                    _ => QuestionView::Player,
                },
            ),
        }
    }

    /// With what the player is doing known.
    pub open spec fn player_known(
        self,
        k: ContView,
        st: Option<PlayerStateView>,
        d: DrawnView,
    ) -> CoreView {
        match k {
            ContView::Boot => self.booted(st),
            ContView::SwapAdopt => self.swap_adopted(st),
            ContView::SwapBaseline => self.swap_based(st),
            ContView::SwapTell => self.swap_told(st),
            ContView::SessionBaseline { code, name } => self.based(st).session_named(
                code,
                name,
                d,
            ),
            ContView::SessionAdopt => self.adopted(st),
            ContView::Join { name } => self.welcomed(name, st),
            ContView::Sync => self.synced(st),
            ContView::QueueStart => self.queue_started(st),
            ContView::Align { uri, want_us, paused, np, progress } => self.aligned(
                uri,
                want_us,
                paused,
                np,
                st,
            ).resumed_tick(progress),
            ContView::Drift { pos_us, ts } => self.drift_measured(pos_us, ts, st),
            ContView::Pending { mode } => self.pending_made(st).mode_ticked(mode),
            ContView::Lock => self.locked(st),
            ContView::Watch => self.watch_done(st),
            ContView::Tick => self.position_sent(st).pause_ticked(),
            ContView::PauseCheck => self.pause_asserted(st),
            _ => self.asked(k),
        }
    }

    /// With the question answered. An answer to another question changes nothing.
    pub open spec fn answered(self, a: AnswerView, d: DrawnView) -> CoreView {
        match self.waiting {
            None => self,
            Some(k) => {
                let c = CoreView { waiting: None, ..self };
                match (k, a) {
                    (ContView::Swap { .. }, AnswerView::Made(r)) => c.swapped(r),
                    (ContView::SessionConnect { code }, AnswerView::Connected(r)) =>
                        c.session_connected(code, r),
                    (ContView::Reconnect { id, mode }, AnswerView::Connected(r)) => c.reconnected(
                        id,
                        mode,
                        r,
                    ),
                    (ContView::Offer { connection_id }, AnswerView::Offered(r)) => c.offer_made(
                        connection_id,
                        r,
                    ),
                    (ContView::Answer { connection_id, .. }, AnswerView::Answered(r)) =>
                        c.answer_made(connection_id, r),
                    (ContView::Accept { .. }, AnswerView::Accepted(r)) => c.answer_accepted(r),
                    (ContView::Channel, AnswerView::Channel(b)) => c.channel_taken(b),
                    (ContView::Meta { track, purpose }, AnswerView::Fetched(r)) => match r {
                        Ok(v) => c.described(track, v, purpose),
                        Err(e) => c.lookup_failed(track, e.line(), purpose),
                    },
                    (ContView::Curl { track, purpose }, AnswerView::Curled(v)) =>
                        c.looked_up_again(track, v, purpose),
                    (ContView::Enqueue { track, who }, AnswerView::Enqueued(b)) => c.enqueued(
                        track,
                        who,
                        b,
                    ),
                    (_, AnswerView::Player(st)) => c.player_known(k, st, d),
                    _ => self,
                }
            },
        }
    }
}

impl JamCore {
    /// What the session has to know, if anything.
    pub fn question(&self) -> (r: Option<Question>)
        ensures
            option_view(r) == self@.question(),
    {
        let k = match &self.waiting {
            Some(k) => k,
            None => return None,
        };
        Some(
            match k {
                Cont::Swap { backend } => Question::MakePlayer(backend.clone()),
                Cont::SessionConnect { .. } => Question::Connect(self.who.jam_id.clone()),
                Cont::Reconnect { id, .. } => Question::Connect(id.clone()),
                Cont::Offer { connection_id } => Question::Offer(connection_id.clone()),
                Cont::Answer { connection_id, sdp } => Question::Answer {
                    connection_id: connection_id.clone(),
                    sdp: sdp.clone(),
                },
                Cont::Accept { sdp } => Question::Accept(sdp.clone()),
                Cont::Channel => Question::Channel,
                Cont::Meta { track, .. } => Question::Fetch(lookup_address(track.uri.as_str())),
                Cont::Curl { track, .. } => Question::Curl(lookup_address(track.uri.as_str())),
                Cont::Enqueue { track, .. } => Question::Enqueue {
                    uri: track.uri.clone(),
                    title: track.title.clone(),
                    artist: track.artist.clone(),
                },
                _ => Question::Player,
            },
        )
    }

    /// Goes on once it is known what the player is doing.
    #[verifier::spinoff_prover]
    #[verifier::rlimit(40)]
    fn resume_player(&mut self, k: Cont, st: Option<PlayerState>, d: &Drawn)
        ensures
            final(self)@ == old(self)@.player_known(k@, option_view(st), d@),
    {
        match k {
            Cont::Boot => self.boot(st),
            Cont::SwapAdopt => self.adopt_swapped(st),
            Cont::SwapBaseline => self.base_swapped(st),
            Cont::SwapTell => self.tell_swapped(st),
            Cont::SessionBaseline { code, name } => self.base_session(code, name, st, d),
            Cont::SessionAdopt => self.adopt_player_state(st),
            Cont::Join { name } => self.welcome(name.as_str(), st),
            Cont::Sync => self.answer_sync(st),
            Cont::QueueStart => self.start_queue(st),
            Cont::Align { uri, want_us, paused, np, progress } => {
                self.align(uri.as_str(), want_us, paused, np, st);
                self.resume_tick(progress);
            },
            Cont::Drift { pos_us, ts } => self.measure_drift(pos_us, ts, st),
            Cont::Pending { mode } => {
                self.make_pending(st);
                self.tick_mode(mode);
            },
            Cont::Lock => self.enforce_lock(st),
            Cont::Watch => self.finish_watch(st),
            Cont::Tick => {
                self.send_position(st);
                self.tick_pause();
            },
            Cont::PauseCheck => self.assert_pause(st),
            _ => self.ask(k),
        }
    }

    /// Goes on with the answer to the question, with what was drawn at random.
    pub fn resume_with(&mut self, a: Answer, d: &Drawn)
        ensures
            final(self)@ == old(self)@.answered(a@, d@),
    {
        let mut waiting: Option<Cont> = None;
        std::mem::swap(&mut waiting, &mut self.waiting);
        let k = match waiting {
            Some(k) => k,
            None => return,
        };
        assert(self@ =~= CoreView { waiting: None, ..old(self)@ });
        match (k, a) {
            (Cont::Swap { .. }, Answer::Made(r)) => self.swap_player(r),
            (Cont::SessionConnect { code }, Answer::Connected(r)) => self.connect_session(
                code,
                r,
            ),
            (Cont::Reconnect { id, mode }, Answer::Connected(r)) => self.reconnect(id, mode, r),
            (Cont::Offer { connection_id }, Answer::Offered(r)) => self.connect_to_host(
                connection_id,
                r,
            ),
            (Cont::Answer { connection_id, .. }, Answer::Answered(r)) => self.answer_guest(
                connection_id,
                r,
            ),
            (Cont::Accept { .. }, Answer::Accepted(r)) => self.accept_answer(r),
            (Cont::Channel, Answer::Channel(b)) => self.take_channel(b),
            (Cont::Meta { track, purpose }, Answer::Fetched(r)) => match r {
                Ok(v) => self.describe(track, &v, purpose),
                Err(e) => {
                    let line = e.line();
                    self.fail_lookup(track, line.as_str(), purpose);
                },
            },
            (Cont::Curl { track, purpose }, Answer::Curled(v)) => self.finish_lookup(
                track,
                v,
                purpose,
            ),
            (Cont::Enqueue { track, who }, Answer::Enqueued(b)) => self.enqueue(
                track,
                who.as_str(),
                b,
            ),
            (k, Answer::Player(st)) => self.resume_player(k, st, d),
            (k, _) => self.ask(k),
        }
    }

    /// Goes on with the answer to the question.
    pub fn resume(&mut self, a: Answer)
        ensures
            exists|d: DrawnView|
                d.wf() && final(self)@ == #[trigger] old(self)@.answered(a@, d),
    {
        let d = Drawn::draw();
        self.resume_with(a, &d);
    }
}

} // verus!
