//! The peer's identity and its connection to the signaling server.
use crate::document::{parse, parsed};
use crate::json::{entries, object, string, Json, JsonView};
use crate::text::{alnum, chars_of, hex, push_hex, to_upper, upper};
use vstd::prelude::*;

verus! {

/// The signaling server.
pub const CLOUD_HOST: &'static str = "0.peerjs.com";

/// The version that the client reports.
pub const PEERJS_VERSION: &'static str = "1.5.5";

/// Milliseconds between two heartbeats.
pub const HEARTBEAT_MS: u64 = 5000;

/// Milliseconds of rest after a read that brought nothing.
pub const IDLE_MS: u64 = 50;

/// `rand::Rng::random_range` on the range from zero to `n`: some number below `n`.
/// It panics on an empty range. Which number it is, is left open.
#[verifier::external_body]
fn random_index(n: usize) -> (r: usize)
    requires
        n > 0,
    ensures
        r < n,
{
    rand::Rng::random_range(&mut rand::rng(), 0..n)
}

/// `rand::Rng::fill` on an array of sixteen bytes. Nothing is promised of the bytes.
#[verifier::external_body]
fn random_bytes() -> (r: [u8; 16]) {
    let mut b = [0u8; 16];
    rand::Rng::fill(&mut rand::rng(), &mut b);
    b
}

/// The characters of a token: the lower-case letters, the upper-case letters, the digits.
pub open spec fn token_char(i: int) -> char {
    if i < 26 {
        (97 + i) as char
    } else if i < 52 {
        (65 + i - 26) as char
    } else {
        (48 + i - 52) as char
    }
}

/// The character with a given number.
fn token_char_at(i: usize) -> (c: char)
    requires
        i < 62,
    ensures
        c == token_char(i as int),
        alnum(c),
{
    if i < 26 {
        (97u8 + i as u8) as char
    } else if i < 52 {
        (65u8 + (i - 26) as u8) as char
    } else {
        (48u8 + (i - 52) as u8) as char
    }
}

/// Every character is an ASCII letter or digit.
pub open spec fn all_alnum(s: Seq<char>) -> bool {
    forall|i: int| 0 <= i < s.len() ==> alnum(#[trigger] s[i])
}

/// The token of some picks among the characters.
pub fn token_of(picks: &Vec<usize>) -> (r: String)
    requires
        forall|i: int| 0 <= i < picks@.len() ==> (#[trigger] picks@[i]) < 62,
    ensures
        r@ == Seq::new(picks@.len(), |i: int| token_char(picks@[i] as int)),
        all_alnum(r@),
{
    let n: usize = picks.len();
    let mut r = String::new();
    let mut i: usize = 0;
    while i < n
        invariant
            n == picks@.len(),
            i <= n,
            forall|k: int| 0 <= k < picks@.len() ==> (#[trigger] picks@[k]) < 62,
            r@ == Seq::new(i as nat, |k: int| token_char(picks@[k] as int)),
            all_alnum(r@),
        decreases n - i,
    {
        let c = token_char_at(picks[i]);
        r.push(c);
        assert(r@ =~= Seq::new((i + 1) as nat, |k: int| token_char(picks@[k] as int)));
        i = i + 1;
    }
    r
}

/// A random token of `n` letters and digits.
pub fn random_token(n: usize) -> (r: String)
    ensures
        r@.len() == n,
        all_alnum(r@),
{
    let mut picks: Vec<usize> = Vec::new();
    let mut i: usize = 0;
    while i < n
        invariant
            i <= n,
            picks@.len() == i,
            forall|k: int| 0 <= k < picks@.len() ==> (#[trigger] picks@[k]) < 62,
        decreases n - i,
    {
        picks.push(random_index(62));
        i = i + 1;
    }
    token_of(&picks)
}

/// The upper-case form of a text of ASCII characters.
pub open spec fn uppercase(s: Seq<char>) -> Seq<char> {
    Seq::new(s.len(), |i: int| upper(s[i]))
}

/// Letters and digits, no letter in lower case.
pub open spec fn all_upper(s: Seq<char>) -> bool {
    forall|i: int|
        0 <= i < s.len() ==> alnum(#[trigger] s[i]) && !('a' <= s[i] && s[i] <= 'z')
}

/// The upper-case form of a token.
pub fn upper_token(s: &str) -> (r: String)
    requires
        all_alnum(s@),
    ensures
        r@ == uppercase(s@),
        all_upper(r@),
{
    let v = chars_of(s);
    let n: usize = v.len();
    let mut r = String::new();
    let mut i: usize = 0;
    while i < n
        invariant
            n == v@.len(),
            v@ == s@,
            i <= n,
            all_alnum(s@),
            r@ == uppercase(s@.take(i as int)),
            all_upper(r@),
        decreases n - i,
    {
        let c = v[i];
        assert(alnum(s@[i as int]));
        r.push(to_upper(c));
        assert(r@ =~= uppercase(s@.take(i as int + 1)));
        i = i + 1;
    }
    assert(s@.take(n as int) =~= s@);
    r
}

/// A random token of `n` upper-case letters and digits.
pub fn random_token_upper(n: usize) -> (r: String)
    ensures
        r@.len() == n,
        all_upper(r@),
{
    let t = random_token(n);
    upper_token(t.as_str())
}

/// Bytes in hexadecimal, one after another.
pub open spec fn hexes(b: Seq<u8>) -> Seq<char>
    decreases b.len(),
{
    if b.len() == 0 {
        Seq::empty()
    } else {
        hexes(b.drop_last()) + hex(b.last())
    }
}

/// Sixteen bytes marked as a random UUID: version 4, variant 1.
pub open spec fn marked(b: Seq<u8>) -> Seq<u8> {
    b.update(6, (b[6] % 16 + 0x40) as u8).update(8, (b[8] % 64 + 0x80) as u8)
}

/// The text of a UUID.
pub open spec fn uuid_text(b: Seq<u8>) -> Seq<char> {
    hexes(b.subrange(0, 4)) + seq!['-'] + hexes(b.subrange(4, 6)) + seq!['-'] + hexes(
        b.subrange(6, 8),
    ) + seq!['-'] + hexes(b.subrange(8, 10)) + seq!['-'] + hexes(b.subrange(10, 16))
}

/// Appends some bytes in hexadecimal.
fn push_hexes(s: &mut String, b: &[u8; 16], from: usize, to: usize)
    requires
        from <= to <= 16,
    ensures
        final(s)@ == old(s)@ + hexes(b@.subrange(from as int, to as int)),
{
    let mut i: usize = from;
    let ghost base = s@;
    assert(b@.subrange(from as int, from as int) =~= Seq::empty());
    assert(s@ =~= base + hexes(b@.subrange(from as int, i as int)));
    while i < to
        invariant
            from <= i <= to <= 16,
            s@ == base + hexes(b@.subrange(from as int, i as int)),
        decreases to - i,
    {
        push_hex(s, b[i]);
        assert(b@.subrange(from as int, i as int + 1).drop_last() =~= b@.subrange(
            from as int,
            i as int,
        ));
        assert(b@.subrange(from as int, i as int + 1).last() == b@[i as int]);
        assert(s@ =~= base + hexes(b@.subrange(from as int, i as int + 1)));
        i = i + 1;
    }
}

/// The random UUID that sixteen bytes make.
pub fn uuid_of(bytes: [u8; 16]) -> (r: String)
    ensures
        r@ == uuid_text(marked(bytes@)),
{
    let mut b = bytes;
    b[6] = b[6] % 16 + 0x40;
    b[8] = b[8] % 64 + 0x80;
    assert(b@ =~= marked(bytes@));
    let mut s = String::new();
    push_hexes(&mut s, &b, 0, 4);
    s.push('-');
    push_hexes(&mut s, &b, 4, 6);
    s.push('-');
    push_hexes(&mut s, &b, 6, 8);
    s.push('-');
    push_hexes(&mut s, &b, 8, 10);
    s.push('-');
    push_hexes(&mut s, &b, 10, 16);
    assert(s@ =~= uuid_text(marked(bytes@)));
    s
}

/// A text is the random UUID of some sixteen bytes.
pub open spec fn is_uuid(s: Seq<char>) -> bool {
    exists|b: Seq<u8>| b.len() == 16 && s == #[trigger] uuid_text(marked(b))
}

/// A random UUID.
pub fn random_uuid() -> (r: String)
    ensures
        is_uuid(r@),
{
    let b = random_bytes();
    assert(b@.len() == 16);
    uuid_of(b)
}

/// A lower-case hexadecimal digit.
pub open spec fn hex_digit(c: char) -> bool {
    '0' <= c <= '9' || 'a' <= c <= 'f'
}

/// A UUID has 36 characters, with dashes at their places, the version 4 and a variant
/// digit from 8 to b; every character but the dashes is a lower-case hexadecimal digit.
pub proof fn law_uuid_shape(s: Seq<char>)
    requires
        is_uuid(s),
    ensures
        s.len() == 36,
        s[8] == '-' && s[13] == '-' && s[18] == '-' && s[23] == '-',
        s[14] == '4',
        s[19] == '8' || s[19] == '9' || s[19] == 'a' || s[19] == 'b',
        forall|i: int|
            0 <= i < 36 && i != 8 && i != 13 && i != 18 && i != 23 ==> hex_digit(#[trigger] s[i]),
{
    let b = choose|b: Seq<u8>| b.len() == 16 && s == #[trigger] uuid_text(marked(b));
    let m = marked(b);
    lemma_hexes_length(m.subrange(0, 4));
    lemma_hexes_length(m.subrange(4, 6));
    lemma_hexes_length(m.subrange(6, 8));
    lemma_hexes_length(m.subrange(8, 10));
    lemma_hexes_length(m.subrange(10, 16));
    lemma_hexes_start(m.subrange(6, 8));
    lemma_hexes_start(m.subrange(8, 10));
    assert((0x40 + b[6] % 16) / 16 == 4);
    assert(8 <= (0x80 + b[8] % 64) / 16 <= 11);
}

/// Each byte takes two digits.
proof fn lemma_hexes_length(b: Seq<u8>)
    ensures
        hexes(b).len() == 2 * b.len(),
        forall|i: int| 0 <= i < hexes(b).len() ==> hex_digit(#[trigger] hexes(b)[i]),
    decreases b.len(),
{
    if b.len() > 0 {
        lemma_hexes_length(b.drop_last());
    }
}

/// The first byte stands first.
proof fn lemma_hexes_start(b: Seq<u8>)
    requires
        b.len() > 0,
    ensures
        hexes(b).len() >= 2,
        hexes(b)[0] == hex(b[0])[0],
    decreases b.len(),
{
    if b.len() > 1 {
        lemma_hexes_start(b.drop_last());
    } else {
        assert(b.drop_last() =~= Seq::empty());
        assert(hexes(b.drop_last()) =~= Seq::empty());
    }
}

/// What the connections tell the session.
#[derive(Debug)]
pub enum CoreEvent {
    Log(String),
    /// The signaling server has registered the peer under this id.
    PeerOpen(String),
    /// A message of the signaling server.
    SignalMessage(Json),
    SignalClosed,
    /// The data channel is open.
    DcOpen,
    /// A frame of the data channel.
    DcRaw(Vec<u8>),
    /// A guest has opened a data channel to the host.
    DcHostChannel,
    DcClosed,
    /// A session description to be sent to the other peer.
    LocalDescription(Json),
    /// An ICE candidate to be sent to the other peer, and its media id.
    LocalCandidate(String, String),
    PeerError(String),
}

/// What the connections tell the session.
pub enum CoreEventView {
    Log(Seq<char>),
    PeerOpen(Seq<char>),
    SignalMessage(JsonView),
    SignalClosed,
    DcOpen,
    DcRaw(Seq<u8>),
    DcHostChannel,
    DcClosed,
    LocalDescription(JsonView),
    LocalCandidate(Seq<char>, Seq<char>),
    PeerError(Seq<char>),
}

impl View for CoreEvent {
    type V = CoreEventView;

    open spec fn view(&self) -> CoreEventView {
        match self {
            CoreEvent::Log(m) => CoreEventView::Log(m@),
            CoreEvent::PeerOpen(id) => CoreEventView::PeerOpen(id@),
            CoreEvent::SignalMessage(v) => CoreEventView::SignalMessage(v@),
            CoreEvent::SignalClosed => CoreEventView::SignalClosed,
            CoreEvent::DcOpen => CoreEventView::DcOpen,
            CoreEvent::DcRaw(b) => CoreEventView::DcRaw(b@),
            CoreEvent::DcHostChannel => CoreEventView::DcHostChannel,
            CoreEvent::DcClosed => CoreEventView::DcClosed,
            CoreEvent::LocalDescription(v) => CoreEventView::LocalDescription(v@),
            CoreEvent::LocalCandidate(c, m) => CoreEventView::LocalCandidate(c@, m@),
            CoreEvent::PeerError(e) => CoreEventView::PeerError(e@),
        }
    }
}

/// What the session asks of the signaling socket.
#[derive(Debug)]
pub enum WsCmd {
    Send(Json),
    Close,
}

/// What the session asks of the signaling socket.
pub enum WsCmdView {
    Send(JsonView),
    Close,
}

impl View for WsCmd {
    type V = WsCmdView;

    open spec fn view(&self) -> WsCmdView {
        match self {
            WsCmd::Send(v) => WsCmdView::Send(v@),
            WsCmd::Close => WsCmdView::Close,
        }
    }
}

/// What to do next with the signaling socket.
#[derive(Debug)]
pub enum SocketStep {
    /// Send this as text, and stop where that fails.
    Send(Json),
    /// Close the socket and stop.
    CloseAndStop,
    /// Stop.
    Stop,
    /// There is nothing to send.
    Nothing,
}

/// What to do next with the signaling socket.
pub enum SocketStepView {
    Send(JsonView),
    CloseAndStop,
    Stop,
    Nothing,
}

impl View for SocketStep {
    type V = SocketStepView;

    open spec fn view(&self) -> SocketStepView {
        match self {
            SocketStep::Send(v) => SocketStepView::Send(v@),
            SocketStep::CloseAndStop => SocketStepView::CloseAndStop,
            SocketStep::Stop => SocketStepView::Stop,
            SocketStep::Nothing => SocketStepView::Nothing,
        }
    }
}

/// What a read of the signaling socket brought.
#[derive(Debug)]
pub enum SocketRead {
    /// Text, with its JSON value where it is JSON.
    Text(Option<Json>),
    Ping,
    Close,
    /// Another kind of frame.
    Other,
    /// Nothing within the read timeout.
    Idle,
    Failed,
}

/// What to do after a read of the signaling socket.
#[derive(Debug)]
pub enum AfterRead {
    /// Hand the message to the session.
    Deliver(Json),
    /// Answer with a pong.
    Pong,
    /// Rest for some milliseconds.
    Rest(u64),
    GoOn,
    Stop,
}

/// The signaling connection: its address, what is to be sent, and when it last sent a heartbeat.
#[derive(Debug)]
pub struct Signaling {
    url: String,
    cmds: Vec<WsCmd>,
    released: bool,
    last_beat_ms: u64,
}

/// The signaling connection.
pub struct SignalingView {
    pub url: Seq<char>,
    /// What is to be sent, in order.
    pub cmds: Seq<WsCmdView>,
    /// Whether the session has let go of the connection.
    pub released: bool,
    /// When the last heartbeat was sent.
    pub last_beat_ms: u64,
}

/// The views of a list of commands.
pub open spec fn cmd_views(s: Seq<WsCmd>) -> Seq<WsCmdView> {
    Seq::new(s.len(), |i: int| s[i]@)
}

impl View for Signaling {
    type V = SignalingView;

    closed spec fn view(&self) -> SignalingView {
        SignalingView {
            url: self.url@,
            cmds: cmd_views(self.cmds@),
            released: self.released,
            last_beat_ms: self.last_beat_ms,
        }
    }
}

/// The address under which a peer registers.
pub open spec fn signaling_url(id: Seq<char>, token: Seq<char>) -> Seq<char> {
    "wss://"@ + CLOUD_HOST@ + "/peerjs?key=peerjs&id="@ + id + "&token="@ + token + "&version="@
        + PEERJS_VERSION@
}

impl Signaling {
    /// A connection under the given token.
    pub fn with_token(id: &str, token: &str) -> (r: Signaling)
        ensures
            r@.url == signaling_url(id@, token@),
            r@.cmds.len() == 0,
            !r@.released,
            r@.last_beat_ms == 0,
    {
        let mut url = "wss://".to_owned();
        url.append(CLOUD_HOST);
        url.append("/peerjs?key=peerjs&id=");
        url.append(id);
        url.append("&token=");
        url.append(token);
        url.append("&version=");
        url.append(PEERJS_VERSION);
        Signaling { url, cmds: Vec::new(), released: false, last_beat_ms: 0 }
    }

    /// A connection under a random token of 24 letters and digits.
    pub fn connect(id: &str) -> (r: Signaling)
        ensures
            exists|token: Seq<char>|
                token.len() == 24 && all_alnum(token) && r@.url == #[trigger] signaling_url(
                    id@,
                    token,
                ),
            r@.cmds.len() == 0,
            !r@.released,
            r@.last_beat_ms == 0,
    {
        let token = random_token(24);
        Signaling::with_token(id, token.as_str())
    }

    /// The address to connect to.
    pub fn url(&self) -> (r: &str)
        ensures
            r@ == self@.url,
    {
        self.url.as_str()
    }

    /// Sends a message after those that are still to be sent.
    pub fn send_json(&mut self, v: &Json)
        ensures
            final(self)@ == (SignalingView {
                cmds: old(self)@.cmds.push(WsCmdView::Send(v@)),
                ..old(self)@
            }),
    {
        self.cmds.push(WsCmd::Send(v.clone()));
        assert(self@.cmds =~= old(self)@.cmds.push(WsCmdView::Send(v@)));
    }

    /// Closes the connection after what is still to be sent.
    pub fn close(&mut self)
        ensures
            final(self)@ == (SignalingView {
                cmds: old(self)@.cmds.push(WsCmdView::Close),
                ..old(self)@
            }),
    {
        self.cmds.push(WsCmd::Close);
        assert(self@.cmds =~= old(self)@.cmds.push(WsCmdView::Close));
    }

    /// Lets go of the connection: it stops once nothing is left to be sent.
    pub fn release(&mut self)
        ensures
            final(self)@ == (SignalingView { released: true, ..old(self)@ }),
    {
        self.released = true;
    }

    /// Takes the next command, one at a time.
    pub fn next_step(&mut self) -> (r: SocketStep)
        ensures
            old(self)@.cmds.len() == 0 ==> final(self)@ == old(self)@ && r@ == if old(
                self,
            )@.released {
                SocketStepView::Stop
            } else {
                SocketStepView::Nothing
            },
            old(self)@.cmds.len() > 0 ==> final(self)@ == (SignalingView {
                cmds: old(self)@.cmds.drop_first(),
                ..old(self)@
            }) && r@ == match old(self)@.cmds[0] {
                WsCmdView::Send(v) => SocketStepView::Send(v),
                WsCmdView::Close => SocketStepView::CloseAndStop,
            },
    {
        if self.cmds.len() == 0 {
            return if self.released {
                SocketStep::Stop
            } else {
                SocketStep::Nothing
            };
        }
        let c = self.cmds.remove(0);
        assert(cmd_views(self.cmds@) =~= old(self)@.cmds.drop_first());
        match c {
            WsCmd::Send(v) => SocketStep::Send(v),
            WsCmd::Close => SocketStep::CloseAndStop,
        }
    }

    /// Whether a heartbeat is due.
    pub fn beat_due(&self, now_ms: u64) -> (r: bool)
        ensures
            r == (now_ms >= self@.last_beat_ms + HEARTBEAT_MS),
    {
        now_ms >= self.last_beat_ms && now_ms - self.last_beat_ms >= HEARTBEAT_MS
    }

    /// Notes that a heartbeat was sent, or that the connection has just opened.
    pub fn beat(&mut self, now_ms: u64)
        ensures
            final(self)@ == (SignalingView { last_beat_ms: now_ms, ..old(self)@ }),
    {
        self.last_beat_ms = now_ms;
    }
}

/// What the session is told when the signaling connection was to be opened: that it is open, or
/// why it is not.
pub fn opened(r: Result<(), String>) -> (e: CoreEvent)
    ensures
        e@ == match r {
            Ok(_) => CoreEventView::Log("signaling: connected"@),
            Err(m) => CoreEventView::PeerError(m@),
        },
{
    match r {
        Ok(_) => CoreEvent::Log("signaling: connected".to_owned()),
        Err(m) => CoreEvent::PeerError(m),
    }
}

/// What the session is told last of a signaling connection that was open.
pub fn stopped() -> (e: CoreEvent)
    ensures
        e@ == CoreEventView::SignalClosed,
{
    CoreEvent::SignalClosed
}

/// What to do after a read of the signaling socket: a text that is no JSON is passed over,
/// a ping is answered, an empty read rests the loop, a closed or broken socket stops it.
pub fn after_read(read: SocketRead) -> (r: AfterRead)
    ensures
        match read {
            SocketRead::Text(Some(v)) => r == AfterRead::Deliver(v),
            SocketRead::Text(None) => r == AfterRead::GoOn,
            SocketRead::Ping => r == AfterRead::Pong,
            SocketRead::Close => r == AfterRead::Stop,
            SocketRead::Other => r == AfterRead::GoOn,
            SocketRead::Idle => r == AfterRead::Rest(IDLE_MS),
            SocketRead::Failed => r == AfterRead::Stop,
        },
{
    match read {
        SocketRead::Text(Some(v)) => AfterRead::Deliver(v),
        SocketRead::Text(None) => AfterRead::GoOn,
        SocketRead::Ping => AfterRead::Pong,
        SocketRead::Close => AfterRead::Stop,
        SocketRead::Other => AfterRead::GoOn,
        SocketRead::Idle => AfterRead::Rest(IDLE_MS),
        SocketRead::Failed => AfterRead::Stop,
    }
}

/// What to do after a read of the signaling socket that brought a text: JSON is handed to the
/// session.
pub fn after_text(text: &str) -> (r: AfterRead)
    ensures
        match parsed(text@) {
            Some(v) => r matches AfterRead::Deliver(j) && j@ == v,
            None => r == AfterRead::GoOn,
        },
{
    after_read(SocketRead::Text(parse(text)))
}

/// The heartbeat message.
pub open spec fn heartbeat_json() -> JsonView {
    JsonView::Object(seq![("type"@, JsonView::Str("HEARTBEAT"@))])
}

/// The heartbeat message.
pub fn heartbeat() -> (r: Json)
    ensures
        r@ == heartbeat_json(),
{
    let mut f: Vec<(String, Json)> = Vec::new();
    f.push(("type".to_owned(), string("HEARTBEAT")));
    assert(entries(f@) =~= heartbeat_json()->Object_0);
    object(f)
}

/// The characters of a token are all different, so no two picks make the same one.
pub proof fn law_token_characters_differ(i: int, j: int)
    requires
        0 <= i < j < 62,
    ensures
        token_char(i) != token_char(j),
{
}

/// Each byte is written as two hexadecimal digits, in its place.
pub proof fn law_bytes_stand_in_their_places(b: Seq<u8>, i: int)
    requires
        0 <= i < b.len(),
    ensures
        hexes(b).len() == 2 * b.len(),
        hexes(b)[2 * i] == crate::text::hex_digit((b[i] / 16) as nat),
        hexes(b)[2 * i + 1] == crate::text::hex_digit((b[i] % 16) as nat),
    decreases b.len(),
{
    lemma_hexes_length(b);
    lemma_hexes_length(b.drop_last());
    if i < b.len() - 1 {
        law_bytes_stand_in_their_places(b.drop_last(), i);
    }
}

/// Marking bytes as a random UUID touches the version and the variant and nothing else.
pub proof fn law_marks_touch_six_bits(b: Seq<u8>, i: int)
    requires
        b.len() == 16,
        0 <= i < 16,
    ensures
        i != 6 && i != 8 ==> marked(b)[i] == b[i],
        marked(b)[6] % 16 == b[6] % 16,
        marked(b)[6] / 16 == 4,
        marked(b)[8] % 64 == b[8] % 64,
        marked(b)[8] / 64 == 2,
{
}

/// A peer registers with the signaling server under its id and its token.
pub proof fn law_peer_registers_under_its_id(id: Seq<char>, token: Seq<char>)
    ensures
        signaling_url(id, token) == "wss://0.peerjs.com/peerjs?key=peerjs&id="@ + id + "&token="@
            + token + "&version=1.5.5"@,
{
    reveal_strlit("wss://0.peerjs.com/peerjs?key=peerjs&id=");
    reveal_strlit("wss://");
    reveal_strlit("0.peerjs.com");
    reveal_strlit("/peerjs?key=peerjs&id=");
    reveal_strlit("&version=1.5.5");
    reveal_strlit("&version=");
    reveal_strlit("1.5.5");
    assert("wss://0.peerjs.com/peerjs?key=peerjs&id="@ =~= "wss://"@ + CLOUD_HOST@
        + "/peerjs?key=peerjs&id="@);
    assert("&version=1.5.5"@ =~= "&version="@ + PEERJS_VERSION@);
    assert(signaling_url(id, token) =~= "wss://0.peerjs.com/peerjs?key=peerjs&id="@ + id
        + "&token="@ + token + "&version=1.5.5"@);
}

} // verus!
