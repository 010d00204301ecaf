//! What the window shows and allows.
use crate::backends::TRACK_PREFIX;
use crate::backends::{seconds, whole_seconds};
use crate::jam::{Mode, UiCmd, UiCmdView};
use crate::text::{
    all_alnum, alnum, begins, begins_with, byte_len, chars_of, cut_at, dec, decimal, find, first_at,
    is_empty, law_until_ends_at_the_first_stop, occurs, option_view, raised, stands_at, string_of,
    trim, trimmed, two, two_digits, until, uppercase,
};
use vstd::prelude::*;
use vstd::utf8::*;

verus! {

/// What follows the first place of `needle` in `s`.
pub open spec fn after_first(s: Seq<char>, needle: Seq<char>) -> Option<Seq<char>>
    decreases s.len(),
{
    if begins(s, needle) {
        Some(s.skip(needle.len() as int))
    } else if s.len() == 0 {
        None
    } else {
        after_first(s.drop_first(), needle)
    }
}

/// What follows the first place, where that is known.
proof fn lemma_after_first(s: Seq<char>, needle: Seq<char>, i: int)
    requires
        first_at(s, needle, i),
    ensures
        after_first(s, needle) == Some(s.skip(i + needle.len())),
    decreases s.len(),
{
    if i == 0 {
        assert(s.subrange(0, needle.len() as int) =~= s.take(needle.len() as int));
    } else {
        assert(!stands_at(s, needle, 0));
        if s.len() >= needle.len() {
            assert(s.subrange(0, needle.len() as int) =~= s.take(needle.len() as int));
        }
        let t = s.drop_first();
        assert(t.subrange(i - 1, i - 1 + needle.len()) =~= s.subrange(i, i + needle.len()));
        assert forall|k: int| 0 <= k < i - 1 implies !stands_at(t, needle, k) by {
            if stands_at(t, needle, k) {
                assert(s.subrange(k + 1, k + 1 + needle.len()) =~= t.subrange(
                    k,
                    k + needle.len(),
                ));
                assert(stands_at(s, needle, k + 1));
            }
        }
        lemma_after_first(t, needle, i - 1);
        assert(t.skip(i - 1 + needle.len()) =~= s.skip(i + needle.len()));
    }
}

/// Where there is no place, nothing follows it.
proof fn lemma_after_none(s: Seq<char>, needle: Seq<char>)
    requires
        !occurs(s, needle),
    ensures
        after_first(s, needle) is None,
    decreases s.len(),
{
    assert(!stands_at(s, needle, 0));
    if s.len() >= needle.len() {
        assert(s.subrange(0, needle.len() as int) =~= s.take(needle.len() as int));
    }
    if s.len() > 0 {
        let t = s.drop_first();
        assert forall|k: int| !stands_at(t, needle, k) by {
            if stands_at(t, needle, k) {
                assert(s.subrange(k + 1, k + 1 + needle.len()) =~= t.subrange(
                    k,
                    k + needle.len(),
                ));
                assert(stands_at(s, needle, k + 1));
            }
        }
        lemma_after_none(t, needle);
    }
}

/// The uri that a pasted text stands for: a uri of the catalogue, up to a question mark, or the
/// address of a song on the web, with an id of 22 letters and digits.
pub open spec fn pasted_uri(input: Seq<char>) -> Option<Seq<char>> {
    let t = trimmed(input);
    if begins(t, TRACK_PREFIX@) {
        Some(until(t, "?"@))
    } else {
        match after_first(t, "open.spotify.com/track/"@) {
            Some(rest) => {
                let id = until(rest, "?/&"@);
                if id.len() == 22 && forall|i: int| 0 <= i < id.len() ==> alnum(#[trigger] id[i]) {
                    Some(TRACK_PREFIX@ + id)
                } else {
                    None
                }
            },
            None => None,
        }
    }
}

/// The uri that a pasted text stands for.
pub fn parse_track_uri(input: &str) -> (r: Option<String>)
    ensures
        option_view(r) == pasted_uri(input@),
{
    let t = trim(input);
    if begins_with(t.as_str(), TRACK_PREFIX) {
        return Some(cut_at(t.as_str(), "?"));
    }
    let needle = "open.spotify.com/track/";
    let i: usize = match find(t.as_str(), needle) {
        Some(i) => i,
        None => {
            proof {
                lemma_after_none(t@, needle@);
            }
            return None;
        },
    };
    proof {
        lemma_after_first(t@, needle@, i as int);
    }
    let v = chars_of(t.as_str());
    let n: usize = needle.unicode_len();
    assert(i + n <= v@.len());
    let len: usize = v.len();
    let rest = string_of(&v, i + n, len);
    assert(rest@ =~= t@.skip(i + needle@.len()));
    let id = cut_at(rest.as_str(), "?/&");
    if id.as_str().unicode_len() == 22 && all_alnum(id.as_str()) {
        let mut u = TRACK_PREFIX.to_owned();
        u.append(id.as_str());
        Some(u)
    } else {
        None
    }
}

/// A time as minutes and seconds.
pub open spec fn clock_text(us: int) -> Seq<char> {
    let s = whole_seconds(us);
    dec(s / 60) + seq![':'] + two(s % 60)
}

/// A time as minutes and seconds.
pub fn ms_fmt(us: i64) -> (r: String)
    ensures
        r@ == clock_text(us as int),
{
    let s: u64 = seconds(us);
    let mut t = decimal(s / 60);
    t.push(':');
    t.append(two_digits(s % 60).as_str());
    assert(t@ =~= clock_text(us as int));
    t
}

/// The code that was typed in: in upper case, without white space around it.
pub fn join_code(input: &str) -> (r: String)
    ensures
        r@ == raised(trimmed(input@)),
{
    let t = trim(input);
    uppercase(t.as_str())
}

/// Whether a Jam can be joined: a code of six bytes and a name are there, and nothing is being
/// joined.
pub fn can_join(mode: Mode, code: &str, name: &str) -> (r: bool)
    ensures
        r == (mode != Mode::Joining && encode_utf8(code@).len() == 6 && trimmed(name@).len() > 0),
{
    mode != Mode::Joining && byte_len(code) == 6 && !is_empty(trim(name).as_str())
}

/// Whether playback can be controlled: by the host, and by a guest that may.
pub fn can_control(mode: Mode, gc: bool) -> (r: bool)
    ensures
        r == (mode == Mode::Hosting || (mode == Mode::Guest && gc)),
{
    mode == Mode::Hosting || (mode == Mode::Guest && gc)
}

/// What the button for playing and pausing asks for.
pub fn play_click(playing: bool) -> (r: UiCmd)
    ensures
        r@ == if playing {
            UiCmdView::Pause
        } else {
            UiCmdView::Play
        },
{
    if playing {
        UiCmd::Pause
    } else {
        UiCmd::Play
    }
}

/// The first of the last `max` lines of a log.
pub fn log_start(len: usize, max: usize) -> (r: usize)
    ensures
        r == if len >= max {
            len - max
        } else {
            0
        },
{
    len.saturating_sub(max)
}

/// What the title bar says of a session.
pub open spec fn status_text(mode: Mode, host_name: Seq<char>, jam_id: Seq<char>) -> Seq<char> {
    match mode {
        Mode::Idle => "idle"@,
        Mode::Joining => "connecting…"@,
        Mode::Guest => "in a Jam with "@ + host_name,
        Mode::Hosting => "hosting · "@ + jam_id,
    }
}

/// What the title bar says of a session.
pub fn status(mode: Mode, host_name: &str, jam_id: &str) -> (r: String)
    ensures
        r@ == status_text(mode, host_name@, jam_id@),
{
    match mode {
        Mode::Idle => "idle".to_owned(),
        Mode::Joining => "connecting…".to_owned(),
        Mode::Guest => {
            let mut s = "in a Jam with ".to_owned();
            s.append(host_name);
            s
        },
        Mode::Hosting => {
            let mut s = "hosting · ".to_owned();
            s.append(jam_id);
            s
        },
    }
}

/// The sign that the title bar shows for a session.
pub fn status_sign(mode: Mode) -> (r: &'static str)
    ensures
        r@ == match mode {
            Mode::Idle => "○"@,
            Mode::Joining => "◌"@,
            _ => "●"@,
        },
{
    match mode {
        Mode::Idle => "○",
        Mode::Joining => "◌",
        _ => "●",
    }
}

/// A setting of the drift correction. Times are in microseconds.
#[derive(Debug)]
pub struct Preset {
    pub label: &'static str,
    pub enabled: bool,
    pub deadband_us: i64,
    pub jump_us: i64,
    pub hint: &'static str,
}

/// The settings of the drift correction, from the tightest on.
pub fn presets() -> (r: Vec<Preset>)
    ensures
        r@ == seq![
            (Preset {
                label: "Tight",
                enabled: true,
                deadband_us: 160_000,
                jump_us: 650_000,
                hint: "snaps quickly — best on solid connections",
            }),
            (Preset {
                label: "Normal",
                enabled: true,
                deadband_us: 300_000,
                jump_us: 1_200_000,
                hint: "balanced",
            }),
            (Preset {
                label: "Relaxed",
                enabled: true,
                deadband_us: 600_000,
                jump_us: 3_000_000,
                hint: "fewer jumps for spotty internet / slow machines",
            }),
            (Preset {
                label: "Manual only",
                enabled: false,
                deadband_us: 0,
                jump_us: 0,
                hint: "never auto-seeks — use the ↻ sync button",
            }),
        ],
{
    let mut v: Vec<Preset> = Vec::new();
    v.push(
        Preset {
            label: "Tight",
            enabled: true,
            deadband_us: 160_000,
            jump_us: 650_000,
            hint: "snaps quickly — best on solid connections",
        },
    );
    v.push(
        Preset {
            label: "Normal",
            enabled: true,
            deadband_us: 300_000,
            jump_us: 1_200_000,
            hint: "balanced",
        },
    );
    v.push(
        Preset {
            label: "Relaxed",
            enabled: true,
            deadband_us: 600_000,
            jump_us: 3_000_000,
            hint: "fewer jumps for spotty internet / slow machines",
        },
    );
    v.push(
        Preset {
            label: "Manual only",
            enabled: false,
            deadband_us: 0,
            jump_us: 0,
            hint: "never auto-seeks — use the ↻ sync button",
        },
    );
    v
}

/// Whether a setting is the one in use; the thresholds count only where drift is corrected.
pub fn is_selected(p: &Preset, enabled: bool, deadband_us: u64, jump_us: u64) -> (r: bool)
    ensures
        r == (enabled == p.enabled && (!p.enabled || (deadband_us == p.deadband_us && jump_us
            == p.jump_us))),
{
    enabled == p.enabled && (!p.enabled || (deadband_us as i128 == p.deadband_us as i128
        && jump_us as i128 == p.jump_us as i128))
}

/// A uri that was pasted is taken up to a question mark, without the white space round it.
pub proof fn law_pasted_uri_is_taken(input: Seq<char>)
    requires
        begins(trimmed(input), "spotify:track:"@),
    ensures
        pasted_uri(input) == Some(until(trimmed(input), "?"@)),
{
}

/// An address of a song on the web that was pasted gives the song's uri, wherever the address
/// begins and whatever follows the id; an id that is not of 22 letters and digits gives none.
pub proof fn law_pasted_address_is_taken(
    input: Seq<char>,
    i: int,
    id: Seq<char>,
    rest: Seq<char>,
)
    requires
        !begins(trimmed(input), "spotify:track:"@),
        first_at(trimmed(input), "open.spotify.com/track/"@, i),
        trimmed(input).skip(i + "open.spotify.com/track/"@.len()) == id + rest,
        forall|k: int| 0 <= k < id.len() ==> !"?/&"@.contains(#[trigger] id[k]),
        rest.len() > 0 ==> "?/&"@.contains(rest[0]),
    ensures
        pasted_uri(input) == if id.len() == 22 && forall|k: int|
            0 <= k < id.len() ==> alnum(#[trigger] id[k]) {
            Some("spotify:track:"@ + id)
        } else {
            None
        },
{
    let t = trimmed(input);
    let stop = "?/&"@;
    lemma_after_first(t, "open.spotify.com/track/"@, i);
    let u = until(id + rest, stop);
    law_until_ends_at_the_first_stop(id + rest, stop);
    if u.len() < id.len() {
        assert((id + rest)[u.len() as int] == id[u.len() as int]);
    }
    if u.len() > id.len() {
        assert(u[id.len() as int] == (id + rest)[id.len() as int]);
    }
    assert((id + rest).take(id.len() as int) =~= id);
}

/// A text that is neither a uri nor an address of a song gives none.
pub proof fn law_other_text_gives_no_uri(input: Seq<char>)
    requires
        !begins(trimmed(input), "spotify:track:"@),
        !occurs(trimmed(input), "open.spotify.com/track/"@),
    ensures
        pasted_uri(input) is None,
{
    lemma_after_none(trimmed(input), "open.spotify.com/track/"@);
}

/// A time is shown as whole minutes and the seconds that are left.
pub proof fn law_time_is_shown_in_minutes(minutes: nat, secs: nat, us: nat)
    requires
        secs < 60,
        us < 1_000_000,
    ensures
        clock_text(((minutes * 60 + secs) * 1_000_000 + us) as int) == dec(minutes) + seq![':']
            + two(secs),
{
    let n = (minutes * 60 + secs) * 1_000_000 + us;
    assert(n / 1_000_000 == minutes * 60 + secs);
    assert((minutes * 60 + secs) / 60 == minutes);
    assert((minutes * 60 + secs) % 60 == secs);
}

} // verus!
