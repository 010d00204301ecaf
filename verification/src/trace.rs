//! The lines that show the messages of a session to who wants to see them.
//!
//! A position is shown as a double is, so its text is handed in.
use crate::binarypack::{quote, quoted};
use crate::json::{Json, JsonView};
use crate::text::{dec_signed, decimal_signed, same};
use vstd::prelude::*;

verus! {

/// An integer that may be missing, as it is shown.
pub open spec fn shown_int(n: Option<i64>) -> Seq<char> {
    match n {
        Some(n) => "Some("@ + dec_signed(n as int) + ")"@,
        None => "None"@,
    }
}

/// A text that may be missing, as it is shown.
pub open spec fn shown_text(s: Option<Seq<char>>) -> Seq<char> {
    match s {
        Some(s) => "Some("@ + quoted(s) + ")"@,
        None => "None"@,
    }
}

/// Appends an integer that may be missing.
fn show_int(line: &mut String, n: Option<i64>)
    ensures
        final(line)@ == old(line)@ + shown_int(n),
{
    match n {
        Some(n) => {
            line.append("Some(");
            line.append(decimal_signed(n).as_str());
            line.append(")");
        },
        None => line.append("None"),
    }
    assert(line@ =~= old(line)@ + shown_int(n));
}

/// Appends the text under a key, which may be missing.
fn show_text(line: &mut String, v: &Json, k: &str)
    ensures
        final(line)@ == old(line)@ + shown_text(v@.text_at(k@)),
{
    match v.str_at(k) {
        Some(s) => {
            line.append("Some(");
            line.append(quote(s).as_str());
            line.append(")");
        },
        None => line.append("None"),
    }
    assert(line@ =~= old(line)@ + shown_text(v@.text_at(k@)));
}

/// The line of a message that is sent; `pos` is its position as text.
pub open spec fn sent_line_of(msg: JsonView, pos: Seq<char>) -> Seq<char> {
    let kind = msg.text_or("type"@, "?"@);
    "→ "@ + if kind == "PLAY"@ || kind == "SYNC_TICK"@ || kind == "PS"@ || kind == "SEEK"@ {
        kind + " uri="@ + msg.text_or("uri"@, ""@) + " pos="@ + pos + " ts="@ + shown_int(
            msg.int_at("ts"@),
        )
    } else if kind == "PONG"@ {
        "PONG ts="@ + shown_int(msg.int_at("ts"@))
    } else {
        kind
    }
}

/// The line of a message that is sent; `pos` is its position as text.
pub fn sent_line(msg: &Json, pos: &str) -> (r: String)
    ensures
        r@ == sent_line_of(msg@, pos@),
{
    let kind = msg.str_or("type", "?");
    let k = kind.as_str();
    let mut line = "→ ".to_owned();
    if same(k, "PLAY") || same(k, "SYNC_TICK") || same(k, "PS") || same(k, "SEEK") {
        line.append(k);
        line.append(" uri=");
        line.append(msg.str_or("uri", "").as_str());
        line.append(" pos=");
        line.append(pos);
        line.append(" ts=");
        show_int(&mut line, msg.int_at("ts"));
    } else if same(k, "PONG") {
        line.append("PONG ts=");
        show_int(&mut line, msg.int_at("ts"));
    } else {
        line.append(k);
    }
    assert(line@ =~= sent_line_of(msg@, pos@));
    line
}

/// The line of a message that was received; `pos` is its position as text.
pub open spec fn received_line_of(msg: JsonView, pos: Seq<char>) -> Seq<char> {
    let kind = msg.text_or("type"@, "?"@);
    "← "@ + kind + if kind == "PING"@ {
        " ts="@ + shown_int(msg.int_at("ts"@))
    } else if kind == "SYNC_TICK"@ {
        " pos="@ + pos + " ts="@ + shown_int(msg.int_at("ts"@))
    } else if kind == "PLAY"@ {
        " uri="@ + shown_text(msg.text_at("uri"@)) + " pos="@ + pos
    } else {
        Seq::empty()
    }
}

/// The line of a message that was received; `pos` is its position as text.
pub fn received_line(msg: &Json, pos: &str) -> (r: String)
    ensures
        r@ == received_line_of(msg@, pos@),
{
    let kind = msg.str_or("type", "?");
    let k = kind.as_str();
    let mut line = "← ".to_owned();
    line.append(k);
    if same(k, "PING") {
        line.append(" ts=");
        show_int(&mut line, msg.int_at("ts"));
    } else if same(k, "SYNC_TICK") {
        line.append(" pos=");
        line.append(pos);
        line.append(" ts=");
        show_int(&mut line, msg.int_at("ts"));
    } else if same(k, "PLAY") {
        line.append(" uri=");
        show_text(&mut line, msg, "uri");
        line.append(" pos=");
        line.append(pos);
    }
    assert(line@ =~= received_line_of(msg@, pos@));
    line
}

/// The line of a message shows its kind, and of a song or a position also the uri, the position
/// and the timestamp.
pub proof fn law_lines_show_what_a_message_says(
    msg: JsonView,
    pos: Seq<char>,
    uri: Seq<char>,
    ts: i64,
)
    requires
        msg.int_at("ts"@) == Some(ts),
        msg.text_at("uri"@) == Some(uri),
    ensures
        ({
            let stamp = "Some("@ + dec_signed(ts as int) + ")"@;
            let kind = msg.text_or("type"@, "?"@);
            &&& kind == "PLAY"@ || kind == "SYNC_TICK"@ || kind == "PS"@ || kind == "SEEK"@
                ==> sent_line_of(msg, pos) == "→ "@ + (kind + " uri="@ + uri + " pos="@ + pos
                + " ts="@ + stamp)
            &&& kind == "PONG"@ ==> sent_line_of(msg, pos) == "→ "@ + ("PONG ts="@ + stamp)
            &&& kind == "JOIN"@ ==> sent_line_of(msg, pos) == "→ "@ + kind
            &&& kind == "PING"@ ==> received_line_of(msg, pos) == "← "@ + kind + (" ts="@ + stamp)
            &&& kind == "SYNC_TICK"@ ==> received_line_of(msg, pos) == "← "@ + kind + (" pos="@
                + pos + " ts="@ + stamp)
            &&& kind == "PLAY"@ ==> received_line_of(msg, pos) == "← "@ + kind + (" uri="@ + (
            "Some("@ + quoted(uri) + ")"@) + " pos="@ + pos)
        }),
{
    reveal_strlit("PLAY");
    reveal_strlit("SYNC_TICK");
    reveal_strlit("PS");
    reveal_strlit("SEEK");
    reveal_strlit("PONG");
    reveal_strlit("PING");
    reveal_strlit("JOIN");
    assert("PLAY"@.len() == 4);
    assert("SYNC_TICK"@.len() == 9);
    assert("PS"@.len() == 2);
    assert("SEEK"@.len() == 4);
    assert("PONG"@.len() == 4);
    assert("PING"@.len() == 4);
    assert("JOIN"@.len() == 4);
    assert("PLAY"@[1] == 'L');
    assert("PONG"@[1] == 'O');
    assert("PONG"@[0] == 'P');
    assert("PING"@[1] == 'I');
    assert("SEEK"@[0] == 'S');
    assert("JOIN"@[0] == 'J');
    assert("PLAY"@[0] == 'P');
    assert("PING"@[0] == 'P');
}

} // verus!
