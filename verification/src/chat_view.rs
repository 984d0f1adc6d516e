//! What the chat node shows.

use vstd::prelude::*;

use crate::chat::{AppState, ChatMessage};
use crate::text::{decimal, decimal_string, joined, missing, pad_before, repeated, same_text};

verus! {

/// The colour of a text.
#[derive(Debug, Clone, Copy, PartialEq, Eq, Structural)]
pub enum Color {
    /// That of the terminal.
    Plain,
    Green,
    Cyan,
    Yellow,
    Red,
    White,
    Gray,
    DarkGray,
}

/// The weight or slant of a text.
#[derive(Debug, Clone, Copy, PartialEq, Eq, Structural)]
pub enum Face {
    Regular,
    Bold,
    Italic,
}

/// A text with its style.
#[derive(Debug)]
pub struct Span {
    pub text: String,
    pub color: Color,
    pub face: Face,
}

/// Whether a span shows a text in a style.
pub open spec fn shows(span: Span, text: Seq<char>, color: Color, face: Face) -> bool {
    span.text@ == text && span.color == color && span.face == face
}

/// A span.
fn span(text: &str, color: Color, face: Face) -> (r: Span)
    ensures
        shows(r, text@, color, face),
{
    Span { text: text.to_string(), color, face }
}

/// The status bar: the topic, this node, the number of messages, and a hint where
/// the view does not follow the tail.
pub fn status_line(app: &AppState) -> (r: Vec<Span>)
    ensures
        r.len() == 5,
        shows(r[0], " ● "@, Color::Green, Face::Regular),
        shows(r[1], "topic: "@ + app.topic@ + "  "@, Color::Cyan, Face::Regular),
        shows(r[2], "node: "@ + app.own_id@ + "  "@, Color::DarkGray, Face::Regular),
        shows(
            r[3],
            decimal(app.messages@.len()) + " messages"@,
            Color::DarkGray,
            Face::Regular,
        ),
        app.follow_tail ==> shows(r[4], ""@, Color::Plain, Face::Regular),
        !app.follow_tail ==> shows(
            r[4],
            "  ↑ scrolled — ↓/End to follow"@,
            Color::Yellow,
            Face::Italic,
        ),
{
    let hint = if app.follow_tail {
        span("", Color::Plain, Face::Regular)
    } else {
        span("  ↑ scrolled — ↓/End to follow", Color::Yellow, Face::Italic)
    };
    let mut topic = joined("topic: ", &app.topic);
    topic.append("  ");
    let mut node = joined("node: ", &app.own_id);
    node.append("  ");
    let mut count = decimal_string(app.messages.len() as u128);
    count.append(" messages");
    vec![
        span(" ● ", Color::Green, Face::Regular),
        span(&topic, Color::Cyan, Face::Regular),
        span(&node, Color::DarkGray, Face::Regular),
        span(&count, Color::DarkGray, Face::Regular),
        hint,
    ]
}

/// The title of the messages.
pub fn messages_title(app: &AppState) -> (r: Span)
    ensures
        shows(r, " "@ + app.topic@ + " "@, Color::White, Face::Bold),
{
    let mut title = joined(" ", &app.topic);
    title.append(" ");
    span(&title, Color::White, Face::Bold)
}

/// How many characters the input has room for.
pub open spec fn remaining(app: AppState) -> nat {
    missing(app.input@.len(), app.input_limit as nat)
}

/// The title of the input: how many characters are left, red where fewer than
/// twenty are, and the keys.
pub fn input_title(app: &AppState) -> (r: Vec<Span>)
    ensures
        r.len() == 4,
        shows(r[0], " message  "@, Color::Plain, Face::Regular),
        shows(
            r[1],
            decimal(remaining(*app)) + " left"@,
            if remaining(*app) < 20 {
                Color::Red
            } else {
                Color::DarkGray
            },
            Face::Regular,
        ),
        shows(
            r[2],
            "  Enter: send   Esc/Ctrl-C: quit   ↑↓: scroll"@,
            Color::DarkGray,
            Face::Regular,
        ),
        shows(r[3], " "@, Color::Plain, Face::Regular),
{
    let written: usize = app.input.as_str().unicode_len();
    let left: usize = if written < app.input_limit {
        app.input_limit - written
    } else {
        0
    };
    let color = if left < 20 {
        Color::Red
    } else {
        Color::DarkGray
    };
    let mut counter = decimal_string(left as u128);
    counter.append(" left");
    vec![
        span(" message  ", Color::Plain, Face::Regular),
        span(&counter, color, Face::Regular),
        span(
            "  Enter: send   Esc/Ctrl-C: quit   ↑↓: scroll",
            Color::DarkGray,
            Face::Regular,
        ),
        span(" ", Color::Plain, Face::Regular),
    ]
}

/// The input with a caret behind it.
pub fn input_text(app: &AppState) -> (r: String)
    ensures
        r@ == app.input@ + "▌"@,
{
    joined(&app.input, "▌")
}

/// The name that a message is shown under.
pub open spec fn shown_name(msg: ChatMessage, own_id: Seq<char>) -> Seq<char> {
    if msg.from@ == own_id {
        "you"@
    } else {
        msg.from@
    }
}

/// Whether spans list a message: its time, who wrote it, and its text. This node's
/// own name is cyan, others are yellow.
pub open spec fn lists_message(spans: Seq<Span>, msg: ChatMessage, own_id: Seq<char>) -> bool {
    let is_own = msg.from@ == own_id;
    &&& spans.len() == 4
    &&& shows(
        spans[0],
        "["@ + (repeated(' ', missing(msg.ts@.len(), 5)) + msg.ts@) + "]  "@,
        Color::DarkGray,
        Face::Regular,
    )
    &&& shows(
        spans[1],
        shown_name(msg, own_id) + "  "@,
        if is_own {
            Color::Cyan
        } else {
            Color::Yellow
        },
        Face::Bold,
    )
    &&& shows(spans[2], "›  "@, Color::DarkGray, Face::Regular)
    &&& shows(
        spans[3],
        msg.text@,
        if is_own {
            Color::White
        } else {
            Color::Gray
        },
        Face::Regular,
    )
}

/// A message as it is listed, as in `[14:32]  you  ›  hey there`.
pub fn list_item(msg: &ChatMessage, own_id: &str) -> (r: Vec<Span>)
    ensures
        lists_message(r@, *msg, own_id@),
{
    let is_own = same_text(&msg.from, own_id);
    let name_color = if is_own {
        Color::Cyan
    } else {
        Color::Yellow
    };
    let text_color = if is_own {
        Color::White
    } else {
        Color::Gray
    };
    let mut name = if is_own {
        "you".to_string()
    } else {
        msg.from.clone()
    };
    name.append("  ");
    let ts = pad_before(&msg.ts, 5);
    let mut time = joined("[", &ts);
    time.append("]  ");
    vec![
        span(&time, Color::DarkGray, Face::Regular),
        span(&name, name_color, Face::Bold),
        span("›  ", Color::DarkGray, Face::Regular),
        span(&msg.text, text_color, Face::Regular),
    ]
}

/// The messages as they are listed, in their order.
pub fn list_items(app: &AppState) -> (r: Vec<Vec<Span>>)
    ensures
        r.len() == app.messages.len(),
        forall|i: int|
            0 <= i < r.len() ==> lists_message(
                (#[trigger] r@[i])@,
                app.messages@[i],
                app.own_id@,
            ),
{
    let mut r: Vec<Vec<Span>> = Vec::new();
    let mut i: usize = 0;
    while i < app.messages.len()
        invariant
            i <= app.messages.len(),
            r.len() == i,
            forall|k: int|
                0 <= k < r.len() ==> lists_message(
                    (#[trigger] r@[k])@,
                    app.messages@[k],
                    app.own_id@,
                ),
        decreases app.messages.len() - i,
    {
        r.push(list_item(&app.messages[i], &app.own_id));
        i += 1;
    }
    r
}

} // verus!
