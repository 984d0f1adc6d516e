//! What holds of every node: how it joins, how its tunnel is opened, how its
//! failures read, and what it shows.

use vstd::prelude::*;
use vstd::utf8::{decode_utf8, valid_utf8};

use crate::camera::cli::words;
use crate::chat::{AppState, ChatMessage, Key};
use crate::chat_view::{lists_message, remaining, shown_name, shows, Color, Face, Span};
use crate::codec::{decode_failure, encode_failure, unsupported, Speaker};
use crate::config::CloudflareConfig;
use crate::joining::{settings_for, telemetry, telemetry_notices, websocket_notices, WORKER_URL};
use crate::node::with_topic;
use crate::pattern::{label_char, tunnel_address};
use crate::text::decimal;
use crate::text_laws::{number_of, numbers_are_printed_as_they_are};
use crate::tui::{action_after, input_after, listed_after, KeyAction};
use crate::tunnel::{address_of, known_protocol, protocol_for, tunnel_words};

verus! {

/// The topics whose samples are pushed are those that start with the letters of
/// `telemetry`, whatever follows; no others are.
pub proof fn telemetry_is_told_by_its_start(topic: Seq<char>, rest: Seq<char>)
    ensures
        telemetry(seq!['t', 'e', 'l', 'e', 'm', 'e', 't', 'r', 'y'] + rest),
        telemetry(topic) <==> topic.len() >= 9 && topic.take(9) == seq![
            't',
            'e',
            'l',
            'e',
            'm',
            'e',
            't',
            'r',
            'y',
        ],
{
    reveal_strlit("telemetry");
    let word = seq!['t', 'e', 'l', 'e', 'm', 'e', 't', 'r', 'y'];
    assert("telemetry"@ =~= word);
    assert(word.is_prefix_of(word + rest)) by {
        assert((word + rest).subrange(0, 9) =~= word);
    }
    if topic.len() >= 9 {
        assert(topic.take(9) =~= topic.subrange(0, 9));
    }
}

/// The settings with which a node joins hold its own machine identifier and its own
/// local address, whatever they are; all else is the same for every node.
pub proof fn nodes_join_under_their_own_name(
    config: CloudflareConfig,
    machine_id: Seq<char>,
    local_address: Seq<char>,
)
    requires
        settings_for(config, machine_id, local_address),
    ensures
        config.machine_id@ == machine_id,
        config.local_address@ == local_address,
        config.api_token@ == "local-dev-token"@,
        config.request_timeout_ms == 5_000,
        config.pull_interval_ms == 300,
        config.bind_path@ == "/bind"@,
        config.unbind_path@ == "/unbind"@,
        config.push_path@ == "/push"@,
        config.pull_path@ == "/pull"@,
        config.ws_path@ == "/ws"@,
        config.ingress_url@ == ""@,
{
}

/// What is reported when a node joins names the worker, and the port or the topic of
/// the node.
pub proof fn notices_name_port_and_topic(topic: Seq<char>, port: u16)
    ensures
        telemetry_notices(topic, port).0 == "Starting relay and binding worker on port "@ + decimal(
            port as nat,
        ) + " using "@ + WORKER_URL@,
        number_of(decimal(port as nat)) == port,
        telemetry_notices(topic, port).1 == "Warning: topic '"@ + topic
            + "' is classified as telemetry and will use HTTP push, not Durable Object websocket."@,
        websocket_notices(topic).0 == "Starting relay in websocket-only mode using "@ + WORKER_URL@
            + " (skipping bind/tunnel)"@,
        websocket_notices(topic).1 == "Topic '"@ + topic
            + "' is multimedia; relay will use Durable Object websocket path '/ws'."@,
{
    numbers_are_printed_as_they_are(port as nat);
}

/// The protocols that can be wished for are `https`, `quic` and `http2`: each is
/// granted as it is. Any other wish, also one that differs in one letter only, gets
/// `https`; and what was granted once is granted again.
pub proof fn wishes_are_granted_or_https(wish: Seq<char>)
    ensures
        protocol_for("https"@) == "https"@,
        protocol_for("quic"@) == "quic"@,
        protocol_for("http2"@) == "http2"@,
        wish != "quic"@ && wish != "http2"@ ==> protocol_for(wish) == "https"@,
        known_protocol(wish) <==> wish == "https"@ || wish == "quic"@ || wish == "http2"@,
        known_protocol(wish) <==> protocol_for(wish) == wish,
        protocol_for(protocol_for(wish)) == protocol_for(wish),
{
}

/// A tunnel leads to the local port that is asked for, whichever it is, over the
/// protocol for the wish; so tunnels to different ports are opened differently.
pub proof fn tunnels_lead_to_their_port(
    arguments: Seq<String>,
    local_port: u16,
    wish: Seq<char>,
    other_port: u16,
)
    requires
        words(arguments) == tunnel_words(local_port, wish),
    ensures
        arguments.len() == 5,
        arguments[0]@ == "tunnel"@,
        arguments[1]@ == "--protocol"@,
        wish == "quic"@ || wish == "http2"@ ==> arguments[2]@ == wish,
        wish != "quic"@ && wish != "http2"@ ==> arguments[2]@ == "https"@,
        arguments[3]@ == "--url"@,
        arguments[4]@ == "http://127.0.0.1:"@ + decimal(local_port as nat),
        number_of(decimal(local_port as nat)) == local_port,
        local_port != other_port ==> tunnel_words(local_port, wish) != tunnel_words(
            other_port,
            wish,
        ),
{
    numbers_are_printed_as_they_are(local_port as nat);
    numbers_are_printed_as_they_are(other_port as nat);
    assert(words(arguments).len() == arguments.len());
    assert(tunnel_words(local_port, wish).len() == 5);
    assert forall|k: int| 0 <= k < 5 implies (#[trigger] arguments[k])@ == tunnel_words(
        local_port,
        wish,
    )[k] by {
        assert(words(arguments)[k] == arguments[k]@);
    }
    if tunnel_words(local_port, wish) == tunnel_words(other_port, wish) {
        let this = tunnel_words(local_port, wish)[4];
        let that = tunnel_words(other_port, wish)[4];
        let n = "http://127.0.0.1:"@.len() as int;
        assert(decimal(local_port as nat) =~= this.skip(n));
        assert(decimal(other_port as nat) =~= that.skip(n));
    }
}

/// The characters of a tunnel's label are the letters, the digits and the dash.
pub proof fn label_characters(ch: char)
    ensures
        label_char(ch) <==> ('a' <= ch && ch <= 'z') || ('A' <= ch && ch <= 'Z') || ('0' <= ch && ch
            <= '9') || ch == '-',
        !label_char('.') && !label_char('/') && !label_char('_') && !label_char(' '),
{
}

/// Whether a text is a tunnel's address with this label.
pub open spec fn address_with(label: Seq<char>) -> Seq<char> {
    "https://"@ + label + ".trycloudflare.com"@
}

/// Wherever an address stands in a line, it is one: the scheme, a label of letters,
/// digits and dashes that is not empty, and the domain.
pub proof fn addresses_stand_anywhere(before: Seq<char>, label: Seq<char>, after: Seq<char>)
    requires
        label.len() > 0,
        forall|i: int| 0 <= i < label.len() ==> label_char(#[trigger] label[i]),
    ensures
        tunnel_address(
            before + address_with(label) + after,
            before.len() as int,
            (before.len() + address_with(label).len()) as int,
        ),
{
    let line = before + address_with(label) + after;
    let from = before.len() as int;
    let to = (before.len() + address_with(label).len()) as int;
    let start = from + "https://"@.len();
    let domain = to - ".trycloudflare.com"@.len();
    assert(line.subrange(from, from + "https://"@.len()) =~= "https://"@);
    assert(line.subrange(domain, domain + ".trycloudflare.com"@.len()) =~= ".trycloudflare.com"@);
    assert forall|i: int| start <= i < domain implies label_char(#[trigger] line[i]) by {
        assert(line[i] == label[i - start]);
    }
}

/// An address that is found in a line stands in it as it is, is the scheme, a label
/// of letters, digits and dashes, and the domain, and none starts before it.
pub proof fn found_addresses_stand_in_the_line(line: Seq<char>, url: Seq<char>) -> (r: (
    int,
    Seq<char>,
))
    requires
        address_of(line, Some(url)),
    ensures
        0 <= r.0,
        r.0 + url.len() <= line.len(),
        url == line.subrange(r.0, r.0 + url.len()),
        url == address_with(r.1),
        r.1.len() > 0,
        forall|i: int| 0 <= i < r.1.len() ==> label_char(#[trigger] r.1[i]),
        forall|f: int, t: int| #[trigger] tunnel_address(line, f, t) ==> r.0 <= f,
{
    let (from, to) = choose|from: int, to: int|
        {
            &&& #[trigger] tunnel_address(line, from, to)
            &&& forall|f: int, t: int| #[trigger] tunnel_address(line, f, t) ==> from <= f
            &&& url == line.subrange(from, to)
        };
    let start = from + "https://"@.len();
    let domain = to - ".trycloudflare.com"@.len();
    let label = line.subrange(start, domain);
    assert(url =~= line.subrange(from, start) + label + line.subrange(
        domain,
        domain + ".trycloudflare.com"@.len(),
    ));
    assert(url =~= address_with(label));
    assert forall|i: int| 0 <= i < label.len() implies label_char(#[trigger] label[i]) by {
        assert(label[i] == line[start + i]);
    }
    (from, label)
}

/// A line in which an address stands gives one: only a line without any gives none.
pub proof fn lines_with_an_address_give_one(
    before: Seq<char>,
    label: Seq<char>,
    after: Seq<char>,
    url: Option<Seq<char>>,
)
    requires
        label.len() > 0,
        forall|i: int| 0 <= i < label.len() ==> label_char(#[trigger] label[i]),
        address_of(before + address_with(label) + after, url),
    ensures
        url is Some,
{
    addresses_stand_anywhere(before, label, after);
}

/// The relay that is called back and the nodes word their failures differently; the
/// relay gives the detail, and both name the type that was to be read.
pub proof fn failures_name_their_cause(target: Seq<char>, detail: Seq<char>)
    ensures
        unsupported(Speaker::HttpRelay) == "unsupported serialization encoding"@,
        unsupported(Speaker::Node) == "Unsupported serialization format"@,
        encode_failure(Speaker::HttpRelay, detail) == "CBOR serialization failed: "@ + detail,
        encode_failure(Speaker::Node, detail) == "Failed to serialize sample into CBOR format"@,
        decode_failure(Speaker::HttpRelay, target, detail) == "CBOR deserialization into "@ + target
            + " failed: "@ + detail,
        decode_failure(Speaker::Node, target, detail)
            == "Failed to deserialize CBOR bytes into the "@ + target + " type"@,
{
}

/// What a span shows is its text, its colour and its face, all three.
pub proof fn spans_show_text_and_style(span: Span, text: Seq<char>, color: Color, face: Face)
    ensures
        shows(span, text, color, face) <==> span.text@ == text && span.color == color && span.face
            == face,
{
}

/// What is left of the input's limit, with what was written, makes up the limit.
pub proof fn what_is_left_makes_up_the_limit(app: AppState)
    ensures
        app.input@.len() <= app.input_limit ==> app.input@.len() + remaining(app)
            == app.input_limit,
        app.input@.len() > app.input_limit ==> remaining(app) == 0,
{
}

/// A listed message shows its own time, who wrote it and its text, whole and
/// unchanged. This node reads as `you`, in cyan and white; every other is named, in
/// yellow and grey.
pub proof fn listed_messages_are_shown_whole(
    spans: Seq<Span>,
    msg: ChatMessage,
    own_id: Seq<char>,
)
    requires
        lists_message(spans, msg, own_id),
    ensures
        spans.len() == 4,
        spans[3].text@ == msg.text@,
        msg.ts@.len() >= 5 ==> spans[0].text@ == "["@ + msg.ts@ + "]  "@,
        spans[0].text@.len() == "["@.len() + "]  "@.len() + if msg.ts@.len() < 5 {
            5
        } else {
            msg.ts@.len()
        },
        spans[0].color == Color::DarkGray,
        spans[1].face == Face::Bold,
        spans[2].text@ == "›  "@,
        spans[2].color == Color::DarkGray,
        msg.from@ == own_id ==> {
            &&& spans[1].text@ == "you"@ + "  "@
            &&& spans[1].color == Color::Cyan
            &&& spans[3].color == Color::White
        },
        msg.from@ != own_id ==> {
            &&& spans[1].text@ == msg.from@ + "  "@
            &&& spans[1].color == Color::Yellow
            &&& spans[3].color == Color::Gray
        },
{
    crate::text_laws::padding_reaches_the_width(msg.ts@, 5);
}

/// This node is shown as `you`, and every other under its own name.
pub proof fn names_are_shown(msg: ChatMessage, own_id: Seq<char>)
    ensures
        msg.from@ == own_id ==> shown_name(msg, own_id) == "you"@,
        msg.from@ != own_id ==> shown_name(msg, own_id) == msg.from@,
{
}

/// A topic that is found is there from then on, behind those that were found before
/// it, and only once however often it is found.
pub proof fn topics_are_found_once(topics: Seq<Seq<char>>, topic: Seq<char>, other: Seq<char>)
    ensures
        with_topic(topics, topic).contains(topic),
        topics.is_prefix_of(with_topic(topics, topic)),
        other != topic ==> (with_topic(topics, topic).contains(other) <==> topics.contains(other)),
        topics.no_duplicates() ==> with_topic(topics, topic).no_duplicates(),
        with_topic(with_topic(topics, topic), topic) == with_topic(topics, topic),
        !topics.contains(topic) ==> with_topic(topics, topic) == topics + seq![topic],
{
    let after = with_topic(topics, topic);
    if !topics.contains(topic) {
        assert(after[topics.len() as int] == topic);
        assert(after =~= topics + seq![topic]);
    }
    assert forall|x: Seq<char>| topics.contains(x) implies after.contains(x) by {
        let k = choose|k: int| 0 <= k < topics.len() && topics[k] == x;
        assert(after[k] == x);
    }
    if after.contains(other) && other != topic {
        let k = choose|k: int| 0 <= k < after.len() && after[k] == other;
        assert(topics[k] == other);
    }
    if topics.no_duplicates() && !topics.contains(topic) {
        assert forall|i: int, j: int|
            0 <= i < after.len() && 0 <= j < after.len() && i != j implies after[i] != after[j] by {
            if i < topics.len() {
                assert(topics.contains(topics[i]));
            }
            if j < topics.len() {
                assert(topics.contains(topics[j]));
            }
        }
    }
}

/// On the board every character is typed behind the others, however long the input
/// is; the backspace key takes the last one back; the enter key clears the input; no
/// other key changes it.
pub proof fn the_board_takes_what_is_typed(input: Seq<char>, key: Key, c: char)
    ensures
        input_after(input, Key::Char(c)) == input + seq![c],
        input_after(input_after(input, Key::Char(c)), Key::Backspace) == input,
        input.len() == 0 ==> input_after(input, Key::Backspace).len() == 0,
        input_after(input, Key::Enter).len() == 0,
        !(key is Char) && !(key is Backspace) && !(key is Enter) ==> input_after(input, key)
            == input,
{
    assert(input.push(c) =~= input + seq![c]);
    assert(input.push(c).drop_last() =~= input);
}

/// The board publishes exactly where the enter key is pressed on an input that is not
/// empty, and then the input as it is, with the white space around it; it closes
/// exactly on escape.
pub proof fn the_board_publishes_what_was_typed(input: Seq<char>, key: Key, action: KeyAction)
    requires
        action_after(input, key, action),
    ensures
        action is Publish <==> key is Enter && input.len() > 0,
        action matches KeyAction::Publish(text) ==> text@ == input,
        action is Quit <==> key is Esc,
{
}

/// Every sample that is a text is listed behind the others, and nothing else is.
pub proof fn the_board_lists_texts(messages: Seq<Seq<char>>, bytes: Seq<u8>)
    ensures
        valid_utf8(bytes) ==> listed_after(messages, bytes) == messages + seq![decode_utf8(bytes)],
        !valid_utf8(bytes) ==> listed_after(messages, bytes) == messages,
{
    assert(messages.push(decode_utf8(bytes)) =~= messages + seq![decode_utf8(bytes)]);
}

} // verus!
