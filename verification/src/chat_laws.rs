//! What holds of every message, every key and every time of day in the chat.

use vstd::prelude::*;

use crate::chat::{
    chat_run, digit_value, ends_chat, local_time, quit_command, quits, time_text, turn, zone_offset,
    AppEvent, AppState, ChatMessage, Key, KeyAction, Turn,
};
use crate::text::trimmed;

verus! {

/// Whether two states differ in their messages and in the view alone.
pub open spec fn same_but_messages(before: AppState, after: AppState) -> bool {
    &&& after.input == before.input
    &&& after.input_limit == before.input_limit
    &&& after.topic == before.topic
    &&& after.own_id == before.own_id
}

/// Whether two states differ in the view alone.
pub open spec fn same_but_view(before: AppState, after: AppState) -> bool {
    &&& same_but_messages(before, after)
    &&& after.messages == before.messages
}

/// Whether two states differ in the input alone.
pub open spec fn same_but_input(before: AppState, after: AppState) -> bool {
    &&& after.messages == before.messages
    &&& after.input_limit == before.input_limit
    &&& after.topic == before.topic
    &&& after.own_id == before.own_id
    &&& after.selected == before.selected
    &&& after.follow_tail == before.follow_tail
}

/// Whether the last message of a state is the given one, after those that were
/// there: the view is at it where it followed the tail, and stays where it is
/// otherwise.
pub open spec fn grew_by(before: AppState, msg: ChatMessage, after: AppState) -> bool {
    &&& same_but_messages(before, after)
    &&& after.messages@ == before.messages@ + seq![msg]
    &&& after.follow_tail == before.follow_tail
    &&& !before.follow_tail ==> after.selected == before.selected
    &&& before.follow_tail ==> (after.selected matches Some(i) && i == before.messages@.len())
}

/// In every state, scrolled up or not, a message of another node is kept: the
/// messages are the earlier ones, followed by that one. Where the view did not
/// follow the tail it stays where it is; where it did, it is at the new message.
/// Nothing else changes.
pub proof fn foreign_messages_are_kept(before: AppState, msg: ChatMessage, after: AppState)
    requires
        before.after_message(msg, after),
        msg.from@ != before.own_id@,
    ensures
        after.messages@ == before.messages@ + seq![msg],
        !before.follow_tail ==> after.selected == before.selected,
        before.follow_tail ==> (after.selected matches Some(i) && i == before.messages@.len()),
        after.follow_tail == before.follow_tail,
        same_but_messages(before, after),
{
    assert(before.messages@.push(msg) =~= before.messages@ + seq![msg]);
}

/// A message of this node is passed over when it comes back: nothing changes.
pub proof fn own_messages_are_passed_over(before: AppState, msg: ChatMessage, after: AppState)
    requires
        before.after_message(msg, after),
        msg.from@ == before.own_id@,
    ensures
        after == before,
{
}

/// A message that is added is the last one, after all that were there.
pub proof fn added_messages_are_last(before: AppState, msg: ChatMessage, after: AppState)
    requires
        before.after_push(msg, after),
    ensures
        grew_by(before, msg, after),
{
    assert(before.messages@.push(msg) =~= before.messages@ + seq![msg]);
}

/// An event that is a message does what the message does, and neither ends the chat
/// nor sends; where nothing happens, nothing changes.
pub proof fn arrivals_only_arrive(
    before: AppState,
    event: AppEvent,
    turned: Turn,
    after: AppState,
)
    requires
        turn(before, event, turned, after),
        !(event is Key),
    ensures
        turned.sent is None,
        turned.action is Continue,
        event is Tick ==> after == before,
        event matches AppEvent::Message(msg) ==> {
            &&& msg.from@ == before.own_id@ ==> after == before
            &&& msg.from@ != before.own_id@ ==> grew_by(before, msg, after)
        },
{
    if let AppEvent::Message(msg) = event {
        assert(before.messages@.push(msg) =~= before.messages@ + seq![msg]);
    }
}

/// Messages that come one after the other are all kept in the order of their
/// coming, but for this node's own, wherever the view is.
pub proof fn messages_arrive_in_order(states: Seq<AppState>, msgs: Seq<ChatMessage>)
    requires
        states.len() == msgs.len() + 1,
        forall|i: int|
            0 <= i < msgs.len() ==> states[i].after_message(#[trigger] msgs[i], states[i + 1]),
    ensures
        states.last().own_id == states[0].own_id,
        states.last().messages@ == states[0].messages@ + msgs.filter(
            |m: ChatMessage| m.from@ != states[0].own_id@,
        ),
    decreases msgs.len(),
{
    let foreign = |m: ChatMessage| m.from@ != states[0].own_id@;
    if msgs.len() == 0 {
        msgs.lemma_filter_len(foreign);
        assert(msgs.filter(foreign) =~= Seq::empty());
    } else {
        let n = msgs.len() - 1;
        let fewer = msgs.drop_last();
        let earlier = states.drop_last();
        assert forall|i: int| 0 <= i < fewer.len() implies earlier[i].after_message(
            #[trigger] fewer[i],
            earlier[i + 1],
        ) by {
            assert(msgs[i] == fewer[i]);
        }
        messages_arrive_in_order(earlier, fewer);
        assert(earlier[0] == states[0] && earlier.last() == states[n]);
        assert(states[n].after_message(msgs[n], states[n + 1]));
        fewer.lemma_filter_push(msgs[n], foreign);
        assert(msgs =~= fewer.push(msgs[n]));
        assert(states.last().messages@ =~= states[0].messages@ + msgs.filter(foreign));
    }
}

/// Nothing that happens in the chat takes a message away or changes one, and the
/// node and the topic stay the same.
pub proof fn no_message_is_lost(before: AppState, event: AppEvent, turned: Turn, after: AppState)
    requires
        turn(before, event, turned, after),
    ensures
        before.messages@.is_prefix_of(after.messages@),
        after.messages@.len() <= before.messages@.len() + 1,
        after.own_id == before.own_id,
        after.topic == before.topic,
        after.input_limit == before.input_limit,
{
}

/// What holds of a state that is as it should be.
pub proof fn well_formed_states(state: AppState)
    ensures
        state.wf() <==> {
            &&& state.input@.len() <= state.input_limit
            &&& state.messages@.len() == 0 ==> state.selected is None && state.follow_tail
            &&& state.messages@.len() > 0 ==> (state.selected matches Some(i) && i
                < state.messages@.len() && (state.follow_tail ==> i == state.messages@.len() - 1))
        },
{
}

/// The keys that end the chat at once are escape, and `c` together with the control
/// key. So `c` alone is typed, and so is any other character.
pub proof fn only_two_keys_quit(key: Key, control: bool)
    ensures
        quits(Key::Esc, control),
        quits(Key::Char('c'), true),
        !quits(Key::Char('c'), false),
        quits(key, control) ==> key is Esc || key == Key::Char('c'),
{
}

/// The commands that end the chat are `/quit` and `/q`, and no others.
pub proof fn only_two_commands_quit(text: Seq<char>)
    ensures
        quit_command(text) <==> text == seq!['/', 'q'] || text == seq!['/', 'q', 'u', 'i', 't'],
{
    reveal_strlit("/quit");
    reveal_strlit("/q");
    assert("/q"@ =~= seq!['/', 'q']);
    assert("/quit"@ =~= seq!['/', 'q', 'u', 'i', 't']);
}

/// An event ends the chat exactly where it is a key that ends it at once, or the
/// enter key on a command.
pub proof fn what_ends_the_chat(state: AppState, event: AppEvent)
    ensures
        event is Message ==> !ends_chat(state, event),
        event is Tick ==> !ends_chat(state, event),
        event matches AppEvent::Key { key, control } ==> {
            &&& key is Esc ==> ends_chat(state, event)
            &&& key == Key::Char('c') ==> (ends_chat(state, event) <==> control)
            &&& key is Char && key != Key::Char('c') ==> !ends_chat(state, event)
            &&& key is Enter ==> (ends_chat(state, event) <==> {
                let text = trimmed(state.input@);
                text == seq!['/', 'q'] || text == seq!['/', 'q', 'u', 'i', 't']
            })
            &&& !(key is Esc) && !(key is Char) && !(key is Enter) ==> !ends_chat(state, event)
        },
{
    only_two_commands_quit(trimmed(state.input@));
}

/// A character that does not end the chat is typed at the end of the input where
/// there is room, whatever it is, and is lost where there is none. Nothing else
/// changes, and nothing follows.
pub proof fn characters_are_typed(
    before: AppState,
    c: char,
    control: bool,
    after: AppState,
    action: KeyAction,
)
    requires
        before.after_event(AppEvent::Key { key: Key::Char(c), control }, after, action),
        c != 'c' || !control,
    ensures
        same_but_input(before, after),
        before.input@.len() < before.input_limit ==> after.input@ == before.input@ + seq![c],
        before.input@.len() >= before.input_limit ==> after.input@ == before.input@,
        action is Continue,
{
    assert(before.input@.push(c) =~= before.input@ + seq![c]);
}

/// The backspace key takes the last character back: what was typed before it stays.
pub proof fn backspace_takes_one_back(
    before: AppState,
    control: bool,
    after: AppState,
    action: KeyAction,
)
    requires
        before.after_event(AppEvent::Key { key: Key::Backspace, control }, after, action),
    ensures
        same_but_input(before, after),
        before.input@.len() == 0 ==> after.input@.len() == 0,
        before.input@.len() > 0 ==> before.input@ == after.input@ + seq![before.input@.last()],
        action is Continue,
{
    if before.input@.len() > 0 {
        assert(before.input@ =~= before.input@.drop_last() + seq![before.input@.last()]);
    }
}

/// The backspace key undoes a character that was typed.
pub proof fn backspace_undoes_typing(
    before: AppState,
    c: char,
    between: AppState,
    after: AppState,
    typed: KeyAction,
    taken: KeyAction,
)
    requires
        before.input@.len() < before.input_limit,
        before.after_event(AppEvent::Key { key: Key::Char(c), control: false }, between, typed),
        between.after_event(AppEvent::Key { key: Key::Backspace, control: false }, after, taken),
    ensures
        after.input@ == before.input@,
        same_but_input(before, after),
{
    assert(before.input@.push(c).drop_last() =~= before.input@);
}

/// The enter key clears the input and changes nothing else. What follows is told by
/// the input without the white space around it: nothing where that is empty, the end
/// of the chat where it is a command, and otherwise that it is sent as it is.
pub proof fn enter_takes_the_input(
    before: AppState,
    control: bool,
    after: AppState,
    action: KeyAction,
)
    requires
        before.after_event(AppEvent::Key { key: Key::Enter, control }, after, action),
    ensures
        same_but_input(before, after),
        after.input@ == Seq::<char>::empty(),
        ({
            let text = trimmed(before.input@);
            let command = text == seq!['/', 'q'] || text == seq!['/', 'q', 'u', 'i', 't'];
            &&& action is Continue <==> text.len() == 0
            &&& action is Quit <==> command
            &&& text.len() > 0 && !command ==> (action matches KeyAction::Send(sent) && sent@
                == text)
        }),
{
    only_two_commands_quit(trimmed(before.input@));
}

/// The view can be moved to any message. Before the first it stays at the first, and
/// behind the last it stays at the last; it follows the tail exactly where it is at
/// the last. Nothing else changes.
pub proof fn the_view_reaches_every_message(state: AppState, index: int)
    requires
        state.messages@.len() > 0,
    ensures
        same_but_view(state, state.moved_to(index)),
        0 <= index < state.messages@.len() ==> state.moved_to(index).selected == Some(
            index as usize,
        ),
        index < 0 ==> state.moved_to(index).selected == Some(0usize),
        index >= state.messages@.len() ==> (state.moved_to(index).selected matches Some(i) && i
            == state.messages@.len() - 1),
        state.moved_to(index).follow_tail <==> index >= state.messages@.len() - 1
            || state.messages@.len() == 1,
{
}

/// The view is where the selected message is; without one it is at the last.
pub proof fn the_view_is_at_the_selected_message(state: AppState)
    ensures
        state.selected matches Some(i) ==> state.position() == i,
        state.selected is None ==> state.position() == state.messages@.len() - 1,
{
}

/// By how many messages a key moves the view: up where it is negative.
pub open spec fn step_of(key: Key) -> Option<int> {
    match key {
        Key::Up => Some(-1),
        Key::Down => Some(1),
        Key::PageUp => Some(-10),
        Key::PageDown => Some(10),
        _ => None,
    }
}

/// The arrow keys move the view by one message, and the page keys by ten, up or
/// down as they say, but not past the first or the last. The view follows the tail
/// exactly where it is then at the last. Nothing else changes, and nothing follows;
/// without messages nothing changes at all.
pub proof fn scrolling_keys_move_the_view(
    before: AppState,
    key: Key,
    control: bool,
    after: AppState,
    action: KeyAction,
    at: int,
)
    requires
        step_of(key) is Some,
        before.after_event(AppEvent::Key { key, control }, after, action),
        before.messages@.len() > 0 ==> before.selected == Some(at as usize) && 0 <= at
            < before.messages@.len(),
    ensures
        same_but_view(before, after),
        action is Continue,
        before.messages@.len() == 0 ==> after == before,
        before.messages@.len() > 0 ==> (after.selected matches Some(i) && {
            let wanted = at + step_of(key)->0;
            &&& 0 <= wanted < before.messages@.len() ==> i == wanted
            &&& wanted < 0 ==> i == 0
            &&& wanted >= before.messages@.len() ==> i == before.messages@.len() - 1
            &&& after.follow_tail <==> i == before.messages@.len() - 1
        }),
{
}

/// The home key moves the view to the first message and stops following; the end
/// key moves it to the last one and follows. Any other key that is not spoken of
/// changes nothing.
pub proof fn home_end_and_other_keys(
    before: AppState,
    key: Key,
    control: bool,
    after: AppState,
    action: KeyAction,
)
    requires
        key is Home || key is End || key is Other || key is Esc,
        before.after_event(AppEvent::Key { key, control }, after, action),
    ensures
        same_but_view(before, after),
        key is Home && before.messages@.len() > 0 ==> after.selected == Some(0usize)
            && !after.follow_tail,
        key is Home && before.messages@.len() == 0 ==> after == before,
        key is End && before.messages@.len() > 0 ==> (after.selected matches Some(i) && i
            == before.messages@.len() - 1) && after.follow_tail,
        key is End && before.messages@.len() == 0 ==> after.selected is None && after.follow_tail,
        key is Other ==> after == before,
        key is Esc ==> after == before && action is Quit,
        !(key is Esc) ==> action is Continue,
{
}

/// A text that is sent is shown once, at the end of the messages, as a message of
/// this node with that text and that time of day, and goes to the bus just so.
/// Without a time of day nothing is sent and nothing changes.
pub proof fn sent_texts_are_shown_once(
    before: AppState,
    text: Seq<char>,
    ts: Option<String>,
    sent: Option<ChatMessage>,
    after: AppState,
)
    requires
        before.after_send(text, ts, sent, after),
    ensures
        ts is None ==> sent is None && after == before,
        ts matches Some(time) ==> (sent matches Some(msg) && {
            &&& msg.from@ == before.own_id@
            &&& msg.text@ == text
            &&& msg.ts == time
            &&& grew_by(before, msg, after)
        }),
{
    if let Some(msg) = sent {
        assert(before.messages@.push(msg) =~= before.messages@ + seq![msg]);
    }
}

/// A turn sends exactly where it takes the enter key on an input with something in
/// it that is no command, and the clock has a time of day.
pub proof fn when_a_turn_sends(before: AppState, event: AppEvent, turned: Turn, after: AppState)
    requires
        turn(before, event, turned, after),
    ensures
        turned.sent is Some <==> {
            let text = trimmed(before.input@);
            &&& event matches AppEvent::Key { key, .. } && key is Enter
            &&& text.len() > 0
            &&& text != seq!['/', 'q']
            &&& text != seq!['/', 'q', 'u', 'i', 't']
            &&& turned.ts is Some
        },
        turned.sent is None ==> after.messages == before.messages || event is Message,
{
    only_two_commands_quit(trimmed(before.input@));
}

/// In a run every event is taken, each by the state that the one before it left.
pub proof fn runs_take_every_event(
    states: Seq<AppState>,
    events: Seq<AppEvent>,
    turns: Seq<Turn>,
    i: int,
)
    requires
        chat_run(states, events, turns),
        0 <= i < events.len(),
    ensures
        states.len() == events.len() + 1,
        turns.len() == events.len(),
        turn(states[i], events[i], turns[i], states[i + 1]),
        states[i].messages@.is_prefix_of(states[i + 1].messages@),
        i < events.len() - 1 ==> !(turns[i].action is Quit),
{
    assert(events[i] == events[i]);
    no_message_is_lost(states[i], events[i], turns[i], states[i + 1]);
    if i < events.len() - 1 {
        assert(!(turns[i].action is Quit));
    }
}

/// The number that two characters write as decimal digits.
pub open spec fn two_digit_value(a: char, b: char) -> int {
    10 * (a as int - '0' as int) + (b as int - '0' as int)
}

/// Whether a character is a decimal digit.
pub open spec fn is_digit(ch: char) -> bool {
    '0' <= ch <= '9'
}

/// A time of day reads as two digits of hours, a colon and two digits of minutes:
/// those of the day, whatever the day and the second are.
pub proof fn times_read_as_hours_and_minutes(
    total_seconds: u64,
    day: nat,
    hours: nat,
    minutes: nat,
    seconds: nat,
)
    requires
        hours < 24,
        minutes < 60,
        seconds < 60,
        total_seconds == 86_400 * day + 3600 * hours + 60 * minutes + seconds,
    ensures
        ({
            let s = time_text(total_seconds);
            &&& s.len() == 5
            &&& is_digit(s[0]) && is_digit(s[1]) && is_digit(s[3]) && is_digit(s[4])
            &&& two_digit_value(s[0], s[1]) == hours
            &&& s[2] == ':'
            &&& two_digit_value(s[3], s[4]) == minutes
        }),
{
    reveal_strlit(":");
    let t = total_seconds as nat;
    assert(t / 3600 == 24 * day + hours) by (nonlinear_arith)
        requires
            t == 86_400 * day + 3600 * hours + 60 * minutes + seconds,
            minutes < 60,
            seconds < 60,
    ;
    assert((24 * day + hours) % 24 == hours) by (nonlinear_arith)
        requires
            hours < 24,
    ;
    assert(t / 60 == 60 * (24 * day + hours) + minutes) by (nonlinear_arith)
        requires
            t == 86_400 * day + 3600 * hours + 60 * minutes + seconds,
            seconds < 60,
    ;
    assert((60 * (24 * day + hours) + minutes) % 60 == minutes) by (nonlinear_arith)
        requires
            minutes < 60,
    ;
}

/// The time at a place is the one of which whole days make up the rest: for every
/// day, before the epoch or after it.
pub proof fn local_times_leave_whole_days(
    epoch_seconds: u64,
    utc_offset_secs: i32,
    day: int,
    of_day: int,
)
    requires
        0 <= of_day < 86_400,
        epoch_seconds + utc_offset_secs == 86_400 * day + of_day,
    ensures
        local_time(epoch_seconds, utc_offset_secs) == of_day,
{
}

/// The value of a digit is that of which its character is as many behind `0`;
/// nothing else has one.
pub proof fn digits_have_values(ch: char)
    ensures
        is_digit(ch) ==> digit_value(ch) == Some(ch as int - '0' as int) && 0 <= digit_value(ch)->0
            <= 9,
        !is_digit(ch) ==> digit_value(ch) is None,
{
}

/// A zone is read exactly where it is a sign and four digits: it is then as many
/// hours and minutes ahead of UTC as they say, or behind it where the sign is a
/// minus.
pub proof fn zones_are_hours_and_minutes(sign: char, h1: char, h2: char, m1: char, m2: char)
    requires
        is_digit(h1),
        is_digit(h2),
        is_digit(m1),
        is_digit(m2),
    ensures
        ({
            let zone = seq![sign, h1, h2, m1, m2];
            let seconds = 60 * (60 * two_digit_value(h1, h2) + two_digit_value(m1, m2));
            &&& sign == '+' ==> zone_offset(zone) == Some(seconds)
            &&& sign == '-' ==> zone_offset(zone) == Some(-seconds)
            &&& sign != '+' && sign != '-' ==> zone_offset(zone) is None
        }),
{
}

/// Nothing but a sign and four digits is read as a zone.
pub proof fn other_texts_are_no_zones(zone: Seq<char>)
    requires
        zone_offset(zone) is Some,
    ensures
        zone.len() == 5,
        zone[0] == '+' || zone[0] == '-',
        forall|i: int| 1 <= i < 5 ==> is_digit(#[trigger] zone[i]),
{
}

} // verus!
