//! The chat node: its messages, and what keys and arrivals do to its state.

use vstd::prelude::*;

use crate::text::{chars_of, same_text, trim, trimmed, two_digit_string, two_digits};

verus! {

/// The topic of the chat.
pub const TOPIC: &'static str = "telemetry_chat";

/// The largest number of characters in one message.
pub const INPUT_LIMIT: usize = 280;

/// A chat message as it goes over the bus.
#[derive(Debug)]
pub struct ChatMessage {
    pub from: String,
    pub text: String,
    /// Wall-clock time formatted as "HH:MM" at the sender's locale.
    pub ts: String,
}

impl Clone for ChatMessage {
    fn clone(&self) -> (r: Self)
        ensures
            r == *self,
    {
        ChatMessage { from: self.from.clone(), text: self.text.clone(), ts: self.ts.clone() }
    }
}

/// `SystemTime::elapsed`, of the epoch: the whole seconds since then, or none
/// where the clock is before it. The clock decides, so nothing is said of it.
#[verifier::external_body]
fn seconds_since_epoch() -> (r: Option<u64>) {
    std::time::UNIX_EPOCH.elapsed().ok().map(|time| time.as_secs())
}

/// The hours and minutes of the day, after this many seconds since some midnight.
pub open spec fn time_text(total_seconds: u64) -> Seq<char> {
    two_digits(((total_seconds as nat) / 3600) % 24) + ":"@ + two_digits(
        ((total_seconds as nat) / 60) % 60,
    )
}

/// The seconds since the last midnight at a place, this many seconds after the
/// epoch. The place is told by how far its clocks are ahead of UTC.
pub open spec fn local_time(epoch_seconds: u64, utc_offset_secs: i32) -> u64 {
    ((epoch_seconds + utc_offset_secs) % 86_400) as u64
}

/// The value of a decimal digit.
pub open spec fn digit_value(ch: char) -> Option<int> {
    if '0' <= ch <= '9' {
        Some(ch as int - '0' as int)
    } else {
        None
    }
}

/// How far the clocks of a zone are ahead of UTC, in seconds, where the zone is
/// written as a sign, two digits of hours and two of minutes.
pub open spec fn zone_offset(zone: Seq<char>) -> Option<int> {
    if zone.len() == 5 && (zone[0] == '+' || zone[0] == '-') && digit_value(zone[1]) is Some
        && digit_value(zone[2]) is Some && digit_value(zone[3]) is Some && digit_value(
        zone[4],
    ) is Some {
        let hours = 10 * digit_value(zone[1])->0 + digit_value(zone[2])->0;
        let minutes = 10 * digit_value(zone[3])->0 + digit_value(zone[4])->0;
        let seconds = 3600 * hours + 60 * minutes;
        Some(
            if zone[0] == '-' {
                -seconds
            } else {
                seconds
            },
        )
    } else {
        None
    }
}

/// The value of a decimal digit.
fn digit_of(ch: char) -> (r: Option<i32>)
    ensures
        match r {
            Some(d) => digit_value(ch) == Some(d as int) && 0 <= d <= 9,
            None => digit_value(ch) is None,
        },
{
    if '0' <= ch && ch <= '9' {
        Some((ch as u32 - '0' as u32) as i32)
    } else {
        None
    }
}

/// How far the clocks of a zone are ahead of UTC, in seconds, where the zone is
/// written as a sign, two digits of hours and two of minutes, as in `+0130`.
pub fn utc_offset_of(zone: &str) -> (r: Option<i32>)
    ensures
        match r {
            Some(seconds) => zone_offset(zone@) == Some(seconds as int),
            None => zone_offset(zone@) is None,
        },
{
    let chars = chars_of(zone);
    if chars.len() != 5 || (chars[0] != '+' && chars[0] != '-') {
        return None;
    }
    match (digit_of(chars[1]), digit_of(chars[2]), digit_of(chars[3]), digit_of(chars[4])) {
        (Some(h1), Some(h2), Some(m1), Some(m2)) => {
            let seconds: i32 = 3600 * (10 * h1 + h2) + 60 * (10 * m1 + m2);
            if chars[0] == '-' {
                Some(-seconds)
            } else {
                Some(seconds)
            }
        },
        _ => None,
    }
}

impl ChatMessage {
    /// The hours and minutes of the day, after this many seconds since some
    /// midnight.
    pub fn time_string(total_seconds: u64) -> (r: String)
        ensures
            r@ == time_text(total_seconds),
    {
        let hours: u64 = (total_seconds / 3600) % 24;
        let minutes: u64 = (total_seconds / 60) % 60;
        let mut r = two_digit_string(hours);
        r.append(":");
        r.append(&two_digit_string(minutes));
        r
    }

    /// The reading of a clock at a place, for a reading in seconds since the epoch:
    /// the seconds since the last midnight there. None where there is no reading.
    pub fn local_reading(clock: Option<u64>, utc_offset_secs: i32) -> (r: Option<u64>)
        ensures
            r == match clock {
                Some(epoch_seconds) => Some(local_time(epoch_seconds, utc_offset_secs)),
                None => None,
            },
    {
        match clock {
            Some(epoch_seconds) => {
                // Whole days are added, so that the sum is not negative.
                let days: i64 = 24_856 * 86_400;
                let of_day: i64 = (epoch_seconds % 86_400) as i64;
                let sum: i64 = of_day + utc_offset_secs as i64 + days;
                let local: u64 = (sum as u64) % 86_400;
                assert(local == (epoch_seconds + utc_offset_secs) % 86_400);
                Some(local)
            },
            None => None,
        }
    }

    /// The time of day for a reading of the clock, in seconds since some midnight;
    /// none where there is no reading.
    pub fn time_at(clock: Option<u64>) -> (r: Option<String>)
        ensures
            match clock {
                Some(total_seconds) => r matches Some(s) && s@ == time_text(total_seconds),
                None => r is None,
            },
    {
        match clock {
            Some(total_seconds) => Some(Self::time_string(total_seconds)),
            None => None,
        }
    }

    /// The present time of day at a place that is told by how far its clocks are
    /// ahead of UTC; none where the clock is before the epoch. Which time it is
    /// depends on the clock.
    pub fn get_time_string(utc_offset_secs: i32) -> (r: Option<String>)
        ensures
            r matches Some(s) ==> exists|epoch_seconds: u64|
                s@ == time_text(#[trigger] local_time(epoch_seconds, utc_offset_secs)),
    {
        let clock = seconds_since_epoch();
        Self::time_at(Self::local_reading(clock, utc_offset_secs))
    }

    /// A message that was written after this many seconds since some midnight.
    pub fn at(from: &str, text: &str, total_seconds: u64) -> (r: ChatMessage)
        ensures
            r.from@ == from@,
            r.text@ == text@,
            r.ts@ == time_text(total_seconds),
    {
        ChatMessage {
            from: from.to_string(),
            text: text.to_string(),
            ts: Self::time_string(total_seconds),
        }
    }

    /// A message with the given time of day; none where there is no time.
    pub fn stamped(from: &str, text: &str, ts: Option<String>) -> (r: Option<ChatMessage>)
        ensures
            match ts {
                Some(s) => r matches Some(m) && m.from@ == from@ && m.text@ == text@ && m.ts == s,
                None => r is None,
            },
    {
        match ts {
            Some(ts) => Some(
                ChatMessage { from: from.to_string(), text: text.to_string(), ts },
            ),
            None => None,
        }
    }

    /// A message that is written now, which a time of zero stands for, at a place
    /// that is told by how far its clocks are ahead of UTC; none where the clock is
    /// before the epoch. No other time is taken.
    pub fn new(from: &str, text: &str, time_nanos: u128, utc_offset_secs: i32) -> (r: Option<
        ChatMessage,
    >)
        requires
            time_nanos == 0,
        ensures
            r matches Some(m) ==> m.from@ == from@ && m.text@ == text@ && exists|
                epoch_seconds: u64,
            |
                m.ts@ == time_text(#[trigger] local_time(epoch_seconds, utc_offset_secs)),
    {
        Self::stamped(from, text, Self::get_time_string(utc_offset_secs))
    }
}

/// A key that was pressed.
#[derive(Debug, Clone, Copy, PartialEq, Eq, Structural)]
pub enum Key {
    Char(char),
    Backspace,
    Enter,
    Esc,
    Up,
    Down,
    PageUp,
    PageDown,
    Home,
    End,
    Other,
}

/// What happens to the chat.
#[derive(Debug)]
pub enum AppEvent {
    /// A key is pressed, with the control key or without.
    Key { key: Key, control: bool },
    /// A message comes from the bus.
    Message(ChatMessage),
    /// Nothing that matters.
    Tick,
}

/// What follows a key.
#[derive(Debug)]
pub enum KeyAction {
    /// Nothing more.
    Continue,
    /// The chat ends.
    Quit,
    /// A message with this text is sent.
    Send(String),
}

/// The state of the chat.
#[derive(Debug)]
pub struct AppState {
    pub messages: Vec<ChatMessage>,
    pub input: String,
    /// The largest number of characters in one message.
    pub input_limit: usize,
    pub topic: String,
    pub own_id: String,
    /// The message that the view is scrolled to.
    pub selected: Option<usize>,
    /// When `true`, a new incoming message scrolls the view to the bottom.
    /// Set to `false` when the user manually scrolls up, re-enabled when
    /// they scroll back to the last message.
    pub follow_tail: bool,
}

/// Whether a key ends the chat at once: escape, and `c` with the control key.
pub open spec fn quits(key: Key, control: bool) -> bool {
    key == Key::Esc || (key == Key::Char('c') && control)
}

/// Whether a text is a command that ends the chat.
pub open spec fn quit_command(text: Seq<char>) -> bool {
    text == "/quit"@ || text == "/q"@
}

impl AppState {
    /// The input fits the limit; the view is scrolled to a message that is there,
    /// and to the last one where it follows the tail.
    pub open spec fn wf(&self) -> bool {
        &&& self.input@.len() <= self.input_limit
        &&& self.selected is None <==> self.messages.len() == 0
        &&& self.selected matches Some(i) ==> i < self.messages.len()
        &&& self.follow_tail && self.messages.len() > 0 ==> self.selected == Some(
            (self.messages.len() - 1) as usize,
        )
        &&& self.messages.len() == 0 ==> self.follow_tail
    }

    /// The same but for the view: what it is scrolled to, and whether it follows
    /// the tail.
    pub open spec fn scrolled(&self, to: Option<usize>, follow_tail: bool) -> AppState {
        AppState { selected: to, follow_tail, ..*self }
    }

    /// The view at the last message.
    pub open spec fn at_bottom(&self) -> AppState {
        self.scrolled(
            if self.messages.len() == 0 {
                None
            } else {
                Some((self.messages.len() - 1) as usize)
            },
            true,
        )
    }

    /// The view at the message with this index, or at the first or last one where
    /// there is no such message. Only the last message is followed.
    pub open spec fn moved_to(&self, index: int) -> AppState {
        let last = self.messages.len() - 1;
        let to = if index < 0 {
            0
        } else if index > last {
            last
        } else {
            index
        };
        if self.messages.len() == 0 {
            *self
        } else {
            self.scrolled(Some(to as usize), to == last)
        }
    }

    /// The index of the message that the view is scrolled to.
    pub open spec fn position(&self) -> int {
        match self.selected {
            Some(i) => i as int,
            None => self.messages.len() - 1,
        }
    }

    /// A chat without messages.
    pub fn new(topic: String, own_id: String) -> (r: AppState)
        ensures
            r.wf(),
            r.messages.len() == 0,
            r.input@.len() == 0,
            r.input_limit == INPUT_LIMIT,
            r.input_limit == 280,
            r.topic == topic,
            r.own_id == own_id,
            r.selected is None,
            r.follow_tail,
    {
        AppState {
            messages: Vec::new(),
            input: String::new(),
            input_limit: INPUT_LIMIT,
            topic,
            own_id,
            selected: None,
            follow_tail: true,
        }
    }

    /// The state after a message was added: the view scrolls to it if it follows
    /// the tail.
    pub open spec fn after_push(&self, msg: ChatMessage, after: AppState) -> bool {
        &&& after.messages@ == self.messages@.push(msg)
        &&& after == if self.follow_tail {
            (AppState { messages: after.messages, ..*self }).at_bottom()
        } else {
            (AppState { messages: after.messages, ..*self })
        }
    }

    /// Adds a message, and scrolls to it if the view follows the tail.
    pub fn push(&mut self, msg: ChatMessage)
        requires
            old(self).wf(),
        ensures
            final(self).wf(),
            old(self).after_push(msg, *final(self)),
    {
        self.messages.push(msg);
        if self.follow_tail {
            self.scroll_to_bottom();
        }
    }

    /// Scrolls to the last message.
    pub fn scroll_to_bottom(&mut self)
        ensures
            *final(self) == old(self).at_bottom(),
    {
        if self.messages.len() == 0 {
            self.selected = None;
        } else {
            self.selected = Some(self.messages.len() - 1);
        }
        self.follow_tail = true;
    }

    /// Scrolls up by some messages, at most to the first.
    pub fn scroll_up(&mut self, delta: usize)
        requires
            old(self).wf(),
        ensures
            final(self).wf(),
            *final(self) == old(self).moved_to(old(self).position() - delta),
    {
        if self.messages.len() == 0 {
            return;
        }
        let last: usize = self.messages.len() - 1;
        let current: usize = match self.selected {
            Some(i) => i,
            None => last,
        };
        let next: usize = if current >= delta {
            current - delta
        } else {
            0
        };
        self.selected = Some(next);
        self.follow_tail = next >= last;
    }

    /// Scrolls down by some messages, at most to the last.
    pub fn scroll_down(&mut self, delta: usize)
        requires
            old(self).wf(),
            old(self).position() + delta <= usize::MAX,
        ensures
            final(self).wf(),
            *final(self) == old(self).moved_to(old(self).position() + delta),
    {
        self.move_down(delta);
    }

    /// Scrolls down by some messages, at most to the last.
    fn move_down(&mut self, delta: usize)
        requires
            old(self).wf(),
        ensures
            final(self).wf(),
            *final(self) == old(self).moved_to(old(self).position() + delta),
    {
        if self.messages.len() == 0 {
            return;
        }
        let last: usize = self.messages.len() - 1;
        let current: usize = match self.selected {
            Some(i) => i,
            None => last,
        };
        let next: usize = if delta < last - current {
            current + delta
        } else {
            last
        };
        self.selected = Some(next);
        self.follow_tail = next >= last;
    }

    /// Scrolls to the first message.
    pub fn scroll_to_top(&mut self)
        requires
            old(self).wf(),
        ensures
            final(self).wf(),
            *final(self) == if old(self).messages.len() == 0 {
                *old(self)
            } else {
                old(self).scrolled(Some(0), false)
            },
    {
        if self.messages.len() > 0 {
            self.selected = Some(0);
            self.follow_tail = false;
        }
    }

    /// What a key does to the state.
    pub open spec fn after_key(&self, key: Key, control: bool, after: AppState) -> bool {
        if quits(key, control) {
            after == *self
        } else {
            match key {
                Key::Char(c) => {
                    &&& after == AppState { input: after.input, ..*self }
                    &&& after.input@ == if self.input@.len() < self.input_limit {
                        self.input@.push(c)
                    } else {
                        self.input@
                    }
                },
                Key::Backspace => {
                    &&& after == AppState { input: after.input, ..*self }
                    &&& after.input@ == if self.input@.len() == 0 {
                        self.input@
                    } else {
                        self.input@.drop_last()
                    }
                },
                Key::Enter => {
                    &&& after == AppState { input: after.input, ..*self }
                    &&& after.input@.len() == 0
                },
                Key::Up => after == self.moved_to(self.position() - 1),
                Key::Down => after == self.moved_to(self.position() + 1),
                Key::PageUp => after == self.moved_to(self.position() - 10),
                Key::PageDown => after == self.moved_to(self.position() + 10),
                Key::Home => after == if self.messages.len() == 0 {
                    *self
                } else {
                    self.scrolled(Some(0), false)
                },
                Key::End => after == self.at_bottom(),
                _ => after == *self,
            }
        }
    }

    /// What follows a key. With the enter key, the input without the white space
    /// around it is a command that ends the chat, or the text of a message; an
    /// empty one is neither.
    pub open spec fn action_of(&self, key: Key, control: bool, action: KeyAction) -> bool {
        if quits(key, control) || (key == Key::Enter && quit_command(trimmed(self.input@))) {
            action is Quit
        } else if key == Key::Enter && trimmed(self.input@).len() > 0 {
            action matches KeyAction::Send(text) && text@ == trimmed(self.input@)
        } else {
            action is Continue
        }
    }

    /// Takes a key.
    pub fn handle_key(&mut self, key: Key, control: bool) -> (r: KeyAction)
        requires
            old(self).wf(),
        ensures
            final(self).wf(),
            old(self).after_key(key, control, *final(self)),
            old(self).action_of(key, control, r),
    {
        proof {
            reveal_strlit("/quit");
            reveal_strlit("/q");
        }
        match key {
            Key::Esc => {
                return KeyAction::Quit;
            },
            Key::Char(c) => {
                if c == 'c' && control {
                    return KeyAction::Quit;
                }
                if self.input.as_str().unicode_len() < self.input_limit {
                    self.input.push(c);
                }
            },
            Key::Backspace => {
                let _ = self.input.pop();
            },
            Key::Enter => {
                let text = trim(&self.input);
                self.input = String::new();
                if text.as_str().is_empty() {
                    return KeyAction::Continue;
                }
                // Handle local slash-commands before publishing
                if same_text(&text, "/quit") || same_text(&text, "/q") {
                    return KeyAction::Quit;
                }
                return KeyAction::Send(text);
            },
            Key::Up => self.scroll_up(1),
            Key::Down => self.move_down(1),
            Key::PageUp => self.scroll_up(10),
            Key::PageDown => self.move_down(10),
            Key::Home => self.scroll_to_top(),
            Key::End => self.scroll_to_bottom(),
            Key::Other => {},
        }
        KeyAction::Continue
    }

    /// The state after a text was sent, and the message that goes to the bus: it is
    /// from this node, holds the text and the time of day, and is added to the
    /// messages once. Without a time of day nothing is sent, and nothing changes.
    pub open spec fn after_send(
        &self,
        text: Seq<char>,
        ts: Option<String>,
        sent: Option<ChatMessage>,
        after: AppState,
    ) -> bool {
        match ts {
            Some(time) => {
                &&& sent matches Some(msg) && msg.from@ == self.own_id@ && msg.text@ == text
                    && msg.ts == time && self.after_push(msg, after)
            },
            None => sent is None && after == *self,
        }
    }

    /// Sends a text: adds it to the messages at once, and gives the message that
    /// goes to the bus. Without a time of day nothing is sent.
    pub fn send(&mut self, text: &str, ts: Option<String>) -> (r: Option<ChatMessage>)
        requires
            old(self).wf(),
        ensures
            final(self).wf(),
            old(self).after_send(text@, ts, r, *final(self)),
    {
        match ChatMessage::stamped(&self.own_id, text, ts) {
            Some(msg) => {
                self.push(msg.clone());
                Some(msg)
            },
            None => None,
        }
    }

    /// The state after a message came from the bus. This node's own messages are
    /// shown when they are sent, and passed over when they arrive.
    pub open spec fn after_message(&self, msg: ChatMessage, after: AppState) -> bool {
        if msg.from@ == self.own_id@ {
            after == *self
        } else {
            self.after_push(msg, after)
        }
    }

    /// Takes a message from the bus.
    pub fn receive(&mut self, msg: ChatMessage)
        requires
            old(self).wf(),
        ensures
            final(self).wf(),
            old(self).after_message(msg, *final(self)),
    {
        if !same_text(&msg.from, &self.own_id) {
            self.push(msg);
        }
    }

    /// What an event does to the state, and what follows it.
    pub open spec fn after_event(
        &self,
        event: AppEvent,
        after: AppState,
        action: KeyAction,
    ) -> bool {
        match event {
            AppEvent::Key { key, control } => {
                &&& self.after_key(key, control, after)
                &&& self.action_of(key, control, action)
            },
            AppEvent::Message(msg) => self.after_message(msg, after) && action is Continue,
            AppEvent::Tick => after == *self && action is Continue,
        }
    }

    /// Takes an event.
    pub fn handle_event(&mut self, event: AppEvent) -> (r: KeyAction)
        requires
            old(self).wf(),
        ensures
            final(self).wf(),
            old(self).after_event(event, *final(self), r),
    {
        match event {
            AppEvent::Key { key, control } => self.handle_key(key, control),
            AppEvent::Message(msg) => {
                self.receive(msg);
                KeyAction::Continue
            },
            AppEvent::Tick => KeyAction::Continue,
        }
    }
}

/// Whether an event ends the chat: escape, `c` with the control key, or the enter
/// key on an input that is a command to end it, with white space around it or
/// without.
pub open spec fn ends_chat(state: AppState, event: AppEvent) -> bool {
    event matches AppEvent::Key { key, control } && (quits(key, control) || (key == Key::Enter
        && quit_command(trimmed(state.input@))))
}

/// One turn of the chat: an event is taken, and where it asks for it, a text is
/// sent with the time of day `ts`. `sent` is the message that goes to the bus.
pub open spec fn turn(before: AppState, event: AppEvent, turned: Turn, after: AppState) -> bool {
    &&& before.after_event(event, turned.taken, turned.action)
    &&& match turned.action {
        KeyAction::Send(text) => turned.taken.after_send(text@, turned.ts, turned.sent, after),
        _ => turned.sent is None && after == turned.taken,
    }
}

/// What happens in one turn of the chat.
pub struct Turn {
    /// The state after the event was taken.
    pub taken: AppState,
    /// What follows the event.
    pub action: KeyAction,
    /// The time of day, where the clock has one.
    pub ts: Option<String>,
    /// The message that goes to the bus.
    pub sent: Option<ChatMessage>,
}

/// A run of the chat: one turn for each event. It goes on as long as no turn ends
/// it.
pub open spec fn chat_run(states: Seq<AppState>, events: Seq<AppEvent>, turns: Seq<Turn>) -> bool {
    &&& states.len() == events.len() + 1
    &&& turns.len() == events.len()
    &&& forall|i: int|
        0 <= i < events.len() ==> turn(states[i], #[trigger] events[i], turns[i], states[i + 1])
    &&& forall|i: int| 0 <= i < turns.len() - 1 ==> !((#[trigger] turns[i]).action is Quit)
}

/// A state that is as it should be stays so when an event is taken.
proof fn lemma_event_keeps_wf(
    before: AppState,
    event: AppEvent,
    after: AppState,
    action: KeyAction,
)
    requires
        before.wf(),
        before.after_event(event, after, action),
    ensures
        after.wf(),
        after.input_limit == before.input_limit,
{
}

/// Every state of a run is as it should be; so the input never exceeds its limit,
/// which stays the same. An event ends the run exactly where it is escape, `c` with
/// the control key, or the enter key on a command to end it: no earlier event of a
/// run is such, and the last one is where the run has ended.
pub proof fn runs_keep_the_limit_and_end_on_command(
    states: Seq<AppState>,
    events: Seq<AppEvent>,
    turns: Seq<Turn>,
)
    requires
        chat_run(states, events, turns),
        states[0].wf(),
    ensures
        forall|i: int|
            0 <= i < states.len() ==> {
                &&& (#[trigger] states[i]).wf()
                &&& states[i].input@.len() <= states[i].input_limit
                &&& states[i].input_limit == states[0].input_limit
            },
        forall|i: int|
            0 <= i < events.len() ==> (ends_chat(states[i], #[trigger] events[i])
                <==> turns[i].action is Quit),
        forall|i: int| 0 <= i < events.len() - 1 ==> !ends_chat(states[i], #[trigger] events[i]),
    decreases events.len(),
{
    if events.len() > 0 {
        let n = events.len() - 1;
        let earlier = states.drop_last();
        assert forall|i: int| 0 <= i < events.drop_last().len() implies turn(
            earlier[i],
            #[trigger] events.drop_last()[i],
            turns.drop_last()[i],
            earlier[i + 1],
        ) by {
            assert(events[i] == events.drop_last()[i]);
        }
        assert forall|i: int| 0 <= i < turns.drop_last().len() - 1 implies !((
        #[trigger] turns.drop_last()[i]).action is Quit) by {
            assert(!(turns[i].action is Quit));
        }
        runs_keep_the_limit_and_end_on_command(earlier, events.drop_last(), turns.drop_last());
        assert(earlier[n] == states[n] && earlier[0] == states[0]);
        assert(turn(states[n], events[n], turns[n], states[n + 1]));
        lemma_event_keeps_wf(states[n], events[n], turns[n].taken, turns[n].action);
        assert(states[n + 1].wf() && states[n + 1].input_limit == states[0].input_limit);
        assert forall|i: int| 0 <= i < states.len() implies {
            &&& (#[trigger] states[i]).wf()
            &&& states[i].input@.len() <= states[i].input_limit
            &&& states[i].input_limit == states[0].input_limit
        } by {
            if i <= n {
                assert(earlier[i] == states[i]);
            }
        }
        assert forall|i: int| 0 <= i < events.len() implies (ends_chat(
            states[i],
            #[trigger] events[i],
        ) <==> turns[i].action is Quit) by {
            assert(turn(states[i], events[i], turns[i], states[i + 1]));
        }
        assert forall|i: int| 0 <= i < events.len() - 1 implies !ends_chat(
            states[i],
            #[trigger] events[i],
        ) by {
            assert(!(turns[i].action is Quit));
        }
    }
}

/// The enter key clears the input. An input of white space alone, or a command to
/// end the chat, sends and shows nothing; any other input is sent, where the clock
/// has a time of day: the messages grow by exactly one, which is from this node,
/// holds the input without the white space around it, and is the one that goes to
/// the bus.
pub proof fn enter_sends_one_message(
    before: AppState,
    control: bool,
    turned: Turn,
    after: AppState,
)
    requires
        turn(before, AppEvent::Key { key: Key::Enter, control }, turned, after),
        turned.ts is Some,
    ensures
        after.input@.len() == 0,
        ({
            let text = trimmed(before.input@);
            if text.len() == 0 || quit_command(text) {
                &&& after.messages == before.messages
                &&& turned.sent is None
                &&& turned.action is Quit <==> quit_command(text)
            } else {
                &&& turned.sent matches Some(msg) && msg.from@ == before.own_id@ && msg.text@
                    == text && Some(msg.ts) == turned.ts && after.messages@
                    == before.messages@.push(msg)
                &&& after.topic == before.topic
                &&& !(turned.action is Quit)
            }
        }),
{
    reveal_strlit("/quit");
    reveal_strlit("/q");
}

/// A message goes to the bus only on the enter key: nothing else sends.
pub proof fn only_enter_sends(before: AppState, event: AppEvent, turned: Turn, after: AppState)
    requires
        turn(before, event, turned, after),
        turned.sent is Some,
    ensures
        event matches AppEvent::Key { key, .. } && key == Key::Enter,
{
}

/// Escape, and `c` with the control key, change nothing: no `c` is typed.
pub proof fn quitting_keys_change_nothing(
    before: AppState,
    key: Key,
    control: bool,
    after: AppState,
    action: KeyAction,
)
    requires
        quits(key, control),
        before.after_event(AppEvent::Key { key, control }, after, action),
    ensures
        after == before,
        action is Quit,
{
}

/// Scrolling up and down again by as much ends at the same message, unless the
/// first message stopped it.
pub proof fn scrolling_back(state: AppState, delta: int)
    requires
        state.wf(),
        state.messages.len() > 0,
        0 <= delta <= state.position(),
    ensures
        ({
            let up = state.moved_to(state.position() - delta);
            up.moved_to(up.position() + delta).selected == state.selected
        }),
{
}

/// The view follows the tail exactly after it was scrolled to the last message.
pub proof fn following_means_bottom(state: AppState, index: int)
    requires
        state.messages.len() > 0,
    ensures
        state.moved_to(index).follow_tail <==> state.moved_to(index).position()
            == state.messages.len() - 1,
        state.at_bottom().follow_tail,
        state.at_bottom().position() == state.messages.len() - 1,
{
}

} // verus!
