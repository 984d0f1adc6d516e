//! The simple message board: what is typed goes to the topic, what arrives is
//! listed.

use vstd::prelude::*;
use vstd::utf8::{decode_utf8, valid_utf8};

use crate::chat::Key;
use crate::config::texts;
use crate::text::joined;

verus! {

/// The topic of the board.
pub const TOPIC: &'static str = "chat";

/// The title of the input.
pub const INPUT_TITLE: &'static str = " Your Message (Enter: Send, Esc: Quit) ";

/// The state of the board.
#[derive(Debug)]
pub struct AppState {
    pub messages: Vec<String>,
    pub input: String,
    pub topic: String,
}

/// What follows a key.
#[derive(Debug)]
pub enum KeyAction {
    /// Nothing more.
    Continue,
    /// The board closes.
    Quit,
    /// This text is published.
    Publish(String),
}

/// `String::from_utf8` takes exactly the bytes that are valid UTF-8, and gives the
/// text that they encode.
#[verifier::external_body]
fn text_of(bytes: Vec<u8>) -> (r: Option<String>)
    ensures
        r is Some <==> valid_utf8(bytes@),
        r matches Some(text) ==> text@ == decode_utf8(bytes@),
{
    String::from_utf8(bytes).ok()
}

/// The input of the board after a key.
pub open spec fn input_after(input: Seq<char>, key: Key) -> Seq<char> {
    match key {
        Key::Char(c) => input.push(c),
        Key::Backspace => if input.len() == 0 {
            input
        } else {
            input.drop_last()
        },
        Key::Enter => Seq::empty(),
        _ => input,
    }
}

/// Whether an action follows a key, where this was typed.
pub open spec fn action_after(input: Seq<char>, key: Key, action: KeyAction) -> bool {
    match key {
        Key::Esc => action is Quit,
        Key::Enter => if input.len() == 0 {
            action is Continue
        } else {
            action matches KeyAction::Publish(text) && text@ == input
        },
        _ => action is Continue,
    }
}

/// The texts of the messages after a sample arrived: one more where its bytes are a
/// text.
pub open spec fn listed_after(messages: Seq<Seq<char>>, bytes: Seq<u8>) -> Seq<Seq<char>> {
    if valid_utf8(bytes) {
        messages.push(decode_utf8(bytes))
    } else {
        messages
    }
}

impl AppState {
    /// A board without messages.
    pub fn new(topic: String) -> (r: AppState)
        ensures
            r.messages.len() == 0,
            r.input@.len() == 0,
            r.topic == topic,
    {
        AppState { messages: Vec::new(), input: String::new(), topic }
    }

    /// Takes a key: a character is typed, backspace takes the last one back, enter
    /// publishes what was typed unless that is nothing, and escape closes the
    /// board.
    pub fn handle_key(&mut self, key: Key) -> (r: KeyAction)
        ensures
            final(self).messages == old(self).messages,
            final(self).topic == old(self).topic,
            final(self).input@ == match key {
                Key::Char(c) => old(self).input@.push(c),
                Key::Backspace => if old(self).input@.len() == 0 {
                    old(self).input@
                } else {
                    old(self).input@.drop_last()
                },
                Key::Enter => Seq::empty(),
                _ => old(self).input@,
            },
            match r {
                KeyAction::Quit => key == Key::Esc,
                KeyAction::Publish(text) => key == Key::Enter && old(self).input@.len() > 0
                    && text@ == old(self).input@,
                KeyAction::Continue => key != Key::Esc && !(key == Key::Enter && old(
                    self,
                ).input@.len() > 0),
            },
            final(self).input@ == input_after(old(self).input@, key),
            action_after(old(self).input@, key, r),
    {
        match key {
            Key::Char(c) => {
                self.input.push(c);
                KeyAction::Continue
            },
            Key::Backspace => {
                let _ = self.input.pop();
                KeyAction::Continue
            },
            Key::Enter => {
                let msg = self.input.clone();
                self.input = String::new();
                if msg.as_str().is_empty() {
                    KeyAction::Continue
                } else {
                    KeyAction::Publish(msg)
                }
            },
            Key::Esc => KeyAction::Quit,
            _ => KeyAction::Continue,
        }
    }

    /// Takes the bytes of a sample: a text is listed, anything else is passed over.
    pub fn arrived(&mut self, bytes: Vec<u8>)
        ensures
            final(self).input == old(self).input,
            final(self).topic == old(self).topic,
            valid_utf8(bytes@) ==> {
                &&& final(self).messages.len() == old(self).messages.len() + 1
                &&& final(self).messages@.drop_last() == old(self).messages@
                &&& final(self).messages@.last()@ == decode_utf8(bytes@)
            },
            !valid_utf8(bytes@) ==> final(self).messages@ == old(self).messages@,
            texts(final(self).messages@) == listed_after(texts(old(self).messages@), bytes@),
    {
        if let Some(msg) = text_of(bytes) {
            self.receive(msg);
            assert(self.messages@.drop_last() =~= old(self).messages@);
            assert(texts(self.messages@) =~= texts(old(self).messages@).push(msg@));
        }
    }

    /// Lists a message that arrived.
    pub fn receive(&mut self, msg: String)
        ensures
            final(self).messages@ == old(self).messages@.push(msg),
            final(self).input == old(self).input,
            final(self).topic == old(self).topic,
    {
        self.messages.push(msg);
    }

    /// The title of the messages.
    pub fn title(&self) -> (r: String)
        ensures
            r@ == " Received Messages on topic '"@ + self.topic@ + "' "@,
    {
        let mut r = joined(" Received Messages on topic '", &self.topic);
        r.append("' ");
        r
    }

    /// The messages as they are listed, in their order.
    pub fn lines(&self) -> (r: Vec<String>)
        ensures
            r.len() == self.messages.len(),
            forall|i: int|
                0 <= i < r.len() ==> (#[trigger] r@[i])@ == ">>> "@ + self.messages@[i]@,
    {
        let mut r: Vec<String> = Vec::new();
        let mut i: usize = 0;
        while i < self.messages.len()
            invariant
                i <= self.messages.len(),
                r.len() == i,
                forall|k: int|
                    0 <= k < r.len() ==> (#[trigger] r@[k])@ == ">>> "@ + self.messages@[k]@,
            decreases self.messages.len() - i,
        {
            r.push(joined(">>> ", &self.messages[i]));
            i += 1;
        }
        r
    }
}

} // verus!
