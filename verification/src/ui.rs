//! The messages that peers write to one another, as the table keeps them.

use crate::networking::PeerId;
use crate::sequences::{lemma_views_push, views};
use std::collections::VecDeque;
use vstd::prelude::*;

verus! {

/// A line for the log of the table.
#[derive(Clone, Debug, PartialEq, Eq)]
pub struct InsertLog {
    text: String,
}

impl View for InsertLog {
    type V = Seq<char>;

    closed spec fn view(&self) -> Seq<char> {
        self.text@
    }
}

impl InsertLog {
    /// A line with the given text.
    pub fn new(text: String) -> (line: InsertLog)
        ensures
            line@ == text@,
    {
        InsertLog { text }
    }

    /// The text of the line.
    pub fn text(&self) -> (text: &String)
        ensures
            text@ == self@,
    {
        &self.text
    }
}

/// A message that a peer wrote, or the result of a roll.
#[derive(Clone, Debug, PartialEq, Eq)]
pub struct RecieveMessage {
    pub text: String,
    pub from: PeerId,
    pub roll: bool,
}

/// The value of a `RecieveMessage`, as contracts speak of it.
pub struct RecieveMessageView {
    pub text: Seq<char>,
    pub from: PeerId,
    pub roll: bool,
}

impl View for RecieveMessage {
    type V = RecieveMessageView;

    open spec fn view(&self) -> RecieveMessageView {
        RecieveMessageView { text: self.text@, from: self.from, roll: self.roll }
    }
}

/// How many messages the table keeps.
pub const MESSAGES_KEPT: usize = 20;

/// The messages that the table shows, oldest first.
pub struct TextMessages {
    messages: VecDeque<RecieveMessage>,
}

impl View for TextMessages {
    type V = Seq<RecieveMessageView>;

    closed spec fn view(&self) -> Seq<RecieveMessageView> {
        views(self.messages@)
    }
}

/// The last `MESSAGES_KEPT` of `messages`, or all of them if they are fewer.
pub open spec fn latest(messages: Seq<RecieveMessageView>) -> Seq<RecieveMessageView> {
    if messages.len() > MESSAGES_KEPT {
        messages.skip(messages.len() - MESSAGES_KEPT)
    } else {
        messages
    }
}

impl TextMessages {
    /// A table that keeps no message yet.
    pub fn new() -> (log: TextMessages)
        ensures
            log@ == Seq::<RecieveMessageView>::empty(),
    {
        let log = TextMessages { messages: VecDeque::new() };
        log
    }

    /// How many messages are kept.
    pub fn len(&self) -> (len: usize)
        ensures
            len == self@.len(),
    {
        self.messages.len()
    }

    /// The message at `index`, counted from the oldest.
    pub fn get(&self, index: usize) -> (message: Option<&RecieveMessage>)
        ensures
            match message {
                Some(message) => index < self@.len() && message@ == self@[index as int],
                None => index >= self@.len(),
            },
    {
        if index < self.messages.len() {
            Some(&self.messages[index])
        } else {
            None
        }
    }
}

/// Puts the messages that came behind those that the table keeps, and drops
/// the oldest until no more than `MESSAGES_KEPT` are left.
pub fn update_messages(events: &Vec<RecieveMessage>, log: &mut TextMessages)
    ensures
        final(log)@ == latest(old(log)@ + views(events@)),
{
    let ghost all = old(log)@ + views(events@);
    let mut i: usize = 0;
    while i < events.len()
        invariant
            i <= events.len(),
            log@ == old(log)@ + views(events@.take(i as int)),
        decreases events.len() - i,
    {
        let event = &events[i];
        let ghost kept = log.messages@;
        let message = RecieveMessage {
            text: event.text.clone(),
            from: event.from,
            roll: event.roll,
        };
        log.messages.push_back(message);
        i = i + 1;
        proof {
            lemma_views_push(kept, message);
        }
    }
    while log.messages.len() > MESSAGES_KEPT
        invariant
            log@.len() <= all.len(),
            log@ == all.skip(all.len() - log@.len()),
            all.len() > MESSAGES_KEPT ==> log@.len() >= MESSAGES_KEPT,
            all.len() <= MESSAGES_KEPT ==> log@.len() == all.len(),
        decreases log.messages.len(),
    {
        let ghost kept = log@;
        log.messages.pop_front();
        assert(log@ =~= kept.skip(1));
    }
}

} // verus!
