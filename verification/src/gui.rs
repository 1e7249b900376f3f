//! The state behind the window of the program: a counter.

use vstd::prelude::*;

verus! {

/// The title of the window.
pub const TITLE: &'static str = "A cool application";

/// What the buttons of the window ask for.
#[derive(Debug, Copy, Clone, PartialEq, Eq, Structural)]
pub enum Message {
    Increment,
    Decrement,
}

/// The number that the window shows.
#[derive(Debug, Copy, Clone, PartialEq, Eq, Structural)]
pub struct Counter {
    pub value: i64,
}

impl Counter {
    /// The number after a message.
    pub open spec fn after(self, message: Message) -> int {
        match message {
            Message::Increment => self.value + 1,
            Message::Decrement => self.value - 1,
        }
    }

    /// A counter at zero.
    pub fn new() -> (counter: Counter)
        ensures
            counter.value == 0,
    {
        Counter { value: 0 }
    }

    /// Counts up or down by one. The number must stay one that can be
    /// held.
    pub fn update(&mut self, message: Message)
        requires
            i64::MIN <= old(self).after(message) <= i64::MAX,
        ensures
            final(self).value == old(self).after(message),
    {
        match message {
            Message::Increment => {
                self.value = self.value + 1;
            },
            Message::Decrement => {
                self.value = self.value - 1;
            },
        }
    }
}

} // verus!
