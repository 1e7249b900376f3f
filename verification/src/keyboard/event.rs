use vstd::prelude::*;

use crate::keyboard::error::KeyboardError;
use crate::keyboard::keys::Key;
use crate::keyboard::state::KeyEvent;
use crate::keyboard::state::KeyPosition;
use crate::text::decimal;
use crate::text::decimal_text;
use crate::text::signed_decimal;
use crate::text::signed_decimal_text;

verus! {

/// The kind of raw event that reports a key.
pub const EVENT_KIND_KEY: u16 = 1;

/// An event as the operating system's input layer delivers and accepts it.
///
/// For a key event the code is the key's code and the value is 0 for a
/// release, 1 for a press and 2 for a repeat.
#[derive(Debug, Copy, Clone, PartialEq, Eq, Structural, Hash)]
pub struct RawEvent {
    pub kind: u16,
    pub code: u16,
    pub value: i32,
}

/// The text by which the `evdev` crate describes the kind of an event with
/// the given type and code: the `Debug` form of what `InputEvent::kind`
/// returns.
pub uninterp spec fn event_kind_text(kind: u16, code: u16) -> Seq<char>;

/// Calls `evdev::InputEvent::new` and `InputEvent::kind`, and formats the
/// kind with its `Debug` impl. The kind is chosen by the event's type and
/// wraps the code; formatting it reads nothing else, so the text is a
/// function of the two numbers.
#[verifier::external_body]
fn describe_event_kind(kind: u16, code: u16) -> (text: String)
    ensures
        text@ == event_kind_text(kind, code),
{
    format!("{:?}", evdev::InputEvent::new(evdev::EventType(kind), code, 0).kind())
}

impl KeyPosition {
    /// The value of a raw key event for this position.
    pub open spec fn value(self) -> i32 {
        match self {
            KeyPosition::Release => 0,
            KeyPosition::Press => 1,
        }
    }

    /// The position that a raw value stands for, if any.
    pub open spec fn with_value(value: i32) -> Option<KeyPosition> {
        if value == 0 {
            Some(KeyPosition::Release)
        } else if value == 1 {
            Some(KeyPosition::Press)
        } else {
            None
        }
    }

    /// The value of a raw key event for this position: 0 for a release, 1
    /// for a press.
    pub fn to_value(self) -> (value: i32)
        ensures
            value == self.value(),
            KeyPosition::with_value(value) == Some(self),
    {
        match self {
            KeyPosition::Release => 0,
            KeyPosition::Press => 1,
        }
    }

    /// The position for the value of a raw key event. Any value but 0 and 1
    /// is rejected, a repeat (2) too.
    pub fn from_value(value: i32) -> (result: Result<KeyPosition, KeyboardError>)
        ensures
            match result {
                Ok(position) => KeyPosition::with_value(value) == Some(position),
                Err(KeyboardError::KeyPositionNotSupported(text)) => {
                    &&& KeyPosition::with_value(value) is None
                    &&& text@ == signed_decimal(value as int)
                },
                Err(_) => false,
            },
    {
        if value == 0 {
            Ok(KeyPosition::Release)
        } else if value == 1 {
            Ok(KeyPosition::Press)
        } else {
            Err(KeyboardError::KeyPositionNotSupported(signed_decimal_text(value as i64)))
        }
    }
}

impl Key {
    /// The key for a code of the operating system. A code that no key of the
    /// catalog has is rejected; it is never taken for another key.
    pub fn from_os_code(code: u16) -> (result: Result<Key, KeyboardError>)
        ensures
            match result {
                Ok(key) => Key::with_code(code) == Some(key) && key.os_code() == code,
                Err(KeyboardError::KeyNotSupported(text)) => {
                    &&& Key::with_code(code) is None
                    &&& forall|key: Key| key.os_code() != code
                    &&& text@ == decimal(code as nat)
                },
                Err(_) => false,
            },
    {
        proof {
            crate::keyboard::keys::law_codes_are_a_bijection(Key::A, Key::A, code);
        }
        match Key::lookup_os_code(code) {
            Some(key) => Ok(key),
            None => Err(KeyboardError::KeyNotSupported(decimal_text(code as u64))),
        }
    }
}

/// What a raw event decodes to: a key event, if it is of the key kind, its
/// code belongs to a key of the catalog and its value is a press or a
/// release.
pub open spec fn decoded(raw: RawEvent) -> Option<KeyEvent> {
    if raw.kind != EVENT_KIND_KEY {
        None
    } else {
        match (Key::with_code(raw.code), KeyPosition::with_value(raw.value)) {
            (Some(key), Some(position)) => Some(KeyEvent { key, position }),
            _ => None,
        }
    }
}

/// The key events that a batch of raw events decodes to: those of the raw
/// events that can be decoded, in their order.
pub open spec fn decoded_all(raw: Seq<RawEvent>) -> Seq<KeyEvent>
    decreases raw.len(),
{
    if raw.len() == 0 {
        Seq::empty()
    } else {
        match decoded(raw.last()) {
            Some(event) => decoded_all(raw.drop_last()).push(event),
            None => decoded_all(raw.drop_last()),
        }
    }
}

impl KeyEvent {
    /// The raw event that reports this key event.
    pub open spec fn raw(self) -> RawEvent {
        RawEvent { kind: EVENT_KIND_KEY, code: self.key.os_code(), value: self.position.value() }
    }

    /// The raw event to emit for this key event.
    pub fn to_raw(self) -> (raw: RawEvent)
        ensures
            raw == self.raw(),
            decoded(raw) == Some(self),
    {
        proof {
            crate::keyboard::keys::lemma_code_roundtrip(self.key);
        }
        RawEvent {
            kind: EVENT_KIND_KEY,
            code: self.key.to_os_code(),
            value: self.position.to_value(),
        }
    }

    /// Decodes a raw event. The kind is looked at first, then the code, then
    /// the value; the first that is not supported is reported.
    pub fn from_raw(raw: RawEvent) -> (result: Result<KeyEvent, KeyboardError>)
        ensures
            match result {
                Ok(event) => decoded(raw) == Some(event),
                Err(KeyboardError::InputEventKindNotSupported(text)) => {
                    &&& raw.kind != EVENT_KIND_KEY
                    &&& text@ == event_kind_text(raw.kind, raw.code)
                },
                Err(KeyboardError::KeyNotSupported(text)) => {
                    &&& raw.kind == EVENT_KIND_KEY
                    &&& Key::with_code(raw.code) is None
                    &&& text@ == decimal(raw.code as nat)
                },
                Err(KeyboardError::KeyPositionNotSupported(text)) => {
                    &&& raw.kind == EVENT_KIND_KEY
                    &&& Key::with_code(raw.code) is Some
                    &&& KeyPosition::with_value(raw.value) is None
                    &&& text@ == signed_decimal(raw.value as int)
                },
                Err(_) => false,
            },
    {
        if raw.kind != EVENT_KIND_KEY {
            return Err(
                KeyboardError::InputEventKindNotSupported(describe_event_kind(raw.kind, raw.code)),
            );
        }
        let key = match Key::from_os_code(raw.code) {
            Ok(key) => key,
            Err(error) => {
                return Err(error);
            },
        };
        let position = match KeyPosition::from_value(raw.value) {
            Ok(position) => position,
            Err(error) => {
                return Err(error);
            },
        };
        Ok(KeyEvent { key, position })
    }
}

/// Decodes a batch of raw events. An event that cannot be decoded is left
/// out; those after it are decoded all the same.
pub fn decode_events(raw: &[RawEvent]) -> (events: Vec<KeyEvent>)
    ensures
        events@ == decoded_all(raw@),
{
    let mut events: Vec<KeyEvent> = Vec::new();
    let mut i: usize = 0;
    while i < raw.len()
        invariant
            i <= raw.len(),
            events@ == decoded_all(raw@.take(i as int)),
        decreases raw.len() - i,
    {
        assert(raw@.take(i + 1).drop_last() =~= raw@.take(i as int));
        match KeyEvent::from_raw(raw[i]) {
            Ok(event) => {
                events.push(event);
            },
            Err(_) => {},
        }
        i = i + 1;
    }
    assert(raw@.take(raw.len() as int) =~= raw@);
    events
}

/// Decoding a batch piece by piece gives what decoding it whole gives.
pub proof fn law_decoding_distributes(first: Seq<RawEvent>, second: Seq<RawEvent>)
    ensures
        decoded_all(first + second) == decoded_all(first) + decoded_all(second),
    decreases second.len(),
{
    if second.len() == 0 {
        assert(first + second =~= first);
        assert(decoded_all(first) + decoded_all(second) =~= decoded_all(first));
    } else {
        law_decoding_distributes(first, second.drop_last());
        assert((first + second).drop_last() =~= first + second.drop_last());
        assert((first + second).last() == second.last());
        match decoded(second.last()) {
            Some(event) => {
                assert(decoded_all(first + second) =~= decoded_all(first) + decoded_all(second));
            },
            None => {},
        }
    }
}

/// A raw event that cannot be decoded does not stand in the way of those
/// around it: the batch decodes to what it decodes to without that event.
pub proof fn law_undecodable_event_is_skipped(
    before: Seq<RawEvent>,
    bad: RawEvent,
    after: Seq<RawEvent>,
)
    requires
        decoded(bad) is None,
    ensures
        decoded_all(before.push(bad) + after) == decoded_all(before) + decoded_all(after),
        decoded_all(before.push(bad) + after) == decoded_all(before + after),
{
    law_decoding_distributes(before.push(bad), after);
    law_decoding_distributes(before, after);
    assert(before.push(bad).drop_last() =~= before);
}

/// Every event that comes out of a batch stands in it as a raw event that
/// decodes to it, and the events keep the order of the raw ones.
pub proof fn law_decoded_events_come_from_batch(raw: Seq<RawEvent>, at: int)
    requires
        0 <= at < decoded_all(raw).len(),
    ensures
        exists|i: int| 0 <= i < raw.len() && decoded(raw[i]) == Some(#[trigger] decoded_all(raw)[at]),
        decoded_all(raw).len() <= raw.len(),
    decreases raw.len(),
{
    lemma_decoded_length(raw);
    if raw.len() > 0 {
        let front = raw.drop_last();
        lemma_decoded_length(front);
        if at < decoded_all(front).len() {
            law_decoded_events_come_from_batch(front, at);
            let i = choose|i: int| 0 <= i < front.len() && decoded(front[i]) == Some(decoded_all(front)[at]);
            assert(raw[i] == front[i]);
            assert(decoded(raw[i]) == Some(decoded_all(raw)[at]));
        } else {
            let i = raw.len() - 1;
            assert(decoded(raw[i]) == Some(decoded_all(raw)[at]));
        }
    }
}

proof fn lemma_decoded_length(raw: Seq<RawEvent>)
    ensures
        decoded_all(raw).len() <= raw.len(),
    decreases raw.len(),
{
    if raw.len() > 0 {
        lemma_decoded_length(raw.drop_last());
    }
}

} // verus!
