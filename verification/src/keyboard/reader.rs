use vstd::prelude::*;

use crate::keyboard::error::KeyboardError;
use crate::keyboard::event::decode_events;
use crate::keyboard::event::decoded_all;
use crate::keyboard::event::law_decoding_distributes;
use crate::keyboard::event::RawEvent;
use crate::keyboard::keys::Key;
use crate::keyboard::state::bits_after_events;
use crate::keyboard::state::KeyEvent;
use crate::keyboard::writer::catalog_codes;
use crate::keyboard::writer::VIRTUAL_DEVICE_NAME;
use crate::text::chars_of;
use crate::text::same_text;

verus! {

/// The key that a device must support to count as a keyboard.
pub open spec fn reference_key() -> Key {
    Key::Enter
}

/// An input device as enumeration finds it: its name (empty if it has
/// none) and the codes of the keys that it says it supports.
#[derive(Debug)]
pub struct InputDevice {
    pub name: String,
    pub keys: Vec<u16>,
}

impl InputDevice {
    /// Whether the device is a virtual keyboard of this library's making.
    pub open spec fn is_virtual(self) -> bool {
        self.name@ == VIRTUAL_DEVICE_NAME@
    }

    /// Whether the device says that it supports the reference key.
    pub open spec fn has_reference_key(self) -> bool {
        self.keys@.contains(reference_key().os_code())
    }
}

/// Whether a device is one to listen on: it supports the reference key
/// and is no virtual keyboard of this library's making. Without the
/// second condition a listener would hear the keystrokes that an emulator
/// plays.
pub open spec fn is_keyboard(device: InputDevice) -> bool {
    device.has_reference_key() && !device.is_virtual()
}

/// The positions of the keyboards among the enumerated devices, ascending.
/// A device's place in this sequence is its token.
pub open spec fn keyboards(devices: Seq<InputDevice>) -> Seq<usize>
    decreases devices.len(),
{
    if devices.len() == 0 {
        Seq::empty()
    } else if is_keyboard(devices.last()) {
        keyboards(devices.drop_last()).push((devices.len() - 1) as usize)
    } else {
        keyboards(devices.drop_last())
    }
}

/// Whether a device is one to listen on (see `is_keyboard`).
pub fn looks_like_keyboard(device: &InputDevice) -> (found: bool)
    ensures
        found == is_keyboard(*device),
{
    let name = chars_of(device.name.as_str());
    if same_text(name.as_slice(), VIRTUAL_DEVICE_NAME) {
        return false;
    }
    let reference: u16 = Key::Enter.to_os_code();
    let mut i: usize = 0;
    while i < device.keys.len()
        invariant
            i <= device.keys.len(),
            !device.is_virtual(),
            reference == reference_key().os_code(),
            forall|j: int| 0 <= j < i ==> device.keys@[j] != reference,
        decreases device.keys.len() - i,
    {
        if device.keys[i] == reference {
            return true;
        }
        i = i + 1;
    }
    false
}

/// What one device delivered in a round of waiting: the token it was
/// registered under and its pending raw events, oldest first.
#[derive(Debug)]
pub struct ReadyDevice {
    pub token: usize,
    pub events: Vec<RawEvent>,
}

/// The raw events of a round that come from registered devices, in the
/// round's order. What comes under a token that was never given out is
/// left out.
pub open spec fn round_raw_events(tokens: nat, round: Seq<ReadyDevice>) -> Seq<RawEvent>
    decreases round.len(),
{
    if round.len() == 0 {
        Seq::empty()
    } else if round.last().token < tokens {
        round_raw_events(tokens, round.drop_last()) + round.last().events@
    } else {
        round_raw_events(tokens, round.drop_last())
    }
}

/// The key events of a round: what its raw events from registered devices
/// decode to.
pub open spec fn round_events(tokens: nat, round: Seq<ReadyDevice>) -> Seq<KeyEvent> {
    decoded_all(round_raw_events(tokens, round))
}

/// The devices that a listener reads: the keyboards among the devices that
/// were enumerated, each under its token. The set is fixed at construction
/// and never empty.
#[derive(Debug)]
pub struct KeyboardReader {
    devices: Vec<usize>,
}

impl View for KeyboardReader {
    type V = Seq<usize>;

    /// For each token the position of its device in the enumeration.
    closed spec fn view(&self) -> Seq<usize> {
        self.devices@
    }
}

impl KeyboardReader {
    /// A reader always has a device.
    #[verifier::type_invariant]
    pub closed spec fn wf(self) -> bool {
        self.devices@.len() > 0
    }

    /// Chooses the devices to read among the enumerated ones. The
    /// keyboards among them are kept and get the tokens 0, 1, 2, .. in the
    /// order of enumeration. Without a keyboard there is nothing to listen
    /// on.
    pub fn new(devices: &Vec<InputDevice>) -> (result: Result<KeyboardReader, KeyboardError>)
        ensures
            match result {
                Ok(reader) => reader@ == keyboards(devices@) && reader@.len() > 0,
                Err(KeyboardError::KeyboardNotFound) => keyboards(devices@).len() == 0,
                Err(_) => false,
            },
    {
        let mut kept: Vec<usize> = Vec::new();
        let mut i: usize = 0;
        while i < devices.len()
            invariant
                i <= devices.len(),
                kept@ == keyboards(devices@.take(i as int)),
            decreases devices.len() - i,
        {
            assert(devices@.take(i + 1).drop_last() =~= devices@.take(i as int));
            if looks_like_keyboard(&devices[i]) {
                kept.push(i);
            }
            i = i + 1;
        }
        assert(devices@.take(devices.len() as int) =~= devices@);
        if kept.len() == 0 {
            Err(KeyboardError::KeyboardNotFound)
        } else {
            Ok(KeyboardReader { devices: kept })
        }
    }

    /// How many devices are read; the tokens are the numbers below it.
    pub fn device_count(&self) -> (count: usize)
        ensures
            count == self@.len(),
            count > 0,
    {
        proof {
            use_type_invariant(self);
        }
        self.devices.len()
    }

    /// The position in the enumeration of the device registered under a
    /// token; `None` for a token that was never given out.
    pub fn device(&self, token: usize) -> (position: Option<usize>)
        ensures
            position == if token < self@.len() {
                Some(self@[token as int])
            } else {
                None
            },
    {
        if token < self.devices.len() {
            Some(self.devices[token])
        } else {
            None
        }
    }

    /// Decodes what one round of waiting delivered. Raw events that cannot
    /// be decoded are dropped, and so is what arrived under an unknown
    /// token. `None` says that the round held no key event and the caller
    /// has to wait again; an empty batch is never returned.
    pub fn read(&self, round: &Vec<ReadyDevice>) -> (batch: Option<Vec<KeyEvent>>)
        ensures
            match batch {
                Some(events) => events@ == round_events(self@.len(), round@) && events@.len() > 0,
                None => round_events(self@.len(), round@).len() == 0,
            },
    {
        let tokens = self.devices.len();
        let mut key_events: Vec<KeyEvent> = Vec::new();
        let mut i: usize = 0;
        while i < round.len()
            invariant
                i <= round.len(),
                tokens == self@.len(),
                key_events@ == round_events(tokens as nat, round@.take(i as int)),
            decreases round.len() - i,
        {
            assert(round@.take(i + 1).drop_last() =~= round@.take(i as int));
            if round[i].token < tokens {
                let mut decoded = decode_events(round[i].events.as_slice());
                proof {
                    law_decoding_distributes(
                        round_raw_events(tokens as nat, round@.take(i as int)),
                        round@[i as int].events@,
                    );
                }
                key_events.append(&mut decoded);
            }
            i = i + 1;
        }
        assert(round@.take(round.len() as int) =~= round@);
        if key_events.len() == 0 {
            None
        } else {
            Some(key_events)
        }
    }
}

/// A device is read exactly if it is a keyboard: one that lacks the
/// reference key is in no reader's set, and every keyboard is in it, once,
/// under the token that its place among the keyboards gives.
pub proof fn law_only_keyboards_are_read(devices: Seq<InputDevice>, position: usize)
    requires
        devices.len() <= usize::MAX,
    ensures
        keyboards(devices).contains(position) <==> (position < devices.len() && is_keyboard(
            devices[position as int],
        )),
        forall|s: int, t: int|
            0 <= s < t < keyboards(devices).len() ==> keyboards(devices)[s] < keyboards(devices)[t],
        forall|t: int|
            0 <= t < keyboards(devices).len() ==> (#[trigger] keyboards(devices)[t]) < devices.len(),
    decreases devices.len(),
{
    if devices.len() == 0 {
        assert(!keyboards(devices).contains(position));
    } else {
        let front = devices.drop_last();
        let last = (devices.len() - 1) as usize;
        law_only_keyboards_are_read(front, position);
        let kept = keyboards(front);
        if is_keyboard(devices.last()) {
            assert(keyboards(devices) == kept.push(last));
            assert(keyboards(devices)[kept.len() as int] == last);
            if kept.contains(position) {
                let t = choose|t: int| 0 <= t < kept.len() && kept[t] == position;
                assert(keyboards(devices)[t] == position);
            }
            if keyboards(devices).contains(position) && position != last {
                let t = choose|t: int|
                    0 <= t < keyboards(devices).len() && keyboards(devices)[t] == position;
                assert(kept[t] == position);
            }
        }
        if position < front.len() {
            assert(devices[position as int] == front[position as int]);
        }
    }
}

/// A listener never reads the virtual keyboard of an emulator, although
/// that keyboard supports the reference key like every key of the
/// catalog.
pub proof fn law_virtual_keyboard_is_not_read(devices: Seq<InputDevice>, position: usize)
    requires
        devices.len() <= usize::MAX,
        position < devices.len(),
        devices[position as int].name@ == VIRTUAL_DEVICE_NAME@,
    ensures
        !keyboards(devices).contains(position),
        catalog_codes().contains(reference_key().os_code()),
{
    law_only_keyboards_are_read(devices, position);
    crate::keyboard::keys::lemma_ordinal_roundtrip(reference_key());
    assert(catalog_codes()[reference_key().ordinal() as int] == reference_key().os_code());
}

/// The events of a round, and the state they lead to, depend on the raw
/// events alone and not on the devices that delivered them: rounds whose
/// registered devices delivered the same raw events in the same order give
/// the same key events and the same state.
pub proof fn law_round_is_source_agnostic(
    tokens: nat,
    first: Seq<ReadyDevice>,
    second: Seq<ReadyDevice>,
    bits: u128,
)
    requires
        round_raw_events(tokens, first) == round_raw_events(tokens, second),
    ensures
        round_events(tokens, first) == round_events(tokens, second),
        bits_after_events(bits, round_events(tokens, first)) == bits_after_events(
            bits,
            round_events(tokens, second),
        ),
{
}

} // verus!
