use vstd::prelude::*;

use crate::keyboard::event::decoded;
use crate::keyboard::event::decoded_all;
use crate::keyboard::event::RawEvent;
use crate::keyboard::keys::lemma_at_ordinal;
use crate::keyboard::keys::lemma_ordinal_roundtrip;
use crate::keyboard::keys::Key;
use crate::keyboard::keys::KEY_COUNT;
use crate::keyboard::state::presses;
use crate::keyboard::state::releases;
use crate::keyboard::state::KeyEvent;
use crate::keyboard::state::KeyPosition;

verus! {

/// The name under which the virtual keyboard shows up.
pub const VIRTUAL_DEVICE_NAME: &'static str = "dhe_keyboard";

/// The bus that the virtual keyboard claims to sit on (USB).
pub const VIRTUAL_DEVICE_BUS: u16 = 3;

/// The vendor id of the virtual keyboard.
pub const VIRTUAL_DEVICE_VENDOR: u16 = 1;

/// The product id of the virtual keyboard.
pub const VIRTUAL_DEVICE_PRODUCT: u16 = 1;

/// The version of the virtual keyboard.
pub const VIRTUAL_DEVICE_VERSION: u16 = 1;

/// The codes of all keys of the catalog, by ordinal.
pub open spec fn catalog_codes() -> Seq<u16> {
    Seq::new(KEY_COUNT as nat, |n: int| Key::at(n as u32).unwrap().os_code())
}

/// The raw events that report the given key events, one for one.
pub open spec fn raw_events(events: Seq<KeyEvent>) -> Seq<RawEvent> {
    Seq::new(events.len(), |i: int| events[i].raw())
}

/// The virtual keyboard: which keys it announces to the operating system,
/// and the batches of raw events that press and release keys on it.
///
/// A batch is handed to the operating system in one piece; its events count
/// as simultaneous.
#[derive(Debug)]
pub struct KeyboardWriter {
    keys: Vec<u16>,
}

impl KeyboardWriter {
    /// The key codes that the device announces.
    pub closed spec fn advertised(self) -> Seq<u16> {
        self.keys@
    }

    /// Every key of the catalog is announced, and nothing else.
    #[verifier::type_invariant]
    pub closed spec fn wf(self) -> bool {
        self.keys@ == catalog_codes()
    }

    /// A virtual keyboard that supports every key of the catalog.
    pub fn new() -> (writer: KeyboardWriter)
        ensures
            writer.advertised() == catalog_codes(),
    {
        let mut keys: Vec<u16> = Vec::new();
        let mut n: u32 = 0;
        while n < KEY_COUNT
            invariant
                n <= KEY_COUNT,
                keys@.len() == n,
                forall|i: int| 0 <= i < n ==> keys@[i] == Key::at(i as u32).unwrap().os_code(),
            decreases KEY_COUNT - n,
        {
            proof {
                lemma_at_ordinal(n);
            }
            match Key::from_number(n) {
                Some(key) => {
                    keys.push(key.to_os_code());
                },
                None => {},
            }
            n = n + 1;
        }
        assert(keys@ =~= catalog_codes());
        KeyboardWriter { keys }
    }

    /// The key codes to announce when the device is created.
    pub fn advertised_keys(&self) -> (codes: &Vec<u16>)
        ensures
            codes@ == self.advertised(),
            codes@ == catalog_codes(),
    {
        proof {
            use_type_invariant(self);
        }
        &self.keys
    }

    /// The batch of raw events that reports the given key events, one raw
    /// event for each and in the same order. Every code in it is one that
    /// the device announces.
    pub fn write_events(&self, events: &[KeyEvent]) -> (batch: Vec<RawEvent>)
        ensures
            batch@ == raw_events(events@),
            forall|i: int| 0 <= i < batch@.len() ==> self.advertised().contains(batch@[i].code),
    {
        proof {
            use_type_invariant(self);
        }
        let mut batch: Vec<RawEvent> = Vec::new();
        let mut i: usize = 0;
        while i < events.len()
            invariant
                i <= events.len(),
                batch@.len() == i,
                self.advertised() == catalog_codes(),
                forall|j: int| 0 <= j < i ==> batch@[j] == events@[j].raw(),
                forall|j: int| 0 <= j < i ==> self.advertised().contains(batch@[j].code),
            decreases events.len() - i,
        {
            let event = events[i];
            proof {
                law_catalog_is_advertised(event.key, 0);
            }
            batch.push(event.to_raw());
            i = i + 1;
        }
        assert(batch@ =~= raw_events(events@));
        batch
    }

    /// The batch that presses the given keys: one press for each key.
    pub fn press_keys(&self, keys: &[Key]) -> (batch: Vec<RawEvent>)
        ensures
            batch@ == raw_events(presses(keys@)),
    {
        let events = key_events(keys, KeyPosition::Press);
        assert(events@ =~= presses(keys@));
        self.write_events(events.as_slice())
    }

    /// The batch that releases the given keys: one release for each key.
    pub fn release_keys(&self, keys: &[Key]) -> (batch: Vec<RawEvent>)
        ensures
            batch@ == raw_events(releases(keys@)),
    {
        let events = key_events(keys, KeyPosition::Release);
        assert(events@ =~= releases(keys@));
        self.write_events(events.as_slice())
    }
}

fn key_events(keys: &[Key], position: KeyPosition) -> (events: Vec<KeyEvent>)
    ensures
        events@.len() == keys@.len(),
        forall|i: int| 0 <= i < keys@.len() ==> events@[i] == (KeyEvent { key: keys@[i], position }),
{
    let mut events: Vec<KeyEvent> = Vec::new();
    let mut i: usize = 0;
    while i < keys.len()
        invariant
            i <= keys.len(),
            events@.len() == i,
            forall|j: int| 0 <= j < i ==> events@[j] == (KeyEvent { key: keys@[j], position }),
        decreases keys.len() - i,
    {
        events.push(KeyEvent { key: keys[i], position });
        i = i + 1;
    }
    events
}

/// Scripted gestures on the virtual keyboard.
#[derive(Debug)]
pub struct KeyboardEmulator {
    kw: KeyboardWriter,
}

impl KeyboardEmulator {
    /// The virtual keyboard that the gestures are played on.
    pub closed spec fn writer(self) -> KeyboardWriter {
        self.kw
    }

    /// An emulator with a virtual keyboard of its own.
    pub fn new() -> (emulator: KeyboardEmulator)
        ensures
            emulator.writer().advertised() == catalog_codes(),
    {
        KeyboardEmulator { kw: KeyboardWriter::new() }
    }

    /// The virtual keyboard to create.
    pub fn device(&self) -> (writer: &KeyboardWriter)
        ensures
            *writer == self.writer(),
    {
        &self.kw
    }

    /// The paste gesture, as the batches to emit one after the other: first
    /// left control and V pressed, then both released. A batch is to be
    /// emitted whole before the next one begins.
    pub fn ctrl_v(&self) -> (batches: Vec<Vec<RawEvent>>)
        ensures
            batches@.len() == 2,
            batches@[0]@ == raw_events(presses(seq![Key::LCtrl, Key::V])),
            batches@[1]@ == raw_events(releases(seq![Key::LCtrl, Key::V])),
    {
        let keys = [Key::LCtrl, Key::V];
        assert(keys@ =~= seq![Key::LCtrl, Key::V]);
        let press = self.kw.press_keys(keys.as_slice());
        let release = self.kw.release_keys(keys.as_slice());
        let mut batches: Vec<Vec<RawEvent>> = Vec::new();
        batches.push(press);
        batches.push(release);
        batches
    }
}

/// The virtual keyboard supports every key of the catalog and nothing
/// else: the code of every key is announced, and every code that is
/// announced is the code of a key.
pub proof fn law_catalog_is_advertised(key: Key, code: u16)
    ensures
        catalog_codes().contains(key.os_code()),
        catalog_codes().contains(code) ==> Key::with_code(code) is Some,
{
    lemma_ordinal_roundtrip(key);
    assert(catalog_codes()[key.ordinal() as int] == key.os_code());
    if catalog_codes().contains(code) {
        let n = choose|n: int| 0 <= n < catalog_codes().len() && catalog_codes()[n] == code;
        lemma_at_ordinal(n as u32);
        crate::keyboard::keys::lemma_code_roundtrip(Key::at(n as u32).unwrap());
    }
}

/// What is emitted reads back as what was meant: the raw events for some
/// key events decode to just those key events.
pub proof fn law_emitted_events_decode_back(events: Seq<KeyEvent>)
    ensures
        decoded_all(raw_events(events)) == events,
    decreases events.len(),
{
    if events.len() == 0 {
        assert(decoded_all(raw_events(events)) =~= events);
    } else {
        let front = events.drop_last();
        law_emitted_events_decode_back(front);
        assert(raw_events(events).drop_last() =~= raw_events(front));
        crate::keyboard::keys::lemma_code_roundtrip(events.last().key);
        assert(decoded(raw_events(events).last()) == Some(events.last()));
        assert(decoded_all(raw_events(events)) =~= events);
    }
}

/// Pressing keys and then releasing them emits one press and one release
/// for each key, and every press comes before every release.
pub proof fn law_presses_come_before_releases(keys: Seq<Key>)
    ensures
        ({
            let emitted = raw_events(presses(keys)) + raw_events(releases(keys));
            &&& emitted.len() == 2 * keys.len()
            &&& forall|i: int|
                0 <= i < keys.len() ==> #[trigger] emitted[i] == (KeyEvent {
                    key: keys[i],
                    position: KeyPosition::Press,
                }).raw()
            &&& forall|i: int|
                keys.len() <= i < 2 * keys.len() ==> #[trigger] emitted[i] == (KeyEvent {
                    key: keys[i - keys.len()],
                    position: KeyPosition::Release,
                }).raw()
        }),
{
}

} // verus!
