use std::collections::HashMap;
use vstd::prelude::*;
use vstd::string::StringExecFns;

use crate::keyboard::error::KeyboardError;
use crate::keyboard::keys::Key;
use crate::keyboard::reader::keyboards;
use crate::keyboard::reader::InputDevice;
use crate::keyboard::reader::KeyboardReader;
use crate::keyboard::state::bits_after_events;
use crate::keyboard::state::keys_mask;
use crate::keyboard::state::KeyEvent;
use crate::keyboard::state::KeyboardState;

verus! {

broadcast use vstd::std_specs::hash::group_hash_axioms;

/// Binds names of actions to key combinations and tells which action, if
/// any, the keys held right now stand for.
///
/// A combination is an exact set of keys: an action fires only while just
/// its keys are held, not while more or fewer are.
pub struct KeyboardListener {
    kr: KeyboardReader,
    state: KeyboardState,
    actions: HashMap<u128, String>,
}

impl KeyboardListener {
    /// The devices that the listener reads.
    pub closed spec fn reader(self) -> KeyboardReader {
        self.kr
    }

    /// The keys held right now.
    pub closed spec fn state(self) -> KeyboardState {
        self.state
    }

    /// The registered actions: the name of each by the bitmap of its
    /// combination.
    pub closed spec fn registry(self) -> Map<u128, Seq<char>> {
        Map::new(|bits: u128| self.actions@.contains_key(bits), |bits: u128| self.actions@[bits]@)
    }

    /// The action that the keys held right now stand for.
    pub open spec fn current_action(self) -> Option<Seq<char>> {
        if self.registry().contains_key(self.state()@) {
            Some(self.registry()[self.state()@])
        } else {
            None
        }
    }

    /// A listener over the keyboards among the enumerated devices (see
    /// `KeyboardReader::new`), with no key held and no action registered.
    pub fn new(devices: &Vec<InputDevice>) -> (result: Result<KeyboardListener, KeyboardError>)
        ensures
            match result {
                Ok(listener) => {
                    &&& listener.reader()@ == keyboards(devices@)
                    &&& listener.reader()@.len() > 0
                    &&& listener.state()@ == 0
                    &&& listener.registry() == Map::<u128, Seq<char>>::empty()
                },
                Err(KeyboardError::KeyboardNotFound) => keyboards(devices@).len() == 0,
                Err(_) => false,
            },
    {
        match KeyboardReader::new(devices) {
            Ok(kr) => {
                let listener = KeyboardListener {
                    kr,
                    state: KeyboardState::new(),
                    actions: HashMap::new(),
                };
                assert(listener.registry() =~= Map::<u128, Seq<char>>::empty());
                Ok(listener)
            },
            Err(error) => Err(error),
        }
    }

    /// The devices to read from.
    pub fn devices(&self) -> (reader: &KeyboardReader)
        ensures
            *reader == self.reader(),
    {
        &self.kr
    }

    /// Binds an action to the combination of the given keys. Their order
    /// does not matter. An action bound to the same combination before is
    /// replaced.
    pub fn register_action(&mut self, action: &str, keys: &[Key])
        ensures
            final(self).registry() == old(self).registry().insert(keys_mask(keys@), action@),
            final(self).state() == old(self).state(),
            final(self).reader() == old(self).reader(),
    {
        let mut state = KeyboardState::new();
        state.apply_keys(keys);
        proof {
            lemma_or_zero(keys_mask(keys@));
        }
        self.actions.insert(state.bits(), String::from_str(action));
        assert(self.registry() =~= old(self).registry().insert(keys_mask(keys@), action@));
    }

    /// Takes in the key events that were read, in their order, and tells
    /// the action bound to exactly the keys that are held after them, if
    /// there is one. The keys stay held from call to call.
    pub fn get_action(&mut self, events: &[KeyEvent]) -> (action: Option<&str>)
        ensures
            final(self).state()@ == bits_after_events(old(self).state()@, events@),
            final(self).registry() == old(self).registry(),
            final(self).reader() == old(self).reader(),
            match action {
                Some(name) => final(self).current_action() == Some(name@),
                None => final(self).current_action() is None,
            },
    {
        self.state.apply_events(events);
        let bits = self.state.bits();
        match self.actions.get(&bits) {
            Some(name) => Some(name.as_str()),
            None => None,
        }
    }
}

/// Of two actions registered for the same set of keys the later one is
/// the one that is found.
pub proof fn law_last_registration_wins(
    registry: Map<u128, Seq<char>>,
    first: Seq<char>,
    first_keys: Seq<Key>,
    second: Seq<char>,
    second_keys: Seq<Key>,
)
    requires
        first_keys.to_set() == second_keys.to_set(),
    ensures
        ({
            let after = registry.insert(keys_mask(first_keys), first).insert(
                keys_mask(second_keys),
                second,
            );
            &&& after[keys_mask(first_keys)] == second
            &&& after == registry.insert(keys_mask(second_keys), second)
        }),
{
    crate::keyboard::state::law_combination_is_a_set(first_keys, second_keys);
    let after = registry.insert(keys_mask(first_keys), first).insert(keys_mask(second_keys), second);
    assert(after =~= registry.insert(keys_mask(second_keys), second));
}

proof fn lemma_or_zero(bits: u128)
    by (bit_vector)
    ensures
        0u128 | bits == bits,
{
}

} // verus!
