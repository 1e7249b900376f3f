use vstd::prelude::*;

use crate::keyboard::keys::Key;

verus! {

/// Position that a key moved to.
#[derive(Debug, Copy, Clone, PartialEq, Eq, Structural, PartialOrd, Ord, Hash)]
pub enum KeyPosition {
    Press,
    Release,
}

/// A key changed its position.
#[derive(Debug, Copy, Clone, PartialEq, Eq, Structural, PartialOrd, Ord, Hash)]
pub struct KeyEvent {
    pub key: Key,
    pub position: KeyPosition,
}

/// The bitmap with only the bit of `key` set.
pub open spec fn key_bit(key: Key) -> u128 {
    1u128 << key.ordinal()
}

/// The bitmap after one event: a press sets the key's bit, a release clears
/// it, every other bit stays.
pub open spec fn bits_after_event(bits: u128, event: KeyEvent) -> u128 {
    match event.position {
        KeyPosition::Press => bits | key_bit(event.key),
        KeyPosition::Release => bits & !key_bit(event.key),
    }
}

/// The bitmap after the events, applied in their order.
pub open spec fn bits_after_events(bits: u128, events: Seq<KeyEvent>) -> u128
    decreases events.len(),
{
    if events.len() == 0 {
        bits
    } else {
        bits_after_event(bits_after_events(bits, events.drop_last()), events.last())
    }
}

/// The bits of all the given keys together.
pub open spec fn keys_mask(keys: Seq<Key>) -> u128
    decreases keys.len(),
{
    if keys.len() == 0 {
        0
    } else {
        keys_mask(keys.drop_last()) | key_bit(keys.last())
    }
}

/// One press event for each key, in the keys' order.
pub open spec fn presses(keys: Seq<Key>) -> Seq<KeyEvent> {
    Seq::new(keys.len(), |i: int| KeyEvent { key: keys[i], position: KeyPosition::Press })
}

/// One release event for each key, in the keys' order.
pub open spec fn releases(keys: Seq<Key>) -> Seq<KeyEvent> {
    Seq::new(keys.len(), |i: int| KeyEvent { key: keys[i], position: KeyPosition::Release })
}

/// Whether a bitmap uses only bits that belong to a key of the catalog.
pub open spec fn within_catalog(bits: u128) -> bool {
    bits >> 103 == 0
}

/// Which keys are held down, as a bitmap with one bit per key of the
/// catalog: bit `n` is set exactly when the key with ordinal `n` is held.
///
/// Two states are equal exactly when their bitmaps are; how a state came
/// about plays no part.
#[derive(Debug, Clone, Copy, PartialEq, Eq, Structural, Hash)]
pub struct KeyboardState {
    value: u128,
}

impl View for KeyboardState {
    type V = u128;

    closed spec fn view(&self) -> u128 {
        self.value
    }
}

impl KeyboardState {
    /// No bit is set that belongs to no key.
    #[verifier::type_invariant]
    pub closed spec fn wf(self) -> bool {
        within_catalog(self.value)
    }

    /// Whether the key is held down in this state.
    pub open spec fn holds(self, key: Key) -> bool {
        self@ & key_bit(key) != 0
    }

    /// The keys that are held down in this state.
    pub open spec fn pressed(self) -> Set<Key> {
        Set::new(|key: Key| self.holds(key))
    }

    /// The state in which no key is held.
    pub fn new() -> (state: KeyboardState)
        ensures
            state@ == 0,
            state.wf(),
    {
        assert(within_catalog(0u128)) by (bit_vector);
        KeyboardState { value: 0 }
    }

    /// The bitmap of the state.
    pub fn bits(&self) -> (bits: u128)
        ensures
            bits == self@,
            within_catalog(bits),
    {
        proof {
            use_type_invariant(self);
        }
        self.value
    }

    /// Whether the key is held down in this state.
    pub fn is_pressed(&self, key: Key) -> (held: bool)
        ensures
            held == self.holds(key),
    {
        let n: u32 = key.number();
        self.value & (1u128 << n) != 0
    }

    /// Applies one event: a press sets the key's bit, a release clears it.
    /// Applying the same event again changes nothing.
    pub fn apply_event(&mut self, event: KeyEvent)
        ensures
            final(self)@ == bits_after_event(old(self)@, event),
            final(self).wf(),
            final(self).holds(event.key) == (event.position == KeyPosition::Press),
            forall|key: Key| key != event.key ==> final(self).holds(key) == old(self).holds(key),
    {
        proof {
            use_type_invariant(&*self);
            lemma_event_within_catalog(self@, event);
            lemma_event_sets_own_bit(self@, event);
            assert forall|key: Key| key != event.key implies (bits_after_event(self@, event)
                & key_bit(key) != 0) == (self@ & key_bit(key) != 0) by {
                lemma_event_keeps_other_bits(self@, event, key);
            }
        }
        let n: u32 = event.key.number();
        match event.position {
            KeyPosition::Press => {
                self.value = self.value | (1u128 << n);
            },
            KeyPosition::Release => {
                self.value = self.value & !(1u128 << n);
            },
        }
    }

    /// Applies the events in their order.
    pub fn apply_events(&mut self, events: &[KeyEvent])
        ensures
            final(self)@ == bits_after_events(old(self)@, events@),
            final(self).wf(),
    {
        proof {
            use_type_invariant(&*self);
        }
        let mut i: usize = 0;
        while i < events.len()
            invariant
                i <= events.len(),
                self.wf(),
                self@ == bits_after_events(old(self)@, events@.take(i as int)),
            decreases events.len() - i,
        {
            assert(events@.take(i + 1).drop_last() =~= events@.take(i as int));
            self.apply_event(events[i]);
            i = i + 1;
        }
        assert(events@.take(events.len() as int) =~= events@);
    }

    /// Marks every given key as held, as if all were pressed at once. The
    /// result is the same as pressing them one after the other. This builds
    /// the combination that a shortcut is registered under.
    pub fn apply_keys(&mut self, keys: &[Key])
        ensures
            final(self)@ == old(self)@ | keys_mask(keys@),
            final(self)@ == bits_after_events(old(self)@, presses(keys@)),
            final(self).wf(),
    {
        proof {
            use_type_invariant(&*self);
        }
        let mut i: usize = 0;
        while i < keys.len()
            invariant
                i <= keys.len(),
                self.wf(),
                self@ == bits_after_events(old(self)@, presses(keys@.take(i as int))),
            decreases keys.len() - i,
        {
            let event = KeyEvent { key: keys[i], position: KeyPosition::Press };
            proof {
                let next = presses(keys@.take(i + 1));
                assert(next.drop_last() =~= presses(keys@.take(i as int)));
                assert(next.last() == event);
            }
            self.apply_event(event);
            i = i + 1;
        }
        proof {
            assert(keys@.take(keys.len() as int) =~= keys@);
            law_keys_are_pressed_one_by_one(old(self)@, keys@);
        }
    }
}

impl Default for KeyboardState {
    fn default() -> (state: KeyboardState)
        ensures
            state@ == 0,
    {
        KeyboardState::new()
    }
}

proof fn lemma_bit_or(bits: u128, n: u32, m: u32)
    by (bit_vector)
    requires
        n < 103,
        m < 103,
    ensures
        (bits | (1u128 << n)) & (1u128 << n) != 0,
        m != n ==> ((bits | (1u128 << n)) & (1u128 << m) != 0) == (bits & (1u128 << m) != 0),
        bits >> 103 == 0 ==> (bits | (1u128 << n)) >> 103 == 0,
        bits & (1u128 << n) == 0 ==> (bits | (1u128 << n)) & !(1u128 << n) == bits,
{
}

proof fn lemma_bit_clear(bits: u128, n: u32, m: u32)
    by (bit_vector)
    requires
        n < 103,
        m < 103,
    ensures
        (bits & !(1u128 << n)) & (1u128 << n) == 0,
        m != n ==> ((bits & !(1u128 << n)) & (1u128 << m) != 0) == (bits & (1u128 << m) != 0),
        bits >> 103 == 0 ==> (bits & !(1u128 << n)) >> 103 == 0,
{
}

proof fn lemma_bit_algebra(a: u128, b: u128, c: u128)
    by (bit_vector)
    ensures
        a | 0 == a,
        (a | b) | c == a | (b | c),
        (a | b) | b == a | b,
        (a & !b) & !b == a & !b,
{
}

/// An event leaves the bitmap inside the catalog.
pub proof fn lemma_event_within_catalog(bits: u128, event: KeyEvent)
    requires
        within_catalog(bits),
    ensures
        within_catalog(bits_after_event(bits, event)),
{
    let n = event.key.ordinal();
    lemma_bit_or(bits, n, n);
    lemma_bit_clear(bits, n, n);
}

/// After an event its key is held exactly if the event was a press.
pub proof fn lemma_event_sets_own_bit(bits: u128, event: KeyEvent)
    ensures
        (bits_after_event(bits, event) & key_bit(event.key) != 0) == (event.position
            == KeyPosition::Press),
{
    let n = event.key.ordinal();
    lemma_bit_or(bits, n, n);
    lemma_bit_clear(bits, n, n);
}

/// An event changes no key but its own.
pub proof fn lemma_event_keeps_other_bits(bits: u128, event: KeyEvent, key: Key)
    requires
        key != event.key,
    ensures
        (bits_after_event(bits, event) & key_bit(key) != 0) == (bits & key_bit(key) != 0),
{
    let n = event.key.ordinal();
    let m = key.ordinal();
    crate::keyboard::keys::law_codes_are_a_bijection(key, event.key, 0);
    lemma_bit_or(bits, n, m);
    lemma_bit_clear(bits, n, m);
}

/// Events keep the bitmap inside the catalog.
pub proof fn law_events_stay_within_catalog(bits: u128, events: Seq<KeyEvent>)
    requires
        within_catalog(bits),
    ensures
        within_catalog(bits_after_events(bits, events)),
    decreases events.len(),
{
    if events.len() > 0 {
        law_events_stay_within_catalog(bits, events.drop_last());
        lemma_event_within_catalog(bits_after_events(bits, events.drop_last()), events.last());
    }
}

/// Pressing a key that was not held and releasing it again gives the state
/// back as it was.
pub proof fn law_press_release_roundtrip(state: KeyboardState, key: Key)
    requires
        !state.holds(key),
    ensures
        bits_after_events(
            state@,
            seq![
                KeyEvent { key, position: KeyPosition::Press },
                KeyEvent { key, position: KeyPosition::Release },
            ],
        ) == state@,
{
    let press = KeyEvent { key, position: KeyPosition::Press };
    let release = KeyEvent { key, position: KeyPosition::Release };
    let both = seq![press, release];
    assert(both.drop_last() =~= seq![press]);
    assert(seq![press].drop_last() =~= Seq::<KeyEvent>::empty());
    assert(bits_after_events(state@, Seq::<KeyEvent>::empty()) == state@);
    assert(bits_after_events(state@, seq![press]) == bits_after_event(state@, press));
    assert(bits_after_events(state@, both) == bits_after_event(
        bits_after_event(state@, press),
        release,
    ));
    lemma_bit_or(state@, key.ordinal(), key.ordinal());
}

/// An event applied twice in a row does what it does applied once.
pub proof fn law_event_idempotent(bits: u128, event: KeyEvent)
    ensures
        bits_after_event(bits_after_event(bits, event), event) == bits_after_event(bits, event),
{
    lemma_bit_algebra(bits, key_bit(event.key), 0);
}

/// Equality of states is an equivalence, and it is equality of bitmaps: two
/// states reached by different events are equal as soon as the same keys are
/// held.
pub proof fn law_equality_is_bitmap_equality(a: KeyboardState, b: KeyboardState, c: KeyboardState)
    ensures
        a == a,
        a == b ==> b == a,
        a == b && b == c ==> a == c,
        a == b <==> a@ == b@,
{
}

/// Marking keys as held at once is pressing them one after the other.
pub proof fn law_keys_are_pressed_one_by_one(bits: u128, keys: Seq<Key>)
    ensures
        bits | keys_mask(keys) == bits_after_events(bits, presses(keys)),
    decreases keys.len(),
{
    if keys.len() == 0 {
        lemma_bit_algebra(bits, 0, 0);
    } else {
        let front = keys.drop_last();
        law_keys_are_pressed_one_by_one(bits, front);
        assert(presses(keys).drop_last() =~= presses(front));
        assert(presses(keys).last() == KeyEvent { key: keys.last(), position: KeyPosition::Press });
        lemma_bit_algebra(bits, keys_mask(front), key_bit(keys.last()));
    }
}


proof fn lemma_mask_absorbs_its_keys(keys: Seq<Key>, key: Key)
    requires
        keys.contains(key),
    ensures
        keys_mask(keys) | key_bit(key) == keys_mask(keys),
    decreases keys.len(),
{
    let front = keys.drop_last();
    let last = keys.last();
    if last == key {
        lemma_bit_algebra(keys_mask(front), key_bit(key), 0);
    } else {
        let at = choose|at: int| 0 <= at < keys.len() && keys[at] == key;
        assert(front[at] == key);
        lemma_mask_absorbs_its_keys(front, key);
        lemma_bit_order(keys_mask(front), key_bit(last), key_bit(key));
    }
}

proof fn lemma_bit_order(a: u128, b: u128, c: u128)
    by (bit_vector)
    ensures
        (a | b) | c == (a | c) | b,
        a | b == b | a,
{
}

proof fn lemma_mask_absorbs_mask(keys: Seq<Key>, others: Seq<Key>)
    requires
        forall|i: int| 0 <= i < others.len() ==> keys.contains(#[trigger] others[i]),
    ensures
        keys_mask(keys) | keys_mask(others) == keys_mask(keys),
    decreases others.len(),
{
    if others.len() == 0 {
        lemma_bit_algebra(keys_mask(keys), 0, 0);
    } else {
        let front = others.drop_last();
        assert(forall|i: int| 0 <= i < front.len() ==> front[i] == others[i]);
        lemma_mask_absorbs_mask(keys, front);
        assert(keys.contains(others[others.len() - 1]));
        lemma_mask_absorbs_its_keys(keys, others.last());
        lemma_bit_algebra(keys_mask(keys), keys_mask(front), key_bit(others.last()));
    }
}

/// A combination is a set of keys: in which order the keys are given, and
/// how often, does not matter.
pub proof fn law_combination_is_a_set(first: Seq<Key>, second: Seq<Key>)
    requires
        first.to_set() == second.to_set(),
    ensures
        keys_mask(first) == keys_mask(second),
{
    assert forall|i: int| 0 <= i < second.len() implies first.contains(#[trigger] second[i]) by {
        assert(second.to_set().contains(second[i]));
        assert(first.to_set().contains(second[i]));
    }
    assert forall|i: int| 0 <= i < first.len() implies second.contains(#[trigger] first[i]) by {
        assert(first.to_set().contains(first[i]));
        assert(second.to_set().contains(first[i]));
    }
    lemma_mask_absorbs_mask(first, second);
    lemma_mask_absorbs_mask(second, first);
    lemma_bit_order(keys_mask(first), keys_mask(second), 0);
}


/// The bits of a bitmap below position `upto`.
spec fn low_bits(bits: u128, upto: u32) -> u128
    decreases upto,
{
    if upto == 0 {
        0
    } else {
        low_bits(bits, (upto - 1) as u32) | (bits & (1u128 << ((upto - 1) as u32)))
    }
}

proof fn lemma_low_bits_step(bits: u128, n: u32, below: u128)
    by (bit_vector)
    requires
        n < 103,
        below == bits & (((1u128 << n) - 1) as u128),
    ensures
        below | (bits & (1u128 << n)) == bits & (((1u128 << ((n + 1) as u32)) - 1) as u128),
{
}

proof fn lemma_low_bits_all(bits: u128)
    by (bit_vector)
    requires
        bits >> 103 == 0,
    ensures
        bits & (((1u128 << 103u32) - 1) as u128) == bits,
        bits & (((1u128 << 0u32) - 1) as u128) == 0,
{
}

proof fn lemma_low_bits_are_a_mask(bits: u128, upto: u32)
    requires
        upto <= 103,
    ensures
        low_bits(bits, upto) == bits & (((1u128 << upto) - 1) as u128),
    decreases upto,
{
    if upto == 0 {
        assert(bits & (((1u128 << 0u32) - 1) as u128) == 0) by (bit_vector);
    } else {
        let n = (upto - 1) as u32;
        lemma_low_bits_are_a_mask(bits, n);
        lemma_low_bits_step(bits, n, low_bits(bits, n));
    }
}

proof fn lemma_same_keys_same_low_bits(a: u128, b: u128, upto: u32)
    requires
        upto <= 103,
        forall|key: Key| (a & key_bit(key) != 0) == (b & key_bit(key) != 0),
    ensures
        low_bits(a, upto) == low_bits(b, upto),
    decreases upto,
{
    if upto > 0 {
        let n = (upto - 1) as u32;
        lemma_same_keys_same_low_bits(a, b, n);
        crate::keyboard::keys::lemma_at_ordinal(n);
        let key = Key::at(n).unwrap();
        assert(key_bit(key) == 1u128 << n);
        lemma_single_bit(a, b, n);
    }
}

proof fn lemma_single_bit(a: u128, b: u128, n: u32)
    by (bit_vector)
    requires
        n < 103,
        (a & (1u128 << n) != 0) == (b & (1u128 << n) != 0),
    ensures
        a & (1u128 << n) == b & (1u128 << n),
{
}

/// A state is the set of the keys that are held: states in which the
/// same keys are held are equal.
pub proof fn law_state_is_its_pressed_keys(a: KeyboardState, b: KeyboardState)
    requires
        a.wf(),
        b.wf(),
    ensures
        a.pressed() == b.pressed() <==> a == b,
{
    if a.pressed() == b.pressed() {
        assert forall|key: Key| (a@ & key_bit(key) != 0) == (b@ & key_bit(key) != 0) by {
            assert(a.pressed().contains(key) == a.holds(key));
            assert(b.pressed().contains(key) == b.holds(key));
        }
        lemma_same_keys_same_low_bits(a@, b@, 103);
        lemma_low_bits_are_a_mask(a@, 103);
        lemma_low_bits_are_a_mask(b@, 103);
        lemma_low_bits_all(a@);
        lemma_low_bits_all(b@);
    }
}

} // verus!
