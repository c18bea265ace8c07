//! The pin registry: one slot per LED, empty until its pin is handed over
//! at bring-up, then holding that pin and the level it drives.
use vstd::prelude::*;

use crate::led::{led_index, lemma_index_is_a_bijection, LedId, PinState, LED_COUNT};

verus! {

/// Why a registry operation was refused.
#[derive(Clone, Copy, Debug, PartialEq, Eq, Structural)]
pub enum RegistryError {
    /// The LED's slot was written before its pin was handed over.
    Uninitialized(LedId),
}

/// Owns the output pin of each LED once bring-up has handed it over, and
/// the level each owned pin currently drives.
pub struct PinRegistry {
    slots: Vec<Option<PinState>>,
}

/// The levels after writing `state` to `id`.
pub open spec fn written(m: Map<LedId, PinState>, id: LedId, state: PinState) -> Map<LedId, PinState> {
    m.insert(id, state)
}

/// What reading back `id` gives: its level, or nothing while its slot is empty.
pub open spec fn read_back(m: Map<LedId, PinState>, id: LedId) -> Option<PinState> {
    if m.contains_key(id) {
        Some(m[id])
    } else {
        None
    }
}

/// Every LED's slot holds its pin.
pub open spec fn fully_populated(m: Map<LedId, PinState>) -> bool {
    forall|id: LedId| #[trigger] m.contains_key(id)
}

impl View for PinRegistry {
    /// The populated slots, each with the level its pin drives.
    type V = Map<LedId, PinState>;

    closed spec fn view(&self) -> Map<LedId, PinState> {
        Map::new(
            |id: LedId| self.slots@[led_index(id)] is Some,
            |id: LedId| self.slots@[led_index(id)]->Some_0,
        )
    }
}

impl PinRegistry {
    /// One slot per LED.
    pub closed spec fn wf(&self) -> bool {
        self.slots@.len() == LED_COUNT
    }

    /// A registry whose slots are all empty.
    pub fn new() -> (r: PinRegistry)
        ensures
            r.wf(),
            r@ == Map::<LedId, PinState>::empty(),
    {
        let mut slots: Vec<Option<PinState>> = Vec::new();
        let mut i: usize = 0;
        while i < LED_COUNT
            invariant
                i <= LED_COUNT,
                slots@.len() == i,
                forall|j: int| 0 <= j < i ==> slots@[j] is None,
            decreases LED_COUNT - i,
        {
            slots.push(None);
            i = i + 1;
        }
        let r = PinRegistry { slots };
        proof {
            lemma_index_is_a_bijection();
        }
        assert(r@ =~= Map::<LedId, PinState>::empty());
        r
    }

    /// Whether the pin of `id` has been handed over.
    pub fn is_initialized(&self, id: LedId) -> (r: bool)
        requires
            self.wf(),
        ensures
            r == self@.contains_key(id),
    {
        self.slots[id.index()].is_some()
    }

    /// Whether every LED's pin has been handed over: the check to make once
    /// bring-up is done.
    pub fn is_fully_populated(&self) -> (r: bool)
        requires
            self.wf(),
        ensures
            r == fully_populated(self@),
    {
        let mut i: usize = 0;
        while i < LED_COUNT
            invariant
                self.wf(),
                i <= LED_COUNT,
                forall|j: int| 0 <= j < i ==> self.slots@[j] is Some,
            decreases LED_COUNT - i,
        {
            if self.slots[i].is_none() {
                let missing = LedId::from_index(i);
                assert(!self@.contains_key(missing));
                return false;
            }
            i = i + 1;
        }
        proof {
            lemma_index_is_a_bijection();
        }
        true
    }

    /// Takes over the pin of `id`, which drives `level`.
    pub fn initialize(&mut self, id: LedId, level: PinState)
        requires
            old(self).wf(),
            !old(self)@.contains_key(id),
        ensures
            final(self).wf(),
            final(self)@ == old(self)@.insert(id, level),
    {
        let i = id.index();
        self.slots.set(i, Some(level));
        proof {
            lemma_index_is_a_bijection();
        }
        assert(self@ =~= old(self)@.insert(id, level));
    }

    /// Drives the pin of `id` to `state`; refused, with nothing changed,
    /// while the slot of `id` is empty.
    pub fn set_led_state(&mut self, id: LedId, state: PinState) -> (r: Result<(), RegistryError>)
        requires
            old(self).wf(),
        ensures
            final(self).wf(),
            r is Ok <==> old(self)@.contains_key(id),
            r is Ok ==> final(self)@ == written(old(self)@, id, state),
            !old(self)@.contains_key(id) ==> r == Err::<(), RegistryError>(
                RegistryError::Uninitialized(id),
            ) && final(self)@ == old(self)@,
    {
        let i = id.index();
        if self.slots[i].is_none() {
            return Err(RegistryError::Uninitialized(id));
        }
        self.slots.set(i, Some(state));
        proof {
            lemma_index_is_a_bijection();
        }
        assert(self@ =~= old(self)@.insert(id, state));
        Ok(())
    }

    /// The level the pin of `id` drives, or `None` while its slot is empty.
    pub fn led_state(&self, id: LedId) -> (r: Option<PinState>)
        requires
            self.wf(),
        ensures
            r == read_back(self@, id),
    {
        self.slots[id.index()]
    }
}

/// Reading back an LED after writing it gives the level written, and
/// leaves what every other LED reads back as it was.
pub proof fn lemma_write_then_read(m: Map<LedId, PinState>, id: LedId, other: LedId, state: PinState)
    requires
        m.contains_key(id),
    ensures
        read_back(written(m, id, state), id) == Some(state),
        other != id ==> read_back(written(m, id, state), other) == read_back(m, other),
{
}

} // verus!
