//! Whole-board patterns: a level for every LED, applied as one frame.
use vstd::prelude::*;

use crate::led::{inverted, led_index, lemma_index_is_a_bijection, LedId, PinState, LED_COUNT};
use crate::registry::{fully_populated, PinRegistry, RegistryError};

verus! {

/// A level for every LED.
pub struct Pattern {
    levels: Vec<PinState>,
}

/// Level of each LED in the first frame of the blink sequence.
pub open spec fn frame_a_level(id: LedId) -> PinState {
    match id {
        LedId::User1 => PinState::Low,
        LedId::User2 => PinState::High,
        LedId::User3 => PinState::Low,
        LedId::Green1 => PinState::High,
        LedId::Green2 => PinState::Low,
        LedId::Red1 => PinState::High,
        LedId::Red2 => PinState::Low,
        LedId::Orange1 => PinState::High,
        LedId::Orange2 => PinState::Low,
        LedId::Blue1 => PinState::High,
        LedId::Blue2 => PinState::Low,
        LedId::White1 => PinState::High,
        LedId::White2 => PinState::Low,
        LedId::White3 => PinState::High,
    }
}

/// Level of each LED in the second frame of the blink sequence.
pub open spec fn frame_b_level(id: LedId) -> PinState {
    match id {
        LedId::User1 => PinState::High,
        LedId::User2 => PinState::Low,
        LedId::User3 => PinState::High,
        LedId::Green1 => PinState::Low,
        LedId::Green2 => PinState::High,
        LedId::Red1 => PinState::Low,
        LedId::Red2 => PinState::High,
        LedId::Orange1 => PinState::Low,
        LedId::Orange2 => PinState::High,
        LedId::Blue1 => PinState::Low,
        LedId::Blue2 => PinState::High,
        LedId::White1 => PinState::Low,
        LedId::White2 => PinState::High,
        LedId::White3 => PinState::Low,
    }
}

/// The first frame of the blink sequence.
pub open spec fn frame_a() -> Map<LedId, PinState> {
    Map::total(|id: LedId| frame_a_level(id))
}

/// The second frame of the blink sequence.
pub open spec fn frame_b() -> Map<LedId, PinState> {
    Map::total(|id: LedId| frame_b_level(id))
}

/// Every LED at the opposite level.
pub open spec fn complement(m: Map<LedId, PinState>) -> Map<LedId, PinState> {
    Map::new(|id: LedId| m.contains_key(id), |id: LedId| inverted(m[id]))
}

/// The registry's levels after applying pattern `p`: every LED takes its
/// level from `p` when all pins are owned; otherwise nothing is written.
pub open spec fn applied(m: Map<LedId, PinState>, p: Map<LedId, PinState>) -> Map<LedId, PinState> {
    if fully_populated(m) {
        p
    } else {
        m
    }
}

impl View for Pattern {
    type V = Map<LedId, PinState>;

    closed spec fn view(&self) -> Map<LedId, PinState> {
        Map::total(|id: LedId| self.levels@[led_index(id)])
    }
}

impl Pattern {
    /// One level per LED.
    pub closed spec fn wf(&self) -> bool {
        self.levels@.len() == LED_COUNT
    }

    /// The level this pattern gives `id`.
    pub fn level(&self, id: LedId) -> (r: PinState)
        requires
            self.wf(),
        ensures
            r == self@[id],
    {
        self.levels[id.index()]
    }

    /// The same pattern with every level inverted.
    pub fn inverted(&self) -> (r: Pattern)
        requires
            self.wf(),
        ensures
            r.wf(),
            r@ == complement(self@),
    {
        let mut levels: Vec<PinState> = Vec::new();
        let mut i: usize = 0;
        while i < LED_COUNT
            invariant
                self.wf(),
                i <= LED_COUNT,
                levels@.len() == i,
                forall|j: int| 0 <= j < i ==> levels@[j] == inverted(self.levels@[j]),
            decreases LED_COUNT - i,
        {
            levels.push(self.levels[i].inverted());
            i = i + 1;
        }
        let r = Pattern { levels };
        proof {
            lemma_index_is_a_bijection();
        }
        assert(r@ =~= complement(self@));
        r
    }
}

/// The first frame of the blink sequence.
pub fn pattern_a() -> (r: Pattern)
    ensures
        r.wf(),
        r@ == frame_a(),
{
    let mut levels: Vec<PinState> = Vec::new();
    let mut i: usize = 0;
    while i < LED_COUNT
        invariant
            i <= LED_COUNT,
            levels@.len() == i,
            forall|j: int| 0 <= j < i ==> levels@[j] == frame_a_level(#[trigger] id_at(j)),
        decreases LED_COUNT - i,
    {
        let id = LedId::from_index(i);
        let level = match id {
            LedId::User1 => PinState::Low,
            LedId::User2 => PinState::High,
            LedId::User3 => PinState::Low,
            LedId::Green1 => PinState::High,
            LedId::Green2 => PinState::Low,
            LedId::Red1 => PinState::High,
            LedId::Red2 => PinState::Low,
            LedId::Orange1 => PinState::High,
            LedId::Orange2 => PinState::Low,
            LedId::Blue1 => PinState::High,
            LedId::Blue2 => PinState::Low,
            LedId::White1 => PinState::High,
            LedId::White2 => PinState::Low,
            LedId::White3 => PinState::High,
        };
        proof {
            lemma_id_at(i as int, id);
        }
        levels.push(level);
        i = i + 1;
    }
    let r = Pattern { levels };
    assert forall|id: LedId| #[trigger] r@[id] == frame_a_level(id) by {
        lemma_id_at(led_index(id), id);
    }
    assert(r@ =~= frame_a());
    r
}

/// The second frame of the blink sequence: the first with every level inverted.
pub fn pattern_b() -> (r: Pattern)
    ensures
        r.wf(),
        r@ == frame_b(),
{
    let r = pattern_a().inverted();
    proof {
        lemma_frame_b_is_complement();
    }
    r
}

/// The LED at position `i`.
pub open spec fn id_at(i: int) -> LedId
    recommends
        0 <= i < LED_COUNT,
{
    choose|id: LedId| led_index(id) == i
}

proof fn lemma_id_at(i: int, id: LedId)
    requires
        led_index(id) == i,
    ensures
        id_at(i) == id,
{
    lemma_index_is_a_bijection();
}

/// The second frame is the first with every level inverted.
pub proof fn lemma_frame_b_is_complement()
    ensures
        frame_b() == complement(frame_a()),
{
    assert(frame_b() =~= complement(frame_a()));
}

/// Drives every LED to its level in `p`. Refused, with nothing written, while
/// some slot is still empty; the error names the first such LED in board order.
pub fn apply_pattern(registry: &mut PinRegistry, p: &Pattern) -> (r: Result<(), RegistryError>)
    requires
        old(registry).wf(),
        p.wf(),
    ensures
        final(registry).wf(),
        r is Ok <==> fully_populated(old(registry)@),
        final(registry)@ == applied(old(registry)@, p@),
        r matches Err(RegistryError::Uninitialized(id)) ==> !old(registry)@.contains_key(id)
            && forall|o: LedId| led_index(o) < led_index(id) ==> #[trigger] old(registry)@.contains_key(o),
{
    let mut i: usize = 0;
    while i < LED_COUNT
        invariant
            registry.wf(),
            i <= LED_COUNT,
            forall|o: LedId| led_index(o) < i ==> #[trigger] registry@.contains_key(o),
        decreases LED_COUNT - i,
    {
        let id = LedId::from_index(i);
        if !registry.is_initialized(id) {
            return Err(RegistryError::Uninitialized(id));
        }
        proof {
            lemma_index_is_a_bijection();
        }
        i = i + 1;
    }
    let ghost start = registry@;
    proof {
        lemma_index_is_a_bijection();
    }
    assert(fully_populated(start));
    let mut i: usize = 0;
    while i < LED_COUNT
        invariant
            registry.wf(),
            p.wf(),
            i <= LED_COUNT,
            fully_populated(registry@),
            forall|o: LedId| led_index(o) < i ==> #[trigger] registry@[o] == p@[o],
        decreases LED_COUNT - i,
    {
        let id = LedId::from_index(i);
        let level = p.level(id);
        let _ = registry.set_led_state(id, level);
        proof {
            lemma_index_is_a_bijection();
        }
        i = i + 1;
    }
    proof {
        lemma_index_is_a_bijection();
    }
    assert(registry@ =~= p@);
    Ok(())
}

} // verus!
