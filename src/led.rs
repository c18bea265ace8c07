//! Logical LED names and the two-valued pin level.
use vstd::prelude::*;

verus! {

/// Number of LEDs on the board.
pub const LED_COUNT: usize = 14;

/// Logical name of one physical indicator LED.
#[derive(Clone, Copy, Debug, PartialEq, Eq, Structural)]
pub enum LedId {
    User1,
    User2,
    User3,
    Green1,
    Green2,
    Red1,
    Red2,
    Orange1,
    Orange2,
    Blue1,
    Blue2,
    White1,
    White2,
    White3,
}

/// Level written to an output pin.
#[derive(Clone, Copy, Debug, PartialEq, Eq, Structural)]
pub enum PinState {
    Low,
    High,
}

/// Position of an LED in the board's fixed order.
pub open spec fn led_index(id: LedId) -> int {
    match id {
        LedId::User1 => 0,
        LedId::User2 => 1,
        LedId::User3 => 2,
        LedId::Green1 => 3,
        LedId::Green2 => 4,
        LedId::Red1 => 5,
        LedId::Red2 => 6,
        LedId::Orange1 => 7,
        LedId::Orange2 => 8,
        LedId::Blue1 => 9,
        LedId::Blue2 => 10,
        LedId::White1 => 11,
        LedId::White2 => 12,
        LedId::White3 => 13,
    }
}

/// The opposite level.
pub open spec fn inverted(s: PinState) -> PinState {
    match s {
        PinState::Low => PinState::High,
        PinState::High => PinState::Low,
    }
}

/// Each LED has its own position, and every position names an LED.
pub proof fn lemma_index_is_a_bijection()
    ensures
        forall|id: LedId| 0 <= #[trigger] led_index(id) < LED_COUNT as int,
        forall|a: LedId, b: LedId| #[trigger] led_index(a) == #[trigger] led_index(b) ==> a == b,
{
}

impl LedId {
    /// Position of this LED in the board's fixed order.
    pub fn index(self) -> (r: usize)
        ensures
            r as int == led_index(self),
            r < LED_COUNT,
    {
        match self {
            LedId::User1 => 0,
            LedId::User2 => 1,
            LedId::User3 => 2,
            LedId::Green1 => 3,
            LedId::Green2 => 4,
            LedId::Red1 => 5,
            LedId::Red2 => 6,
            LedId::Orange1 => 7,
            LedId::Orange2 => 8,
            LedId::Blue1 => 9,
            LedId::Blue2 => 10,
            LedId::White1 => 11,
            LedId::White2 => 12,
            LedId::White3 => 13,
        }
    }

    /// The LED at position `i` of the board's fixed order.
    pub fn from_index(i: usize) -> (r: LedId)
        requires
            i < LED_COUNT,
        ensures
            led_index(r) == i as int,
    {
        if i == 0 {
            LedId::User1
        } else if i == 1 {
            LedId::User2
        } else if i == 2 {
            LedId::User3
        } else if i == 3 {
            LedId::Green1
        } else if i == 4 {
            LedId::Green2
        } else if i == 5 {
            LedId::Red1
        } else if i == 6 {
            LedId::Red2
        } else if i == 7 {
            LedId::Orange1
        } else if i == 8 {
            LedId::Orange2
        } else if i == 9 {
            LedId::Blue1
        } else if i == 10 {
            LedId::Blue2
        } else if i == 11 {
            LedId::White1
        } else if i == 12 {
            LedId::White2
        } else {
            LedId::White3
        }
    }
}

impl PinState {
    /// The opposite level.
    pub fn inverted(self) -> (r: PinState)
        ensures
            r == inverted(self),
    {
        match self {
            PinState::Low => PinState::High,
            PinState::High => PinState::Low,
        }
    }
}

} // verus!
