//! The blink sequencer: the first frame, a dwell, the second frame, a dwell,
//! and again, for as long as the board runs. The sequencer decides what to
//! show and for how long; its caller writes the pins and waits.
use vstd::prelude::*;

use crate::led::{LedId, PinState};
use crate::pattern::{applied, apply_pattern, complement, frame_a, frame_b, lemma_frame_b_is_complement, pattern_a, pattern_b, Pattern};
use crate::registry::{fully_populated, PinRegistry, RegistryError};

verus! {

/// How long each frame stays lit, in milliseconds.
pub const FRAME_DWELL_MS: u32 = 1000;

/// The frame shown `n` frames after start: the first frame at even `n`,
/// the second at odd `n`.
pub open spec fn frame_at(n: nat) -> Map<LedId, PinState> {
    if n % 2 == 0 {
        frame_a()
    } else {
        frame_b()
    }
}

/// What the LEDs show `t` milliseconds after start.
pub open spec fn snapshot_at(t: nat) -> Map<LedId, PinState> {
    frame_at(t / FRAME_DWELL_MS as nat)
}

/// Which frame of the sequence comes next, and how many have been shown.
pub struct Sequencer {
    second_next: bool,
    shown: Ghost<nat>,
}

impl View for Sequencer {
    /// How many frames have been shown.
    type V = nat;

    closed spec fn view(&self) -> nat {
        self.shown@
    }
}

impl Sequencer {
    /// The next frame agrees with the count of frames shown.
    pub closed spec fn wf(&self) -> bool {
        self.second_next == (self.shown@ % 2 == 1)
    }

    /// A sequencer that has shown nothing yet.
    pub fn new() -> (r: Sequencer)
        ensures
            r.wf(),
            r@ == 0,
    {
        Sequencer { second_next: false, shown: Ghost(0) }
    }

    /// The frame to show next.
    pub fn next_pattern(&self) -> (r: Pattern)
        requires
            self.wf(),
        ensures
            r.wf(),
            r@ == frame_at(self@),
    {
        if self.second_next {
            pattern_b()
        } else {
            pattern_a()
        }
    }

    /// Hands out the next frame and how long to hold it; there is always a
    /// next frame.
    pub fn step(&mut self) -> (r: (Pattern, u32))
        requires
            old(self).wf(),
        ensures
            final(self).wf(),
            final(self)@ == old(self)@ + 1,
            r.0.wf(),
            r.0@ == frame_at(old(self)@),
            r.1 == FRAME_DWELL_MS,
    {
        let p = self.next_pattern();
        self.advance();
        (p, FRAME_DWELL_MS)
    }

    /// Shows the next frame on `registry` and returns how long to hold it.
    /// Refused, with nothing written and no frame counted, while some slot of
    /// the registry is still empty.
    pub fn run_frame(&mut self, registry: &mut PinRegistry) -> (r: Result<u32, RegistryError>)
        requires
            old(self).wf(),
            old(registry).wf(),
        ensures
            final(self).wf(),
            final(registry).wf(),
            r is Ok <==> fully_populated(old(registry)@),
            final(registry)@ == applied(old(registry)@, frame_at(old(self)@)),
            r is Ok ==> r == Ok::<u32, RegistryError>(FRAME_DWELL_MS) && final(self)@ == old(self)@ + 1,
            r is Err ==> final(self)@ == old(self)@,
            r matches Err(RegistryError::Uninitialized(id)) ==> !old(registry)@.contains_key(id),
    {
        let p = self.next_pattern();
        match apply_pattern(registry, &p) {
            Ok(()) => {
                self.advance();
                Ok(FRAME_DWELL_MS)
            },
            Err(e) => Err(e),
        }
    }

    fn advance(&mut self)
        requires
            old(self).wf(),
        ensures
            final(self).wf(),
            final(self)@ == old(self)@ + 1,
    {
        self.second_next = !self.second_next;
        self.shown = Ghost(self.shown@ + 1);
    }
}

/// The frame shown `elapsed_ms` milliseconds after start.
pub fn pattern_at(elapsed_ms: u64) -> (r: Pattern)
    ensures
        r.wf(),
        r@ == snapshot_at(elapsed_ms as nat),
{
    let n: u64 = elapsed_ms / (FRAME_DWELL_MS as u64);
    if n % 2 == 0 {
        pattern_a()
    } else {
        pattern_b()
    }
}

/// The sequence never settles: each frame is the complement of the one before,
/// the frames repeat every second frame, and the LEDs repeat every two dwells.
pub proof fn lemma_alternation_continues(n: nat, t: nat)
    ensures
        frame_at(n + 1) == complement(frame_at(n)),
        frame_at(n + 2) == frame_at(n),
        snapshot_at(t + 2 * FRAME_DWELL_MS as nat) == snapshot_at(t),
        snapshot_at(t + FRAME_DWELL_MS as nat) == complement(snapshot_at(t)),
{
    lemma_complement_of_frame_b();
    lemma_frame_b_is_complement();
    assert((t + 2 * FRAME_DWELL_MS as nat) / (FRAME_DWELL_MS as nat) == t / (FRAME_DWELL_MS as nat) + 2);
    assert((t + FRAME_DWELL_MS as nat) / (FRAME_DWELL_MS as nat) == t / (FRAME_DWELL_MS as nat) + 1);
}

proof fn lemma_complement_of_frame_b()
    ensures
        complement(frame_b()) == frame_a(),
{
    assert(complement(frame_b()) =~= frame_a());
}

/// Sampled between frames, a board whose pins are all owned shows a whole
/// frame and nothing in between: after the first frame then the second,
/// every LED is owned and at its level in the second.
pub proof fn lemma_frames_are_whole(m: Map<LedId, PinState>)
    requires
        fully_populated(m),
    ensures
        applied(m, frame_a()) == frame_a(),
        fully_populated(applied(m, frame_a())),
        applied(applied(m, frame_a()), frame_b()) == frame_b(),
        fully_populated(applied(applied(m, frame_a()), frame_b())),
{
}

} // verus!
