use board_leds::led::{LedId, PinState, LED_COUNT};
use board_leds::pattern::{apply_pattern, pattern_a, pattern_b, Pattern};
use board_leds::registry::{PinRegistry, RegistryError};
use board_leds::sequencer::{pattern_at, Sequencer, FRAME_DWELL_MS};

fn all_leds() -> Vec<LedId> {
    (0..LED_COUNT).map(LedId::from_index).collect()
}

fn populated(level: PinState) -> PinRegistry {
    let mut reg = PinRegistry::new();
    for id in all_leds() {
        reg.initialize(id, level);
    }
    reg
}

fn snapshot(reg: &PinRegistry) -> Vec<Option<PinState>> {
    all_leds().into_iter().map(|id| reg.led_state(id)).collect()
}

fn levels(p: &Pattern) -> Vec<PinState> {
    all_leds().into_iter().map(|id| p.level(id)).collect()
}

use PinState::{High, Low};

const FRAME_A: [(LedId, PinState); 14] = [
    (LedId::User1, Low),
    (LedId::User2, High),
    (LedId::User3, Low),
    (LedId::Green1, High),
    (LedId::Green2, Low),
    (LedId::Red1, High),
    (LedId::Red2, Low),
    (LedId::Orange1, High),
    (LedId::Orange2, Low),
    (LedId::Blue1, High),
    (LedId::Blue2, Low),
    (LedId::White1, High),
    (LedId::White2, Low),
    (LedId::White3, High),
];

fn expected_a() -> Vec<PinState> {
    FRAME_A.iter().map(|(_, s)| *s).collect()
}

fn expected_b() -> Vec<PinState> {
    FRAME_A.iter().map(|(_, s)| if *s == High { Low } else { High }).collect()
}

#[test]
fn index_round_trips_over_all_leds() {
    for i in 0..LED_COUNT {
        assert_eq!(LedId::from_index(i).index(), i);
    }
    assert_eq!(LedId::User1.index(), 0);
    assert_eq!(LedId::White3.index(), 13);
}

#[test]
fn inverted_swaps_levels() {
    assert_eq!(Low.inverted(), High);
    assert_eq!(High.inverted(), Low);
}

#[test]
fn write_before_initialize_is_refused_for_every_led() {
    for id in all_leds() {
        let mut reg = PinRegistry::new();
        assert_eq!(reg.set_led_state(id, High), Err(RegistryError::Uninitialized(id)));
        assert_eq!(reg.led_state(id), None);
        assert!(!reg.is_initialized(id));
    }
}

#[test]
fn write_to_other_led_does_not_initialize() {
    let mut reg = PinRegistry::new();
    reg.initialize(LedId::Red1, Low);
    assert_eq!(reg.set_led_state(LedId::Red2, High), Err(RegistryError::Uninitialized(LedId::Red2)));
    assert_eq!(reg.led_state(LedId::Red1), Some(Low));
}

#[test]
fn write_then_read_back_per_led() {
    for id in all_leds() {
        let mut reg = populated(Low);
        assert_eq!(reg.set_led_state(id, High), Ok(()));
        assert_eq!(reg.led_state(id), Some(High));
        for other in all_leds() {
            if other != id {
                assert_eq!(reg.led_state(other), Some(Low));
            }
        }
        assert_eq!(reg.set_led_state(id, Low), Ok(()));
        assert_eq!(reg.led_state(id), Some(Low));
    }
}

#[test]
fn initialize_keeps_the_handed_over_level() {
    let mut reg = PinRegistry::new();
    reg.initialize(LedId::Blue2, High);
    assert!(reg.is_initialized(LedId::Blue2));
    assert_eq!(reg.led_state(LedId::Blue2), Some(High));
    assert_eq!(reg.led_state(LedId::Blue1), None);
}

#[test]
fn fully_populated_only_after_every_led() {
    let mut reg = PinRegistry::new();
    assert!(!reg.is_fully_populated());
    let ids = all_leds();
    for id in &ids[..LED_COUNT - 1] {
        reg.initialize(*id, Low);
        assert!(!reg.is_fully_populated());
    }
    reg.initialize(LedId::White3, Low);
    assert!(reg.is_fully_populated());
}

#[test]
fn pattern_a_and_b_are_the_two_frames() {
    assert_eq!(levels(&pattern_a()), expected_a());
    assert_eq!(levels(&pattern_b()), expected_b());
    for (id, s) in FRAME_A.iter() {
        assert_eq!(pattern_a().level(*id), *s);
    }
}

#[test]
fn pattern_inverted_is_complement() {
    assert_eq!(levels(&pattern_a().inverted()), expected_b());
    assert_eq!(levels(&pattern_b().inverted()), expected_a());
}

#[test]
fn apply_a_then_b_leaves_whole_frames() {
    let mut reg = populated(Low);
    assert_eq!(apply_pattern(&mut reg, &pattern_a()), Ok(()));
    let after_a: Vec<Option<PinState>> = expected_a().into_iter().map(Some).collect();
    assert_eq!(snapshot(&reg), after_a);
    assert_eq!(apply_pattern(&mut reg, &pattern_b()), Ok(()));
    let after_b: Vec<Option<PinState>> = expected_b().into_iter().map(Some).collect();
    assert_eq!(snapshot(&reg), after_b);
}

#[test]
fn apply_on_partial_registry_writes_nothing() {
    let mut reg = PinRegistry::new();
    reg.initialize(LedId::User1, High);
    reg.initialize(LedId::Green1, Low);
    let before = snapshot(&reg);
    assert_eq!(apply_pattern(&mut reg, &pattern_a()), Err(RegistryError::Uninitialized(LedId::User2)));
    assert_eq!(snapshot(&reg), before);
}

#[test]
fn apply_on_empty_registry_names_first_led() {
    let mut reg = PinRegistry::new();
    assert_eq!(apply_pattern(&mut reg, &pattern_b()), Err(RegistryError::Uninitialized(LedId::User1)));
}

#[test]
fn snapshots_alternate_every_dwell() {
    assert_eq!(FRAME_DWELL_MS, 1000);
    assert_eq!(levels(&pattern_at(0)), expected_a());
    assert_eq!(levels(&pattern_at(999)), expected_a());
    assert_eq!(levels(&pattern_at(1000)), expected_b());
    assert_eq!(levels(&pattern_at(1999)), expected_b());
    assert_eq!(levels(&pattern_at(2000)), expected_a());
    assert_eq!(levels(&pattern_at(3000)), expected_b());
    assert_eq!(levels(&pattern_at(u64::MAX)), levels(&pattern_at(u64::MAX - 2000)));
}

#[test]
fn startup_scenario_runs_a_b_a() {
    let mut reg = populated(Low);
    let mut seq = Sequencer::new();
    assert_eq!(seq.run_frame(&mut reg), Ok(1000));
    let a: Vec<Option<PinState>> = expected_a().into_iter().map(Some).collect();
    let b: Vec<Option<PinState>> = expected_b().into_iter().map(Some).collect();
    assert_eq!(snapshot(&reg), a);
    assert_eq!(seq.run_frame(&mut reg), Ok(1000));
    assert_eq!(snapshot(&reg), b);
    assert_eq!(seq.run_frame(&mut reg), Ok(1000));
    assert_eq!(snapshot(&reg), a);
}

#[test]
fn sequencer_keeps_alternating() {
    let mut reg = populated(High);
    let mut seq = Sequencer::new();
    for n in 0..1000u32 {
        assert_eq!(seq.run_frame(&mut reg), Ok(FRAME_DWELL_MS));
        let want = if n % 2 == 0 { expected_a() } else { expected_b() };
        let got: Vec<PinState> = snapshot(&reg).into_iter().map(|s| s.unwrap()).collect();
        assert_eq!(got, want);
    }
}

#[test]
fn sequencer_step_hands_out_frames_and_dwell() {
    let mut seq = Sequencer::new();
    for n in 0..10u32 {
        assert_eq!(levels(&seq.next_pattern()), if n % 2 == 0 { expected_a() } else { expected_b() });
        let (p, dwell) = seq.step();
        assert_eq!(dwell, 1000);
        assert_eq!(levels(&p), if n % 2 == 0 { expected_a() } else { expected_b() });
    }
}

#[test]
fn sequencer_refuses_before_bring_up_and_does_not_advance() {
    let mut reg = PinRegistry::new();
    let mut seq = Sequencer::new();
    assert_eq!(seq.run_frame(&mut reg), Err(RegistryError::Uninitialized(LedId::User1)));
    let mut full = populated(Low);
    assert_eq!(seq.run_frame(&mut full), Ok(1000));
    let a: Vec<Option<PinState>> = expected_a().into_iter().map(Some).collect();
    assert_eq!(snapshot(&full), a);
}
