use modsynth::env::{Adsr, AdsrState};
use modsynth::util::Port;

fn configured() -> Adsr {
    let mut e = Adsr::new();
    e.write(Port::AttackFor, 4);
    e.write(Port::AttackTo, 32000);
    e.write(Port::DecayFor, 4);
    e.write(Port::SustainAt, 16000);
    e.write(Port::ReleaseFor, 4);
    e
}

#[test]
fn full_cycle_visits_every_state_in_order() {
    let mut e = configured();
    assert!(matches!(e.state, AdsrState::Off));

    // trigger pulse with gating held on
    e.write(Port::Trigger, 32767);
    e.write(Port::Gate, 32767);
    e.step();
    assert!(matches!(e.state, AdsrState::Attack));

    // the pulse ends; gating stays on
    e.write(Port::Trigger, 0);
    let mut attack_outs = vec![];
    while matches!(e.state, AdsrState::Attack) {
        e.step();
        attack_outs.push(e.read(Port::Out));
    }
    // rising ramp, non-decreasing, reaching attack_to exactly
    assert_eq!(attack_outs, vec![0, 8000, 16000, 24000, 32000]);
    assert!(matches!(e.state, AdsrState::Decay));

    let mut decay_outs = vec![];
    while matches!(e.state, AdsrState::Decay) {
        e.step();
        decay_outs.push(e.read(Port::Out));
    }
    // falling ramp from attack_to down to sustain_at
    assert_eq!(decay_outs, vec![32000, 28000, 24000, 20000, 16000]);
    assert!(matches!(e.state, AdsrState::Sustain));

    // sustain holds the configured level
    for _ in 0..10 {
        e.step();
        assert_eq!(e.read(Port::Out), 16000);
        assert!(matches!(e.state, AdsrState::Sustain));
    }

    // dropping gating releases
    e.write(Port::Gate, 0);
    e.step();
    assert!(matches!(e.state, AdsrState::Release));
    let mut release_outs = vec![];
    while matches!(e.state, AdsrState::Release) {
        e.step();
        release_outs.push(e.read(Port::Out));
    }
    assert_eq!(release_outs, vec![16000, 12000, 8000, 4000, 0]);
    assert!(matches!(e.state, AdsrState::Off));
}

#[test]
fn trigger_outside_off_is_absorbed() {
    let mut e = configured();
    e.write(Port::Trigger, 32767);
    e.write(Port::Gate, 32767);
    e.step();
    e.write(Port::Trigger, 0);
    e.step();
    e.step();
    assert!(matches!(e.state, AdsrState::Attack));
    let counter_before = e.counter;
    // a fresh edge while running must not restart the envelope
    e.write(Port::Trigger, 32767);
    e.step();
    assert!(matches!(e.state, AdsrState::Attack));
    assert_eq!(e.counter, counter_before);
}

#[test]
fn regate_during_release_closes_the_gate_flag() {
    let mut e = configured();
    e.write(Port::Trigger, 32767);
    e.write(Port::Gate, 32767);
    e.step();
    e.write(Port::Trigger, 0);
    e.write(Port::Gate, 0);
    e.step();
    assert!(matches!(e.state, AdsrState::Release));
    // regating without a trigger stays in Release
    e.write(Port::Gate, 32767);
    e.step();
    assert!(matches!(e.state, AdsrState::Release));
    assert!(!e.gated);
}

#[test]
fn gate_hysteresis_holds_between_thresholds() {
    let mut e = configured();
    e.write(Port::Trigger, 32767);
    e.write(Port::Gate, 32767);
    e.step();
    e.write(Port::Trigger, 0);
    // between the quarter and three-quarter thresholds an open gate stays open
    e.write(Port::Gate, 10000);
    e.step();
    assert!(e.gated);
    // below one quarter it closes
    e.write(Port::Gate, 8000);
    e.step();
    assert!(!e.gated);
}

#[test]
fn zero_length_attack_ramp_degrades_to_zero() {
    let mut e = Adsr::new();
    e.write(Port::AttackTo, 32000);
    // attack_for stays 0: the one attack sample reads 0, then decay begins
    e.write(Port::Trigger, 32767);
    e.write(Port::Gate, 32767);
    e.step();
    e.write(Port::Trigger, 0);
    e.step();
    assert_eq!(e.read(Port::Out), 0);
    assert!(matches!(e.state, AdsrState::Decay));
}

#[test]
fn unknown_ports_read_zero_and_absorb_writes() {
    let mut e = configured();
    assert_eq!(e.read(Port::Tempo), 0);
    e.write(Port::Beat, 77);
    assert_eq!(e.dummy, 77);
}
