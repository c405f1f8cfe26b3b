use modsynth::sequencer::BasicSeq;
use modsynth::util::Port;

fn pattern(active: &[usize]) -> Vec<bool> {
    let mut beats = vec![false; 16];
    for &i in active {
        beats[i] = true;
    }
    beats
}

#[test]
fn triggers_repeat_every_sixteen_ticks() {
    // steps {0, 4, 12} active, four full cycles
    let mut s = BasicSeq::new(pattern(&[0, 4, 12]), vec![128; 16]);
    for k in 1..=64u32 {
        s.tick();
        let beat = (k % 16) as usize;
        let expect = beat == 0 || beat == 4 || beat == 12;
        assert_eq!(s.read(Port::Beat), beat as i16);
        assert_eq!(s.read(Port::Trigger) != 0, expect, "tick {}", k);
        assert_eq!(s.read(Port::Gate) != 0, expect, "tick {}", k);
    }
}

#[test]
fn trigger_lasts_one_sample() {
    let mut s = BasicSeq::new(pattern(&[1]), vec![128; 16]);
    s.tick();
    assert_eq!(s.read(Port::Trigger), 32767);
    s.step();
    assert_eq!(s.read(Port::Trigger), 0);
    // gating outlives the trigger pulse
    assert_eq!(s.read(Port::Gate), 32767);
}

#[test]
fn gate_closes_after_configured_hold() {
    // hold length 1: gating must end once the counter passes 1000
    let mut s = BasicSeq::new(pattern(&[1]), vec![1; 16]);
    s.tick();
    for _ in 0..1000 {
        s.step();
        assert_eq!(s.read(Port::Gate), 32767);
    }
    s.step();
    assert_eq!(s.read(Port::Gate), 0);
}

#[test]
fn inactive_steps_leave_counter_alone() {
    let mut s = BasicSeq::new(pattern(&[3]), vec![1; 16]);
    s.tick();  // beat 1, inactive
    for _ in 0..50 {
        s.step();
    }
    assert_eq!(s.counter, 0);
    assert_eq!(s.read(Port::Gate), 0);
}

#[test]
fn pattern_edits_take_effect() {
    let mut s = BasicSeq::new(pattern(&[]), vec![128; 16]);
    s.set_beat(1, true);
    s.tick();
    assert_eq!(s.read(Port::Trigger), 32767);
    s.set_beat(2, false);
    s.tick();
    assert_eq!(s.read(Port::Trigger), 0);
}

#[test]
fn counter_wrap_forces_gating_low() {
    // the defensive reset: a wrapping elapsed counter must not leave a
    // stale open state behind
    let mut s = BasicSeq::new(pattern(&[1]), vec![32767; 16]);
    s.tick();
    s.counter = u32::MAX;
    s.step();
    assert_eq!(s.counter, 0);
    assert_eq!(s.read(Port::Gate), 0);
}

#[test]
fn tempo_port_writes_and_unknown_reads() {
    let mut s = BasicSeq::new(pattern(&[]), vec![128; 16]);
    s.write(Port::Tempo, 90);
    assert_eq!(s.tempo, 90);
    assert_eq!(s.read(Port::Out), 0);
}
