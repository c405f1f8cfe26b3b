use modsynth::amp::Vca;
use modsynth::arp::{BasicArp, TtetNote};
use modsynth::mix::Mixer;
use modsynth::rvb::BasicReverb;
use modsynth::util::Port;

#[test]
fn port_names_resolve_once() {
    assert_eq!(Port::from_name(&"attack_for".to_string()), Some(Port::AttackFor));
    assert_eq!(Port::from_name(&"note_cv_out".to_string()), Some(Port::NoteCvOut));
    assert_eq!(Port::from_name(&"out".to_string()), Some(Port::Out));
    assert_eq!(Port::from_name(&"no_such_port".to_string()), None);
}

#[test]
fn vca_scales_its_input() {
    let mut v = Vca::new(16384);
    v.write(Port::InCv, 20000);
    v.step();
    assert_eq!(v.read(Port::Out), 10000);
    v.write(Port::AmpCv, 0);
    v.step();
    assert_eq!(v.read(Port::Out), 0);
}

#[test]
fn mixer_sums_weighted_inputs() {
    let mut m = Mixer::new();
    m.write(Port::A, 10000);
    m.write(Port::ALvl, 16384);
    m.write(Port::B, -4000);
    m.write(Port::BLvl, 32767);
    m.step();
    // 10000/2 + (-4000 * 32767 / 32768 floored)
    assert_eq!(m.read(Port::Out), 5000 + -4000);
}

#[test]
fn mixer_saturates_instead_of_wrapping() {
    let mut m = Mixer::new();
    m.write(Port::A, 32767);
    m.write(Port::ALvl, 32767);
    m.write(Port::B, 32767);
    m.write(Port::BLvl, 32767);
    m.step();
    assert_eq!(m.read(Port::Out), 32767);
    m.write(Port::A, -32768);
    m.write(Port::ALvl, 32767);
    m.write(Port::B, -32768);
    m.write(Port::BLvl, 32767);
    m.step();
    assert_eq!(m.read(Port::Out), -32768);
}

#[test]
fn note_conversions_round_trip() {
    assert_eq!(TtetNote::A.semitone(), 0);
    assert_eq!(TtetNote::Gs.semitone(), 11);
    assert_eq!(TtetNote::Ab.semitone(), 11);
    assert!(matches!(TtetNote::from_semitone(0), TtetNote::A));
    assert!(matches!(TtetNote::from_semitone(14), TtetNote::B));
    for s in 0..12u16 {
        assert_eq!(TtetNote::from_semitone(s).semitone(), s);
    }
}

#[test]
fn transpose_steps_through_pitch_classes() {
    assert!(matches!(TtetNote::A.transpose(1), TtetNote::As));
    assert!(matches!(TtetNote::A.transpose(12), TtetNote::A));
    // stepping down from the bottom wraps through the unsigned word:
    // -1 % 12 = -1, reinterpreted as 65535, lands on pitch class 3
    assert!(matches!(TtetNote::A.transpose(-1), TtetNote::C));
}

#[test]
fn to_freq_cv_spans_octaves() {
    // A in octave 4 is the reference note index 69
    assert_eq!(TtetNote::A.to_freq_cv(4), 69);
    assert_eq!(TtetNote::A.to_freq_cv(3), 69);
    assert_eq!(TtetNote::C.to_freq_cv(4), 69 + 3);
    assert_eq!(TtetNote::C.to_freq_cv(3), 69);
}

#[test]
fn major_scale_intervals() {
    let scale = TtetNote::C.major_scale();
    let semis: Vec<u16> = scale.iter().map(|n| n.semitone()).collect();
    assert_eq!(semis, vec![3, 5, 7, 8, 10, 0, 2]);
}

#[test]
fn arpeggiator_advances_on_trigger_only() {
    let mut a = BasicArp::new();
    a.notes = TtetNote::C.major_scale();
    a.octave = 4;
    a.step();
    assert_eq!(a.read(Port::NoteCvOut), 0, "no trigger, no note");
    a.write(Port::TriggerIn, 32767);
    a.step();
    // the cursor moved to the scale's second note
    assert_eq!(a.read(Port::NoteCvOut), 69 + 5);
    a.write(Port::TriggerIn, 0);
    a.step();
    assert_eq!(a.read(Port::NoteCvOut), 69 + 5, "held without trigger");
}

#[test]
fn reverb_echoes_after_its_delay() {
    // one tap, delay 4, gain 0: input passes and returns once, undamped
    let mut r = BasicReverb::new(&vec![4], &vec![0]);
    r.write(Port::CvIn, 1000);
    r.step();
    assert_eq!(r.read(Port::Out), 1000);
    r.write(Port::CvIn, 0);
    r.step();
    r.step();
    assert_eq!(r.read(Port::Out), 0);
    // the echo surfaces when the circular read passes the stored slot
    r.step();
    assert_eq!(r.read(Port::Out), 1000);
    r.step();
    assert_eq!(r.read(Port::Out), 0);
}

#[test]
fn reverb_gain_attenuates_the_dry_path() {
    // gain 0.5 in Q1.15: the dry path is halved
    let mut r = BasicReverb::new(&vec![8], &vec![16384]);
    r.write(Port::CvIn, 20000);
    r.step();
    assert_eq!(r.read(Port::Out), 10000);
}
