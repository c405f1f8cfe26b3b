use modsynth::amp::Vca;
use modsynth::arp::TtetNote;
use modsynth::audio::{AvailableComponents, Cmd, ConfigError, Rack, SingleCycleWaveFormItem, WireDesc};
use modsynth::env::Adsr;
use modsynth::mix::Mixer;
use modsynth::osc::{WaveTableOsc, WaveTables};
use modsynth::sequencer::BasicSeq;
use modsynth::util::Port;

fn wire(src: &str, sp: Port, dst: &str, dp: Port) -> WireDesc {
    WireDesc {
        src_node: src.to_string(),
        src_port: sp,
        dst_node: dst.to_string(),
        dst_port: dp,
    }
}

fn pattern(active: &[usize]) -> Vec<bool> {
    let mut beats = vec![false; 16];
    for &i in active {
        beats[i] = true;
    }
    beats
}

/// The stock patch of P9: sequencer into envelope, square carrier into
/// VCA, VCA into mixer, mixer is the sink.
fn stock_patch(cycles_per_tick: u64) -> Rack {
    let tables = WaveTables::new(vec![0; 1024]);
    let mut map = vec![0u32; 256];
    map[69] = 2500;
    let osc = WaveTableOsc::square(tables, map, 69);

    let mut adsr = Adsr::new();
    adsr.write(Port::AttackFor, 10);
    adsr.write(Port::AttackTo, 32767);
    adsr.write(Port::DecayFor, 10);
    adsr.write(Port::SustainAt, 16383);
    adsr.write(Port::ReleaseFor, 10);

    let seq = BasicSeq::new(pattern(&[0, 4, 12]), vec![64; 16]);

    let components = vec![
        ("wto1".to_string(), AvailableComponents::WaveTableOsc(osc)),
        ("adsr1".to_string(), AvailableComponents::Adsr(adsr)),
        ("seq1".to_string(), AvailableComponents::BasicSeq(seq)),
        ("vca1".to_string(), AvailableComponents::Vca(Vca::new(0))),
        ("mix1".to_string(), AvailableComponents::Mixer(Mixer::new())),
    ];
    let wires = vec![
        wire("seq1", Port::Trigger, "adsr1", Port::Trigger),
        wire("seq1", Port::Gate, "adsr1", Port::Gate),
        wire("adsr1", Port::Out, "vca1", Port::AmpCv),
        wire("wto1", Port::Out, "vca1", Port::InCv),
        wire("vca1", Port::Out, "mix1", Port::A),
    ];
    let mut rack = Rack::new(components, wires, &"mix1".to_string(), cycles_per_tick).unwrap();
    rack.apply_cmd(&Cmd::Freq(69));
    // full level on the mixer's first channel
    match &mut rack.components[4] {
        AvailableComponents::Mixer(m) => m.write(Port::ALvl, 32767),
        _ => panic!("mixer expected"),
    }
    rack
}

#[test]
fn construction_rejects_duplicate_names() {
    let components = vec![
        ("a".to_string(), AvailableComponents::Mixer(Mixer::new())),
        ("a".to_string(), AvailableComponents::Mixer(Mixer::new())),
    ];
    let r = Rack::new(components, vec![], &"a".to_string(), 100);
    assert!(matches!(r, Err(ConfigError::DuplicateName(1))));
}

#[test]
fn construction_rejects_unresolved_wires() {
    let components = vec![("a".to_string(), AvailableComponents::Mixer(Mixer::new()))];
    let wires = vec![wire("ghost", Port::Out, "a", Port::A)];
    let r = Rack::new(components, wires, &"a".to_string(), 100);
    assert!(matches!(r, Err(ConfigError::UnresolvedSource(0))));

    let components = vec![("a".to_string(), AvailableComponents::Mixer(Mixer::new()))];
    let wires = vec![wire("a", Port::Out, "ghost", Port::A)];
    let r = Rack::new(components, wires, &"a".to_string(), 100);
    assert!(matches!(r, Err(ConfigError::UnresolvedDestination(0))));
}

#[test]
fn construction_rejects_unresolved_output() {
    let components = vec![("a".to_string(), AvailableComponents::Mixer(Mixer::new()))];
    let r = Rack::new(components, vec![], &"ghost".to_string(), 100);
    assert!(matches!(r, Err(ConfigError::UnresolvedOutput)));
}

#[test]
fn identical_racks_produce_identical_sample_sequences() {
    // the determinism of wiring propagation, observed end to end
    let mut a = stock_patch(250);
    let mut b = stock_patch(250);
    let outs_a: Vec<i16> = a.run(2000);
    let outs_b: Vec<i16> = b.run(2000);
    assert_eq!(outs_a, outs_b);
    assert!(outs_a.iter().any(|&v| v != 0), "the patch must make sound");
}

fn drive_scripted(rack: &mut Rack) -> Vec<i16> {
    let mut outs = Vec::new();
    for i in 0..1500 {
        if i == 100 {
            rack.apply_cmd(&Cmd::AdsrAttackFor(20));
        }
        if i == 500 {
            rack.apply_cmd(&Cmd::Beat(2, true));
        }
        if i == 900 {
            rack.apply_cmd(&Cmd::Scale(TtetNote::D));
        }
        outs.push(rack.run_sample());
    }
    outs
}

#[test]
fn command_schedules_are_deterministic() {
    // same commands at the same sample boundaries: identical streams
    let mut a = stock_patch(250);
    let mut b = stock_patch(250);
    let outs_a = drive_scripted(&mut a);
    let outs_b = drive_scripted(&mut b);
    assert_eq!(outs_a, outs_b);
    assert!(outs_a.iter().any(|&v| v != 0), "the scripted patch must make sound");
}

#[test]
fn end_to_end_scenario_sounds_at_trigger_aligned_offsets() {
    // a tick lands every 250 samples, so beat 4 (the first active step)
    // fires at sample 1000, beat 5 ends gating at 1250, and beat 12
    // fires at sample 3000
    let mut rack = stock_patch(250);
    let outs: Vec<i16> = rack.run(4410);

    assert!(outs[..1000].iter().all(|&v| v == 0), "silence before the first trigger");
    assert!(outs[1001..1100].iter().any(|&v| v != 0), "attack after the first trigger");
    // release (10 samples) has died out well before the next active step
    assert!(outs[1300..2999].iter().all(|&v| v == 0), "silence between notes");
    assert!(outs[3005..3150].iter().any(|&v| v != 0), "the beat-12 note sounds");
}

#[test]
fn commands_route_to_their_targets() {
    let mut rack = stock_patch(250);
    rack.apply_cmd(&Cmd::AdsrAttackFor(123));
    match &rack.components[1] {
        AvailableComponents::Adsr(a) => assert_eq!(a.attack_for, 123),
        _ => panic!("envelope expected"),
    }
    rack.apply_cmd(&Cmd::Beat(2, true));
    match &rack.components[2] {
        AvailableComponents::BasicSeq(s) => assert!(s.beats[2]),
        _ => panic!("sequencer expected"),
    }
    // an out-of-range pattern index is absorbed
    rack.apply_cmd(&Cmd::Beat(99, true));
    // a load request is handed back, not performed
    let req = rack.apply_cmd(&Cmd::FileWaveTable(SingleCycleWaveFormItem {
        name: "one".to_string(),
        path: "one.wav".to_string(),
    }));
    assert_eq!(req.map(|r| r.name), Some("one".to_string()));
}

#[test]
fn loaded_waveform_reaches_the_named_oscillator() {
    let mut rack = stock_patch(250);
    let data: Vec<i16> = vec![7; 600];
    rack.load_custom_into(&"wto1".to_string(), &data);
    match &rack.components[0] {
        AvailableComponents::WaveTableOsc(o) => {
            assert_eq!(o.which_table, modsynth::osc::WaveTableChoice::Custom);
            assert_eq!(o.wt[1], 7);
            assert_eq!(o.wt[599], 7);
            assert_eq!(o.wt[600], 0);
        },
        _ => panic!("oscillator expected"),
    }
}

#[test]
fn current_beat_reads_the_sequencer() {
    let mut rack = stock_patch(250);
    assert_eq!(rack.current_beat(), Some(0));
    for _ in 0..250 {
        rack.run_sample();
    }
    assert_eq!(rack.current_beat(), Some(1));
}

#[test]
fn last_wire_wins_on_a_shared_destination() {
    let components = vec![
        ("m1".to_string(), AvailableComponents::Mixer(Mixer::new())),
        ("m2".to_string(), AvailableComponents::Mixer(Mixer::new())),
        ("sink".to_string(), AvailableComponents::Vca(Vca::new(32767))),
    ];
    // both mixers drive the same vca input; the later wire must win
    let wires = vec![
        wire("m1", Port::Out, "sink", Port::InCv),
        wire("m2", Port::Out, "sink", Port::InCv),
    ];
    let mut rack = Rack::new(components, wires, &"sink".to_string(), 1000).unwrap();
    match &mut rack.components[0] {
        AvailableComponents::Mixer(m) => {
            m.write(Port::A, 10000);
            m.write(Port::ALvl, 32767);
        },
        _ => panic!(),
    }
    match &mut rack.components[1] {
        AvailableComponents::Mixer(m) => {
            m.write(Port::A, 20000);
            m.write(Port::ALvl, 32767);
        },
        _ => panic!(),
    }
    rack.run_sample();
    match &rack.components[2] {
        AvailableComponents::Vca(v) => {
            // m2's scaled output, not m1's
            assert_eq!(v.in_cv, ((20000i64 * 32767) >> 15) as i16);
        },
        _ => panic!(),
    }
}
