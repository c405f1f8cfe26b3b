use modsynth::osc::{
    saw_table,
    square_table,
    triangle_table,
    white_noise_table,
    FuncOsc,
    FuncWave,
    WaveTableChoice,
    WaveTableOsc,
    WaveTables,
};
use modsynth::util::Port;

fn flat_map(note: usize, ipc: u32) -> Vec<u32> {
    let mut m = vec![0u32; 256];
    m[note] = ipc;
    m
}

/// The CV-to-increment construction the embedding application performs,
/// for checking frequency relationships.
fn ipc_64_for(cv: i16) -> u32 {
    let midi_exp = ((cv as f64) - 69.) / 12.;
    let f = 440. * 2f64.powf(midi_exp);
    let samples_per_point = 44100. / 1024.;
    let ipc = 100. * samples_per_point / f;
    (256. * ipc) as u32
}

#[test]
fn stock_tables_hold_expected_shapes() {
    let saw = saw_table();
    assert_eq!(saw.len(), 1024);
    assert_eq!(saw[0], 32767);
    assert_eq!(saw[1], 32703);
    assert_eq!(saw[512], 0);

    let tri = triangle_table();
    assert_eq!(tri[0], 0);
    assert_eq!(tri[256], 32767);
    assert_eq!(tri[512], 0);
    assert_eq!(tri[768], -32768);
    assert_eq!(tri[1023], -128);

    let sq = square_table();
    assert_eq!(sq[0], 32767);
    assert_eq!(sq[512], 32767);
    assert_eq!(sq[513], -32768);
    assert_eq!(sq[1023], -32768);

    let wn = white_noise_table();
    assert_eq!(wn.len(), 1024);
    assert_eq!(wn[0], 0);
}

#[test]
fn wavetable_output_is_periodic_without_modulation() {
    // one table pass takes 4 * ipc samples
    let p: u32 = 500;
    let tables = WaveTables::new(vec![0; 1024]);
    let mut o = WaveTableOsc::saw(tables, flat_map(69, p), 69);
    let period = (4 * p) as usize;
    let first: Vec<i16> = (0..period).map(|_| {
        o.step();
        o.read(Port::Out)
    }).collect();
    let second: Vec<i16> = (0..period).map(|_| {
        o.step();
        o.read(Port::Out)
    }).collect();
    assert_eq!(first, second);
    assert!(first.iter().any(|&v| v != first[0]), "the wave must move");
}

#[test]
fn octave_step_doubles_the_increment() {
    // one octave up the period halves, so the increment-per-cycle halves
    let low = ipc_64_for(69);
    let high = ipc_64_for(81);
    let ratio = low as f64 / high as f64;
    assert!((ratio - 2.0).abs() < 0.01, "ratio {}", ratio);
}

#[test]
fn invalid_note_indices_hold_state() {
    let tables = WaveTables::new(vec![0; 1024]);
    let mut o = WaveTableOsc::square(tables, flat_map(69, 500), -3);
    o.step();
    assert_eq!(o.counter, 0);
    assert_eq!(o.read(Port::Out), 0);
    // a note with a zero increment cannot advance either
    o.write(Port::Freq, 70);
    o.step();
    assert_eq!(o.counter, 0);
}

#[test]
fn load_custom_copies_from_index_one() {
    let tables = WaveTables::new(vec![0; 1024]);
    let mut o = WaveTableOsc::sin(tables, flat_map(69, 500), 69);
    let data: Vec<i16> = (0..2000).map(|x| x as i16).collect();
    o.load_custom(&data);
    assert_eq!(o.which_table, WaveTableChoice::Custom);
    assert_eq!(o.wt[0], 0);  // the first slot is never copied
    assert_eq!(o.wt[1], 1);
    assert_eq!(o.wt[1023], 1023);
}

#[test]
fn func_osc_square_walks_its_cycle() {
    // increment 64 advances one table entry per sample (64 >> 6)
    let mut o = FuncOsc::square(64);
    o.step();
    assert_eq!(o.read(Port::Out), 32767);
    for _ in 0..511 {
        o.step();
    }
    // entry 512 is still high, 513 is low
    assert_eq!(o.read(Port::Out), 32767);
    o.step();
    assert_eq!(o.read(Port::Out), -32768);
}

#[test]
fn func_osc_modulation_shifts_phase() {
    let mut a = FuncOsc::new(FuncWave::Saw, 64);
    let mut b = FuncOsc::new(FuncWave::Saw, 64);
    b.write(Port::ModulationIdx, 32767);
    b.write(Port::Modulation, 32767);
    a.step();
    b.step();
    // full-depth modulation must displace the accumulator
    assert_ne!(a.counter, b.counter);
}

#[test]
fn white_noise_func_osc_still_advances_phase() {
    let mut o = FuncOsc::white_noise(64);
    o.step();
    assert_eq!(o.counter, 64);
    o.step();
    assert_eq!(o.counter, 128);
}
