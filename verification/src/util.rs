//! The capability contract every signal module implements, and the port
//! identifier space the patch wiring uses.
//!
//! Port names are strings at graph-construction time; they resolve once to
//! the small closed `Port` enum so the per-sample hot path never compares
//! strings.  Reading a port a module does not expose yields zero; writing
//! one it does not accept lands in a discard slot.  That keeps wiring
//! validation a separate, optional step.

use vstd::prelude::*;

verus! {

/// Samples per second.
pub const RATE: u32 = 44_100;

/// Entries in one wavetable cycle.
pub const WAVE_TABLE_SAMPLES_PER_CYCLE: u32 = 1024;

/// Sub-sample resolution of the phase accumulator: increments per table
/// entry.
pub const WAVE_TABLE_SAMPLES_PER_CYCLE_FACTOR: u32 = 256;

/// Every port name any module exposes, resolved to one closed identifier
/// space.
#[derive(Clone, Copy, PartialEq, Eq, Structural, Debug)]
pub enum Port {
    AttackFor,
    AttackTo,
    DecayFor,
    SustainAt,
    ReleaseFor,
    Trigger,
    Gate,
    Tempo,
    ModulationIdx,
    Modulation,
    Freq,
    A,
    ALvl,
    B,
    BLvl,
    AmpCv,
    InCv,
    CvIn,
    TriggerIn,
    GateIn,
    Out,
    Beat,
    NoteCvOut,
}

impl Port {
    /// Which `Port` a wire's port-name string stands for.
    pub open spec fn spec_from_name(s: Seq<char>) -> Option<Port> {
        if s == "attack_for"@ {
            Some(Port::AttackFor)
        } else if s == "attack_to"@ {
            Some(Port::AttackTo)
        } else if s == "decay_for"@ {
            Some(Port::DecayFor)
        } else if s == "sustain_at"@ {
            Some(Port::SustainAt)
        } else if s == "release_for"@ {
            Some(Port::ReleaseFor)
        } else if s == "trigger"@ {
            Some(Port::Trigger)
        } else if s == "gate"@ {
            Some(Port::Gate)
        } else if s == "tempo"@ {
            Some(Port::Tempo)
        } else if s == "modulation_idx"@ {
            Some(Port::ModulationIdx)
        } else if s == "modulation"@ {
            Some(Port::Modulation)
        } else if s == "freq"@ {
            Some(Port::Freq)
        } else if s == "a"@ {
            Some(Port::A)
        } else if s == "a_lvl"@ {
            Some(Port::ALvl)
        } else if s == "b"@ {
            Some(Port::B)
        } else if s == "b_lvl"@ {
            Some(Port::BLvl)
        } else if s == "amp_cv"@ {
            Some(Port::AmpCv)
        } else if s == "in_cv"@ {
            Some(Port::InCv)
        } else if s == "cv_in"@ {
            Some(Port::CvIn)
        } else if s == "trigger_in"@ {
            Some(Port::TriggerIn)
        } else if s == "gate_in"@ {
            Some(Port::GateIn)
        } else if s == "out"@ {
            Some(Port::Out)
        } else if s == "beat"@ {
            Some(Port::Beat)
        } else if s == "note_cv_out"@ {
            Some(Port::NoteCvOut)
        } else {
            None
        }
    }

    /// Resolve a port-name string, as graph construction does once per wire.
    pub fn from_name(name: &String) -> (r: Option<Port>)
        ensures
            r == Port::spec_from_name(name@),
    {
        if *name == "attack_for".to_owned() {
            Some(Port::AttackFor)
        } else if *name == "attack_to".to_owned() {
            Some(Port::AttackTo)
        } else if *name == "decay_for".to_owned() {
            Some(Port::DecayFor)
        } else if *name == "sustain_at".to_owned() {
            Some(Port::SustainAt)
        } else if *name == "release_for".to_owned() {
            Some(Port::ReleaseFor)
        } else if *name == "trigger".to_owned() {
            Some(Port::Trigger)
        } else if *name == "gate".to_owned() {
            Some(Port::Gate)
        } else if *name == "tempo".to_owned() {
            Some(Port::Tempo)
        } else if *name == "modulation_idx".to_owned() {
            Some(Port::ModulationIdx)
        } else if *name == "modulation".to_owned() {
            Some(Port::Modulation)
        } else if *name == "freq".to_owned() {
            Some(Port::Freq)
        } else if *name == "a".to_owned() {
            Some(Port::A)
        } else if *name == "a_lvl".to_owned() {
            Some(Port::ALvl)
        } else if *name == "b".to_owned() {
            Some(Port::B)
        } else if *name == "b_lvl".to_owned() {
            Some(Port::BLvl)
        } else if *name == "amp_cv".to_owned() {
            Some(Port::AmpCv)
        } else if *name == "in_cv".to_owned() {
            Some(Port::InCv)
        } else if *name == "cv_in".to_owned() {
            Some(Port::CvIn)
        } else if *name == "trigger_in".to_owned() {
            Some(Port::TriggerIn)
        } else if *name == "gate_in".to_owned() {
            Some(Port::GateIn)
        } else if *name == "out".to_owned() {
            Some(Port::Out)
        } else if *name == "beat".to_owned() {
            Some(Port::Beat)
        } else if *name == "note_cv_out".to_owned() {
            Some(Port::NoteCvOut)
        } else {
            None
        }
    }
}

/// The capability contract of a signal module: advance one sample (`step`),
/// advance one musical subdivision (`tick`), and exchange control voltages
/// through named ports.  The closed dispatch enum in the engine calls the
/// inherent methods, whose contracts pin down each module exactly; these
/// trait methods exist so a module can also be driven uniformly.
pub trait Component {
    /// The well-formedness a module keeps between calls.
    spec fn inv(&self) -> bool;

    /// Advance one audio sample.
    fn step(&mut self)
        requires
            old(self).inv(),
        ensures
            final(self).inv(),
    ;

    /// Advance one musical subdivision.
    fn tick(&mut self)
        requires
            old(self).inv(),
        ensures
            final(self).inv(),
    ;

    /// The port names this module accepts writes on.
    fn inputs(&self) -> Vec<&'static str>;

    /// The port names this module exposes reads on.
    fn outputs(&self) -> Vec<&'static str>;

    /// Read a port's current value; an unknown port reads zero.
    fn read(&self, port: Port) -> i16;

    /// Write a port; an unknown port absorbs the write.
    fn write(&mut self, port: Port, v: i16)
        requires
            old(self).inv(),
        ensures
            final(self).inv(),
    ;
}

} // verus!
