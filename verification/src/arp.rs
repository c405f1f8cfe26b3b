//! Twelve-tone equal-temper notes and a basic arpeggiator that walks a
//! seven-note scale, one note per trigger.

use vstd::prelude::*;
use crate::fixed::wrap_i16;
use crate::util::{Component, Port};

verus! {

/// Twelve-tone equal-temper notes, piano tuning.
#[derive(Clone, Copy, PartialEq, Eq, Structural, Debug)]
pub enum TtetNote {
    Ab,
    A,
    As,
    Bb,
    B,
    C,
    Cs,
    Db,
    D,
    Ds,
    Eb,
    E,
    F,
    Fs,
    Gb,
    G,
    Gs,
}

impl TtetNote {
    /// The note's semitone offset from A (enharmonic spellings collapse).
    pub open spec fn semitone_spec(self) -> int {
        match self {
            TtetNote::A => 0,
            TtetNote::As => 1,
            TtetNote::Bb => 1,
            TtetNote::B => 2,
            TtetNote::C => 3,
            TtetNote::Cs => 4,
            TtetNote::Db => 4,
            TtetNote::D => 5,
            TtetNote::Ds => 6,
            TtetNote::Eb => 6,
            TtetNote::E => 7,
            TtetNote::F => 8,
            TtetNote::Fs => 9,
            TtetNote::Gb => 9,
            TtetNote::G => 10,
            TtetNote::Gs => 11,
            TtetNote::Ab => 11,
        }
    }

    /// The note a semitone offset from A stands for (sharps preferred).
    pub open spec fn from_semitone_spec(v: int) -> TtetNote {
        let m = v % 12;
        if m == 0 {
            TtetNote::A
        } else if m == 1 {
            TtetNote::As
        } else if m == 2 {
            TtetNote::B
        } else if m == 3 {
            TtetNote::C
        } else if m == 4 {
            TtetNote::Cs
        } else if m == 5 {
            TtetNote::D
        } else if m == 6 {
            TtetNote::Ds
        } else if m == 7 {
            TtetNote::E
        } else if m == 8 {
            TtetNote::F
        } else if m == 9 {
            TtetNote::Fs
        } else if m == 10 {
            TtetNote::G
        } else {
            TtetNote::Gs
        }
    }

    /// Convert a semitone offset from A into a note.
    pub fn from_semitone(v: u16) -> (r: TtetNote)
        ensures
            r == TtetNote::from_semitone_spec(v as int),
    {
        let m: u16 = v % 12;
        if m == 0 {
            TtetNote::A
        } else if m == 1 {
            TtetNote::As
        } else if m == 2 {
            TtetNote::B
        } else if m == 3 {
            TtetNote::C
        } else if m == 4 {
            TtetNote::Cs
        } else if m == 5 {
            TtetNote::D
        } else if m == 6 {
            TtetNote::Ds
        } else if m == 7 {
            TtetNote::E
        } else if m == 8 {
            TtetNote::F
        } else if m == 9 {
            TtetNote::Fs
        } else if m == 10 {
            TtetNote::G
        } else {
            TtetNote::Gs
        }
    }

    /// Convert a note into its semitone offset from A.
    pub fn semitone(&self) -> (v: u16)
        ensures
            v == self.semitone_spec(),
    {
        match self {
            TtetNote::A => 0,
            TtetNote::As => 1,
            TtetNote::Bb => 1,
            TtetNote::B => 2,
            TtetNote::C => 3,
            TtetNote::Cs => 4,
            TtetNote::Db => 4,
            TtetNote::D => 5,
            TtetNote::Ds => 6,
            TtetNote::Eb => 6,
            TtetNote::E => 7,
            TtetNote::F => 8,
            TtetNote::Fs => 9,
            TtetNote::Gb => 9,
            TtetNote::G => 10,
            TtetNote::Gs => 11,
            TtetNote::Ab => 11,
        }
    }

    /// The note `offset` semitones away, walking the pitch classes with the
    /// truncating remainder (a negative remainder wraps through the
    /// unsigned word, as the raw arithmetic has always done).
    pub open spec fn transpose_spec(self, offset: int) -> TtetNote {
        let s = self.semitone_spec() + offset;
        let r = s - 12 * crate::fixed::trunc_div(s, 12);
        let w = if r < 0 {
            r + 0x10000
        } else {
            r
        };
        TtetNote::from_semitone_spec(w)
    }

    /// Step the note by a signed semitone offset.
    pub fn transpose(self, offset: i16) -> (r: TtetNote)
        ensures
            r == self.transpose_spec(offset as int),
    {
        let v: u16 = self.semitone();
        let s: i32 = (v as i32) + (offset as i32);
        let r: i32 = if s >= 0 {
            ((s as u32) % 12) as i32
        } else {
            let m: u32 = ((-s) as u32) % 12;
            -(m as i32)
        };
        proof {
            let si = s as int;
            if s >= 0 {
                assert(si - 12 * (si / 12) == si % 12) by (nonlinear_arith);
            } else {
                assert(si - 12 * (-((-si) / 12)) == -((-si) % 12)) by (nonlinear_arith);
            }
        }
        let w: u16 = if r < 0 {
            (r + 0x10000) as u16
        } else {
            r as u16
        };
        TtetNote::from_semitone(w)
    }

    /// The control-voltage note index the note maps to in a given octave.
    pub open spec fn freq_cv_spec(self, octave: int) -> int {
        let v = self.semitone_spec();
        if octave < 4 {
            69 + (octave - 3) * (12 - v)
        } else {
            wrap_i16(69 + (octave - 3) * v)
        }
    }

    /// Convert the note to a frequency control voltage (a MIDI-style note
    /// index) for the given octave.  The octave must be small enough for
    /// the unsigned intermediate to fit its word.
    pub fn to_freq_cv(&self, octave: u16) -> (r: i16)
        requires
            octave < 4 || (octave - 3) * self.semitone_spec() + 69 <= 0xffff,
        ensures
            r == self.freq_cv_spec(octave as int),
    {
        let v: u16 = self.semitone();
        if octave < 4 {
            proof {
                assert(-36 <= ((octave as int) - 3) * (12 - v) <= 0) by (nonlinear_arith)
                    requires
                        0 <= v <= 11,
                        0 <= octave < 4,
                ;
            }
            let x: i32 = 69 + ((octave as i32) - 3) * (12 - (v as i32));
            x as i16
        } else {
            proof {
                assert(0 <= ((octave as int) - 3) * v <= 0xb_fff4) by (nonlinear_arith)
                    requires
                        0 <= v <= 11,
                        4 <= octave <= 0xffff,
                ;
            }
            let x: i32 = 69 + ((octave as i32) - 3) * (v as i32);
            if x >= 0x8000 {
                proof {
                    assert(wrap_i16(x as int) == x - 0x10000) by (nonlinear_arith)
                        requires
                            0x8000 <= x < 0x10000,
                    ;
                }
                (x - 0x10000) as i16
            } else {
                proof {
                    crate::fixed::lemma_wrap_i16_in_range(x as int);
                }
                x as i16
            }
        }
    }

    /// The seven notes of the major scale on this root.
    pub fn major_scale(&self) -> (r: Vec<TtetNote>)
        ensures
            r@.len() == 7,
            r@[0] == TtetNote::from_semitone_spec(self.semitone_spec() + 0),
            r@[1] == TtetNote::from_semitone_spec(self.semitone_spec() + 2),
            r@[2] == TtetNote::from_semitone_spec(self.semitone_spec() + 4),
            r@[3] == TtetNote::from_semitone_spec(self.semitone_spec() + 5),
            r@[4] == TtetNote::from_semitone_spec(self.semitone_spec() + 7),
            r@[5] == TtetNote::from_semitone_spec(self.semitone_spec() + 9),
            r@[6] == TtetNote::from_semitone_spec(self.semitone_spec() + 11),
    {
        let v: u16 = self.semitone();
        let mut r: Vec<TtetNote> = Vec::new();
        r.push(TtetNote::from_semitone(v + 0));
        r.push(TtetNote::from_semitone(v + 2));
        r.push(TtetNote::from_semitone(v + 4));
        r.push(TtetNote::from_semitone(v + 5));
        r.push(TtetNote::from_semitone(v + 7));
        r.push(TtetNote::from_semitone(v + 9));
        r.push(TtetNote::from_semitone(v + 11));
        r
    }
}

/// A basic arpeggiator: cycles through seven notes, one per trigger pulse.
pub struct BasicArp {
    pub gate_in: i16,
    pub trigger_in: i16,
    pub counter: usize,
    pub notes: Vec<TtetNote>,
    pub note_cv_out: i16,
    pub octave: u16,
    pub dummy: i16,
}

impl BasicArp {
    /// Well-formed: seven notes, the cursor on one of them, and an octave
    /// small enough for every note's control voltage to be computed.
    pub open spec fn wf(self) -> bool {
        &&& self.notes.len() == 7
        &&& self.counter < 7
        &&& (self.octave < 4 || (self.octave - 3) * 11 + 69 <= 0xffff)
    }

    pub fn new() -> (r: BasicArp)
        ensures
            r.wf(),
            r.gate_in == 0 && r.trigger_in == 0 && r.counter == 0 && r.note_cv_out == 0,
            r.octave == 4,
            r.notes@.len() == 7,
            forall|i: int| 0 <= i < 7 ==> r.notes@[i] == TtetNote::Eb,
    {
        let mut notes: Vec<TtetNote> = Vec::new();
        let mut i: usize = 0;
        while i < 7
            invariant
                i <= 7,
                notes@.len() == i,
                forall|j: int| 0 <= j < i ==> notes@[j] == TtetNote::Eb,
            decreases 7 - i,
        {
            notes.push(TtetNote::Eb);
            i = i + 1;
        }
        BasicArp {
            gate_in: 0,
            trigger_in: 0,
            counter: 0,
            notes,
            note_cv_out: 0,
            octave: 4,
            dummy: 0,
        }
    }

    /// One sample: on a raised trigger input, advance to the next note of
    /// the cycle and put out its control voltage; otherwise hold.
    pub open spec fn step_spec(self) -> BasicArp {
        if self.trigger_in != 0 {
            let c2 = (self.counter + 1) % 7;
            BasicArp {
                counter: c2 as usize,
                note_cv_out: self.notes@[c2 as int].freq_cv_spec(self.octave as int) as i16,
                ..self
            }
        } else {
            self
        }
    }

    pub fn step(&mut self)
        requires
            old(self).wf(),
        ensures
            final(self).wf(),
            *final(self) == old(self).step_spec(),
    {
        if self.trigger_in != 0 {
            self.counter = (self.counter + 1) % self.notes.len();
            proof {
                lemma_octave_cv_bounds(
                    self.octave as int,
                    self.notes@[self.counter as int].semitone_spec(),
                );
            }
            self.note_cv_out = self.notes[self.counter].to_freq_cv(self.octave);
        }
    }

    pub fn tick(&mut self)
        ensures
            *final(self) == *old(self),
    {
    }

    pub open spec fn read_spec(self, port: Port) -> i16 {
        match port {
            Port::NoteCvOut => self.note_cv_out,
            _ => 0,
        }
    }

    pub fn read(&self, port: Port) -> (v: i16)
        ensures
            v == self.read_spec(port),
    {
        match port {
            Port::NoteCvOut => self.note_cv_out,
            _ => 0,
        }
    }

    pub open spec fn write_spec(self, port: Port, v: i16) -> BasicArp {
        match port {
            Port::GateIn => BasicArp { gate_in: v, ..self },
            Port::TriggerIn => BasicArp { trigger_in: v, ..self },
            _ => BasicArp { dummy: v, ..self },
        }
    }

    pub fn write(&mut self, port: Port, v: i16)
        ensures
            *final(self) == old(self).write_spec(port, v),
    {
        match port {
            Port::GateIn => self.gate_in = v,
            Port::TriggerIn => self.trigger_in = v,
            _ => self.dummy = v,
        }
    }
}

proof fn lemma_octave_cv_bounds(octave: int, v: int)
    by (nonlinear_arith)
    requires
        0 <= v <= 11,
        octave >= 0,
        octave < 4 || (octave - 3) * 11 + 69 <= 0xffff,
    ensures
        octave < 4 || (octave - 3) * v + 69 <= 0xffff,
        octave < 4 ==> -0x8000 <= 69 + (octave - 3) * (12 - v) <= 0x7fff,
{
}

impl Component for BasicArp {
    open spec fn inv(&self) -> bool {
        self.wf()
    }

    fn step(&mut self) {
        BasicArp::step(self)
    }

    fn tick(&mut self) {
        BasicArp::tick(self)
    }

    fn inputs(&self) -> Vec<&'static str> {
        let mut v: Vec<&'static str> = Vec::new();
        v.push("trigger_in");
        v.push("gate_in");
        v
    }

    fn outputs(&self) -> Vec<&'static str> {
        let mut v: Vec<&'static str> = Vec::new();
        v.push("note_cv_out");
        v
    }

    fn read(&self, port: Port) -> i16 {
        BasicArp::read(self, port)
    }

    fn write(&mut self, port: Port, v: i16) {
        BasicArp::write(self, port, v)
    }
}

} // verus!
