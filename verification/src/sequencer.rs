//! Step sequencer: a dual-rate clock over a 16-step beat pattern.
//!
//! `tick` runs on musical-subdivision boundaries and advances the beat
//! index; `step` runs every audio sample and bounds how long a gate signal of an
//! active step stays open.  Collapsing the two rates would tie gate length
//! to tempo; they are kept strictly apart.

use vstd::prelude::*;
use vstd::arithmetic::div_mod::{lemma_add_mod_noop, lemma_mod_bound, lemma_small_mod};
use crate::util::{Component, Port};

verus! {

/// The sequencer.  The beat pattern marks which of the 16 steps fire; the
/// parallel gate-length array says how many thousandth-scaled samples each
/// step's gate may stay open.  The control plane edits both through the
/// setters; the engine reads them every sample.
pub struct BasicSeq {
    pub tempo: i16,
    pub beats: Vec<bool>,
    pub beat_len: Vec<i16>,
    pub gate: i16,
    pub trigger: i16,
    pub counter: u32,
    pub beat: i16,
    pub dummy: i16,
}

impl BasicSeq {
    /// Well-formed: both shared arrays hold 16 entries, gate lengths are
    /// non-negative, and the beat index points at a step.
    pub open spec fn wf(self) -> bool {
        &&& self.beats.len() == 16
        &&& self.beat_len.len() == 16
        &&& 0 <= self.beat < 16
        &&& forall|i: int| 0 <= i < 16 ==> self.beat_len[i] >= 0
    }

    pub fn new(beats: Vec<bool>, beat_len: Vec<i16>) -> (r: BasicSeq)
        requires
            beats.len() == 16,
            beat_len.len() == 16,
            forall|i: int| 0 <= i < 16 ==> beat_len[i] >= 0,
        ensures
            r.wf(),
            r.beats == beats,
            r.beat_len == beat_len,
            r.tempo == 0 && r.gate == 0 && r.trigger == 0 && r.counter == 0 && r.beat == 0,
    {
        BasicSeq { tempo: 0, beats, beat_len, gate: 0, trigger: 0, counter: 0, beat: 0, dummy: 0 }
    }

    /// One audio sample.  The trigger pulse lasts exactly one sample, so it
    /// clears first.  On an active step the elapsed counter advances; if it
    /// wraps, a defensive reset forces its gate signal low; once it passes the
    /// step's configured hold length its gate signal goes low.
    pub open spec fn step_spec(self) -> BasicSeq {
        if !self.beats[self.beat as int] {
            BasicSeq { trigger: 0, ..self }
        } else {
            let c2: u32 = if self.counter == u32::MAX {
                0
            } else {
                (self.counter + 1) as u32
            };
            let g2: i16 = if self.counter == u32::MAX {
                0
            } else {
                self.gate
            };
            let g3: i16 = if 1000 * self.beat_len[self.beat as int] < c2 {
                0
            } else {
                g2
            };
            BasicSeq { trigger: 0, counter: c2, gate: g3, ..self }
        }
    }

    pub fn step(&mut self)
        requires
            old(self).wf(),
        ensures
            *final(self) == old(self).step_spec(),
            final(self).wf(),
    {
        self.trigger = 0;
        if self.beats[self.beat as usize] {
            if self.counter == u32::MAX {
                self.counter = 0;
                self.gate = 0;
            } else {
                self.counter = self.counter + 1;
            }
            if 1000 * (self.beat_len[self.beat as usize] as u32) < self.counter {
                self.gate = 0;
            }
        }
    }

    /// One musical subdivision: advance the beat index modulo 16; an active
    /// new step raises its gate signal and emits a one-sample trigger pulse, an
    /// inactive one closes both; either way the elapsed counter restarts.
    pub open spec fn tick_spec(self) -> BasicSeq {
        let b2 = ((self.beat + 1) % 16) as i16;
        if self.beats[b2 as int] {
            BasicSeq { beat: b2, gate: 0x7fff, trigger: 0x7fff, counter: 0, ..self }
        } else {
            BasicSeq { beat: b2, gate: 0, trigger: 0, counter: 0, ..self }
        }
    }

    pub fn tick(&mut self)
        requires
            old(self).wf(),
        ensures
            *final(self) == old(self).tick_spec(),
            final(self).wf(),
    {
        self.beat = (self.beat + 1) % 16;
        if self.beats[self.beat as usize] {
            self.gate = 0x7fff;
            self.trigger = 0x7fff;
            self.counter = 0;
        } else {
            self.gate = 0;
            self.trigger = 0;
            self.counter = 0;
        }
    }

    /// Edit one step of the shared beat pattern.
    pub fn set_beat(&mut self, i: usize, b: bool)
        requires
            old(self).wf(),
            i < 16,
        ensures
            final(self).wf(),
            final(self).beats@ == old(self).beats@.update(i as int, b),
            *final(self) == (BasicSeq { beats: final(self).beats, ..*old(self) }),
    {
        self.beats[i] = b;
    }

    /// Edit one step's gate-hold length.
    pub fn set_beat_len(&mut self, i: usize, len: i16)
        requires
            old(self).wf(),
            i < 16,
            len >= 0,
        ensures
            final(self).wf(),
            final(self).beat_len@ == old(self).beat_len@.update(i as int, len),
            *final(self) == (BasicSeq { beat_len: final(self).beat_len, ..*old(self) }),
    {
        self.beat_len[i] = len;
    }

    pub open spec fn read_spec(self, port: Port) -> i16 {
        match port {
            Port::Beat => self.beat,
            Port::Gate => self.gate,
            Port::Trigger => self.trigger,
            _ => 0,
        }
    }

    pub fn read(&self, port: Port) -> (v: i16)
        ensures
            v == self.read_spec(port),
    {
        match port {
            Port::Beat => self.beat,
            Port::Gate => self.gate,
            Port::Trigger => self.trigger,
            _ => 0,
        }
    }

    pub open spec fn write_spec(self, port: Port, v: i16) -> BasicSeq {
        match port {
            Port::Tempo => BasicSeq { tempo: v, ..self },
            _ => BasicSeq { dummy: v, ..self },
        }
    }

    pub fn write(&mut self, port: Port, v: i16)
        ensures
            *final(self) == old(self).write_spec(port, v),
    {
        match port {
            Port::Tempo => self.tempo = v,
            _ => self.dummy = v,
        }
    }
}

impl Component for BasicSeq {
    open spec fn inv(&self) -> bool {
        self.wf()
    }

    fn step(&mut self) {
        BasicSeq::step(self)
    }

    fn tick(&mut self) {
        BasicSeq::tick(self)
    }

    fn inputs(&self) -> Vec<&'static str> {
        let mut v: Vec<&'static str> = Vec::new();
        v.push("tempo");
        v
    }

    fn outputs(&self) -> Vec<&'static str> {
        let mut v: Vec<&'static str> = Vec::new();
        v.push("gate");
        v.push("trigger");
        v.push("beat");
        v
    }

    fn read(&self, port: Port) -> i16 {
        BasicSeq::read(self, port)
    }

    fn write(&mut self, port: Port, v: i16) {
        BasicSeq::write(self, port, v)
    }
}

/// `k` musical ticks from `s`.
pub open spec fn tick_n(s: BasicSeq, k: nat) -> BasicSeq
    decreases k,
{
    if k == 0 {
        s
    } else {
        tick_n(s, (k - 1) as nat).tick_spec()
    }
}

/// Law: sequencer periodicity.  Ticking never touches the pattern, the
/// beat index walks the 16 steps cyclically, and after every tick the
/// trigger (and the freshly opened gate) is high exactly on the steps the
/// pattern marks active.  In particular the trigger sequence repeats with
/// period 16.
pub proof fn lemma_seq_periodicity(s: BasicSeq, k: nat)
    requires
        s.wf(),
    ensures
        tick_n(s, k).wf(),
        tick_n(s, k).beats == s.beats,
        tick_n(s, k).beat == (s.beat + k) % 16,
        k > 0 ==> tick_n(s, k).trigger == (if s.beats[(s.beat + k) % 16] {
            0x7fff as i16
        } else {
            0 as i16
        }),
        k > 0 ==> tick_n(s, k).gate == tick_n(s, k).trigger,
        tick_n(s, (k + 16) as nat).beat == tick_n(s, k).beat,
        k > 0 ==> tick_n(s, (k + 16) as nat).trigger == tick_n(s, k).trigger,
{
    lemma_tick_n_props(s, k);
    lemma_tick_n_props(s, (k + 16) as nat);
    lemma_beat_mod_cycle(s, k);
}

proof fn lemma_tick_n_props(s: BasicSeq, k: nat)
    requires
        s.wf(),
    ensures
        tick_n(s, k).wf(),
        tick_n(s, k).beats == s.beats,
        tick_n(s, k).beat == (s.beat + k) % 16,
        k > 0 ==> tick_n(s, k).trigger == (if s.beats[(s.beat + k) % 16] {
            0x7fff as i16
        } else {
            0 as i16
        }),
        k > 0 ==> tick_n(s, k).gate == tick_n(s, k).trigger,
    decreases k,
{
    if k == 0 {
        lemma_small_mod(s.beat as nat, 16);
    } else {
        lemma_tick_n_props(s, (k - 1) as nat);
        let prev = tick_n(s, (k - 1) as nat);
        lemma_add_mod_noop(s.beat + (k - 1), 1, 16);
        lemma_mod_bound(s.beat + (k - 1), 16);
        lemma_small_mod(1nat, 16);
        lemma_mod_bound(s.beat + k, 16);
        lemma_small_mod(((s.beat + k) % 16) as nat, 16);
        assert(prev.tick_spec().beat == (s.beat + k) % 16);
    }
}

proof fn lemma_beat_mod_cycle(s: BasicSeq, k: nat)
    ensures
        (s.beat + (k + 16)) % 16 == (s.beat + k) % 16,
{
    lemma_add_mod_noop(s.beat + k, 16, 16);
    assert(16int % 16 == 0) by (nonlinear_arith);
    lemma_mod_bound(s.beat + k, 16);
    lemma_small_mod(((s.beat + k) % 16) as nat, 16);
}

} // verus!
