//! Two-input mixer: each input scaled by its own level, summed with
//! saturating addition.

use vstd::prelude::*;
use crate::fixed::{clamp_i16, clamp_to_i16, scale_q15, wrap_i16};
use crate::util::{Component, Port};

verus! {

/// Weighted two-channel mixer with clamped (never wrapping) summation.
pub struct Mixer {
    pub a: i16,
    pub a_lvl: i16,
    pub b: i16,
    pub b_lvl: i16,
    pub out: i16,
    pub dummy: i16,
}

impl Mixer {
    pub fn new() -> (r: Mixer)
        ensures
            r == (Mixer { a: 0, a_lvl: 0, b: 0, b_lvl: 0, out: 0, dummy: 0 }),
    {
        Mixer { a: 0, a_lvl: 0, b: 0, b_lvl: 0, out: 0, dummy: 0 }
    }

    /// The Q1.15-scaled value of one input channel.
    pub open spec fn scaled(lvl: i16, x: i16) -> int {
        wrap_i16((lvl * x) / 0x8000)
    }

    /// One sample: scale both inputs, sum, clamp to `i16` range.
    pub open spec fn step_spec(self) -> Mixer {
        Mixer {
            out: clamp_i16(
                Mixer::scaled(self.a_lvl, self.a) + Mixer::scaled(self.b_lvl, self.b),
            ) as i16,
            ..self
        }
    }

    pub fn step(&mut self)
        ensures
            *final(self) == old(self).step_spec(),
    {
        let sa: i16 = scale_q15(self.a_lvl, self.a);
        let sb: i16 = scale_q15(self.b_lvl, self.b);
        self.out = clamp_to_i16((sa as i64) + (sb as i64));
    }

    pub fn tick(&mut self)
        ensures
            *final(self) == *old(self),
    {
    }

    pub open spec fn read_spec(self, port: Port) -> i16 {
        match port {
            Port::Out => self.out,
            _ => 0,
        }
    }

    pub fn read(&self, port: Port) -> (v: i16)
        ensures
            v == self.read_spec(port),
    {
        match port {
            Port::Out => self.out,
            _ => 0,
        }
    }

    pub open spec fn write_spec(self, port: Port, v: i16) -> Mixer {
        match port {
            Port::A => Mixer { a: v, ..self },
            Port::ALvl => Mixer { a_lvl: v, ..self },
            Port::B => Mixer { b: v, ..self },
            Port::BLvl => Mixer { b_lvl: v, ..self },
            _ => Mixer { dummy: v, ..self },
        }
    }

    pub fn write(&mut self, port: Port, v: i16)
        ensures
            *final(self) == old(self).write_spec(port, v),
    {
        match port {
            Port::A => self.a = v,
            Port::ALvl => self.a_lvl = v,
            Port::B => self.b = v,
            Port::BLvl => self.b_lvl = v,
            _ => self.dummy = v,
        }
    }
}

impl Component for Mixer {
    open spec fn inv(&self) -> bool {
        true
    }

    fn step(&mut self) {
        Mixer::step(self)
    }

    fn tick(&mut self) {
        Mixer::tick(self)
    }

    fn inputs(&self) -> Vec<&'static str> {
        let mut v: Vec<&'static str> = Vec::new();
        v.push("a");
        v.push("a_lvl");
        v.push("b");
        v.push("b_lvl");
        v
    }

    fn outputs(&self) -> Vec<&'static str> {
        let mut v: Vec<&'static str> = Vec::new();
        v.push("out");
        v
    }

    fn read(&self, port: Port) -> i16 {
        Mixer::read(self, port)
    }

    fn write(&mut self, port: Port, v: i16) {
        Mixer::write(self, port, v)
    }
}

/// Law: the mixer saturates instead of wrapping.  Whenever the sum of the
/// two scaled inputs leaves `i16` range, the output is pinned to the nearest
/// representable boundary; inside the range the sum passes through exactly.
pub proof fn lemma_mixer_saturation(m: Mixer)
    ensures
        Mixer::scaled(m.a_lvl, m.a) + Mixer::scaled(m.b_lvl, m.b) > 0x7fff ==> m.step_spec().out
            == 0x7fff,
        Mixer::scaled(m.a_lvl, m.a) + Mixer::scaled(m.b_lvl, m.b) < -0x8000 ==> m.step_spec().out
            == -0x8000,
        -0x8000 <= Mixer::scaled(m.a_lvl, m.a) + Mixer::scaled(m.b_lvl, m.b) <= 0x7fff
            ==> m.step_spec().out == Mixer::scaled(m.a_lvl, m.a) + Mixer::scaled(m.b_lvl, m.b),
{
}

} // verus!
