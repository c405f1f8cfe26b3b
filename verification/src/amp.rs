//! Voltage-controlled amplifier: one fixed-point multiply interpreted as
//! amplitude scaling in [-1, 1).

use vstd::prelude::*;
use crate::fixed::{scale_q15, wrap_i16};
use crate::util::{Component, Port};

verus! {

/// Per-sample amplitude scaler: `out = (amp_cv * in_cv) >> 15`.
pub struct Vca {
    pub in_cv: i16,
    pub amp_cv: i16,
    pub out_cv: i16,
    pub dummy: i16,
}

impl Vca {
    pub fn new(init_amp_cv: i16) -> (r: Vca)
        ensures
            r == (Vca { in_cv: 0, amp_cv: init_amp_cv, out_cv: 0, dummy: 0 }),
    {
        Vca { in_cv: 0, amp_cv: init_amp_cv, out_cv: 0, dummy: 0 }
    }

    /// One sample: the output becomes the Q1.15-scaled input; nothing else
    /// moves.
    pub open spec fn step_spec(self) -> Vca {
        Vca { out_cv: wrap_i16((self.amp_cv * self.in_cv) / 0x8000) as i16, ..self }
    }

    pub fn step(&mut self)
        ensures
            *final(self) == old(self).step_spec(),
    {
        self.out_cv = scale_q15(self.amp_cv, self.in_cv);
    }

    pub fn tick(&mut self)
        ensures
            *final(self) == *old(self),
    {
    }

    pub open spec fn read_spec(self, port: Port) -> i16 {
        match port {
            Port::Out => self.out_cv,
            _ => 0,
        }
    }

    pub fn read(&self, port: Port) -> (v: i16)
        ensures
            v == self.read_spec(port),
    {
        match port {
            Port::Out => self.out_cv,
            _ => 0,
        }
    }

    pub open spec fn write_spec(self, port: Port, v: i16) -> Vca {
        match port {
            Port::AmpCv => Vca { amp_cv: v, ..self },
            Port::InCv => Vca { in_cv: v, ..self },
            _ => Vca { dummy: v, ..self },
        }
    }

    pub fn write(&mut self, port: Port, v: i16)
        ensures
            *final(self) == old(self).write_spec(port, v),
    {
        match port {
            Port::AmpCv => self.amp_cv = v,
            Port::InCv => self.in_cv = v,
            _ => self.dummy = v,
        }
    }
}

impl Component for Vca {
    open spec fn inv(&self) -> bool {
        true
    }

    fn step(&mut self) {
        Vca::step(self)
    }

    fn tick(&mut self) {
        Vca::tick(self)
    }

    fn inputs(&self) -> Vec<&'static str> {
        let mut v: Vec<&'static str> = Vec::new();
        v.push("amp_cv");
        v.push("in_cv");
        v
    }

    fn outputs(&self) -> Vec<&'static str> {
        let mut v: Vec<&'static str> = Vec::new();
        v.push("out");
        v
    }

    fn read(&self, port: Port) -> i16 {
        Vca::read(self, port)
    }

    fn write(&mut self, port: Port, v: i16) {
        Vca::write(self, port, v)
    }
}

} // verus!
