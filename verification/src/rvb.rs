//! Multi-tap delay reverb: parallel comb-filter taps, each with its own
//! circular buffer, delay length and feedback gain.
//!
//! Gains are Q1.15 fractions in [0, 1).  Per sample, each tap attenuates
//! the running dry value by `1 - gain`, blends in the delayed sample
//! attenuated by `1 - gain^2`, and stores the input plus the `gain`-scaled
//! resident sample back at the current position.  Tap lengths differ on
//! purpose (comb diversity); each position advances modulo its own length.

use vstd::prelude::*;
use crate::fixed::{clamp_i16, clamp_to_i16, div_floor};
use crate::util::{Component, Port};

verus! {

/// One comb-filter tap: a circular buffer sized to its delay, and a Q1.15
/// feedback gain.
pub struct Tap {
    pub buffer: Vec<i16>,
    pub gain: i16,
}

impl Tap {
    /// Well-formed: a tap has at least one slot (a zero delay could not
    /// advance), and its gain is a non-negative Q1.15 fraction.
    pub open spec fn wf(self) -> bool {
        &&& self.buffer.len() >= 1
        &&& self.gain >= 0
    }
}

/// The running value after one tap: the dry path attenuated by
/// `1 - gain`, plus the sample `delay` positions behind attenuated by
/// `1 - gain^2`, clamped.
pub open spec fn tap_mix(t: Tap, inv: int, counter: int) -> int {
    let d = t.buffer.len() as int;
    let pos = counter % d;
    let di = (pos + 1) % d;
    let dry = (inv * (0x8000 - t.gain)) / 0x8000;
    let g2 = (t.gain * t.gain) / 0x8000;
    let wet = ((0x8000 - g2) * t.buffer@[di]) / 0x8000;
    clamp_i16(dry + wet)
}

/// What a tap stores back at the current position: the input plus the
/// `gain`-scaled sample already resident, clamped.
pub open spec fn tap_feedback(t: Tap, cv: i16, counter: int) -> int {
    let d = t.buffer.len() as int;
    let pos = counter % d;
    clamp_i16(cv + (t.gain * t.buffer@[pos]) / 0x8000)
}

/// The running value after the first `k` taps have mixed into the input.
pub open spec fn inv_chain(taps: Seq<Tap>, cv: i16, counter: int, k: int) -> int
    decreases k,
{
    if k <= 0 {
        cv as int
    } else {
        tap_mix(taps[k - 1], inv_chain(taps, cv, counter, k - 1), counter)
    }
}

/// The reverb stage: the sum of all taps is what reaches `out`.
pub struct BasicReverb {
    pub taps: Vec<Tap>,
    pub cv_in: i16,
    pub out_cv: i16,
    pub dummy: i16,
    pub counter: usize,
}

impl BasicReverb {
    pub open spec fn wf(self) -> bool {
        forall|k: int| 0 <= k < self.taps.len() ==> (#[trigger] self.taps@[k]).wf()
    }

    /// Build a reverb with one tap per delay length, zeroed buffers.
    pub fn new(delays: &Vec<usize>, gains: &Vec<i16>) -> (r: BasicReverb)
        requires
            delays.len() == gains.len(),
            forall|k: int| 0 <= k < delays.len() ==> #[trigger] delays@[k] >= 1,
            forall|k: int| 0 <= k < gains.len() ==> #[trigger] gains@[k] >= 0,
        ensures
            r.wf(),
            r.taps@.len() == delays@.len(),
            forall|k: int|
                0 <= k < delays.len() ==> (#[trigger] r.taps@[k]).buffer@.len() == delays@[k]
                    && r.taps@[k].gain == gains@[k] && forall|j: int|
                    0 <= j < delays@[k] ==> r.taps@[k].buffer@[j] == 0,
            r.cv_in == 0 && r.out_cv == 0 && r.counter == 0,
    {
        let mut taps: Vec<Tap> = Vec::new();
        let mut k: usize = 0;
        while k < delays.len()
            invariant
                k <= delays.len(),
                delays.len() == gains.len(),
                taps@.len() == k,
                forall|i: int| 0 <= i < delays.len() ==> #[trigger] delays@[i] >= 1,
                forall|i: int| 0 <= i < gains.len() ==> #[trigger] gains@[i] >= 0,
                forall|i: int|
                    0 <= i < k ==> (#[trigger] taps@[i]).buffer@.len() == delays@[i]
                        && taps@[i].gain == gains@[i] && forall|j: int|
                        0 <= j < delays@[i] ==> taps@[i].buffer@[j] == 0,
            decreases delays.len() - k,
        {
            let d: usize = delays[k];
            let mut buffer: Vec<i16> = Vec::new();
            let mut j: usize = 0;
            while j < d
                invariant
                    j <= d,
                    buffer@.len() == j,
                    forall|i: int| 0 <= i < j ==> buffer@[i] == 0,
                decreases d - j,
            {
                buffer.push(0);
                j = j + 1;
            }
            taps.push(Tap { buffer, gain: gains[k] });
            k = k + 1;
        }
        BasicReverb { taps, cv_in: 0, out_cv: 0, dummy: 0, counter: 0 }
    }

    /// What one sample does: each tap's buffer takes its feedback value at
    /// the current position, the output is the serial mix of all taps, and
    /// the position counter advances (wrapping after the whole word is
    /// exhausted).  Stated as a relation because a fresh buffer value can
    /// only be described through its view.
    pub open spec fn step_rel(pre: BasicReverb, post: BasicReverb) -> bool {
        &&& post.taps@.len() == pre.taps@.len()
        &&& forall|k: int|
            0 <= k < pre.taps@.len() ==> {
                let t = #[trigger] pre.taps@[k];
                &&& post.taps@[k].gain == t.gain
                &&& post.taps@[k].buffer@ == t.buffer@.update(
                    pre.counter as int % t.buffer@.len() as int,
                    tap_feedback(t, pre.cv_in, pre.counter as int) as i16,
                )
            }
        &&& post.out_cv == inv_chain(
            pre.taps@,
            pre.cv_in,
            pre.counter as int,
            pre.taps@.len() as int,
        ) as i16
        &&& post.counter == (if pre.counter == usize::MAX {
            0int
        } else {
            pre.counter + 1
        })
        &&& post.cv_in == pre.cv_in
        &&& post.dummy == pre.dummy
    }

    /// One sample.  Taps mix serially into the running value; each stores
    /// its feedback sample; the position counter advances.
    pub fn step(&mut self)
        requires
            old(self).wf(),
        ensures
            final(self).wf(),
            BasicReverb::step_rel(*old(self), *final(self)),
    {
        let cv: i16 = self.cv_in;
        let cnt: usize = self.counter;
        let n: usize = self.taps.len();
        let mut inv: i16 = cv;
        let mut k: usize = 0;
        while k < n
            invariant
                k <= n,
                n == self.taps@.len(),
                n == old(self).taps@.len(),
                cv == old(self).cv_in,
                cnt == old(self).counter,
                old(self).wf(),
                self.cv_in == old(self).cv_in,
                self.out_cv == old(self).out_cv,
                self.dummy == old(self).dummy,
                self.counter == old(self).counter,
                forall|j: int| k <= j < n ==> self.taps@[j] == old(self).taps@[j],
                forall|j: int|
                    0 <= j < k ==> {
                        let t = #[trigger] old(self).taps@[j];
                        &&& self.taps@[j].gain == t.gain
                        &&& self.taps@[j].buffer@ == t.buffer@.update(
                            cnt as int % t.buffer@.len() as int,
                            tap_feedback(t, cv, cnt as int) as i16,
                        )
                    },
                inv == inv_chain(old(self).taps@, cv, cnt as int, k as int),
            decreases n - k,
        {
            let ghost t0 = self.taps@[k as int];
            let d: usize = self.taps[k].buffer.len();
            let g: i16 = self.taps[k].gain;
            let pos: usize = cnt % d;
            let di: usize = (pos + 1) % d;
            proof {
                lemma_q15_prod_bounds(inv as int, 0x8000 - g);
                lemma_q15_gain_sq_bounds(g as int);
            }
            let dry: i64 = div_floor((inv as i64) * (0x8000 - (g as i64)), 0x8000);
            let g2: i64 = div_floor((g as i64) * (g as i64), 0x8000);
            let delayed: i16 = self.taps[k].buffer[di];
            proof {
                lemma_q15_prod_bounds(delayed as int, 0x8000 - g2);
            }
            let wet: i64 = div_floor((0x8000 - g2) * (delayed as i64), 0x8000);
            let resident: i16 = self.taps[k].buffer[pos];
            proof {
                lemma_q15_prod_bounds(resident as int, g as int);
            }
            let fb: i16 = clamp_to_i16((cv as i64) + div_floor(
                (g as i64) * (resident as i64),
                0x8000,
            ));
            inv = clamp_to_i16(dry + wet);
            let tap = &mut self.taps[k];
            tap.buffer[pos] = fb;
            k = k + 1;
        }
        self.out_cv = inv;
        self.counter = self.counter.wrapping_add(1);
        proof {
            assert forall|j: int| 0 <= j < self.taps@.len() implies (#[trigger] self.taps@[j]).wf() by {
                assert(old(self).taps@[j].wf());
            }
        }
    }

    pub fn tick(&mut self)
        ensures
            *final(self) == *old(self),
    {
    }

    pub open spec fn read_spec(self, port: Port) -> i16 {
        match port {
            Port::Out => self.out_cv,
            _ => 0,
        }
    }

    pub fn read(&self, port: Port) -> (v: i16)
        ensures
            v == self.read_spec(port),
    {
        match port {
            Port::Out => self.out_cv,
            _ => 0,
        }
    }

    pub open spec fn write_spec(self, port: Port, v: i16) -> BasicReverb {
        match port {
            Port::CvIn => BasicReverb { cv_in: v, ..self },
            _ => BasicReverb { dummy: v, ..self },
        }
    }

    pub fn write(&mut self, port: Port, v: i16)
        ensures
            *final(self) == old(self).write_spec(port, v),
    {
        match port {
            Port::CvIn => self.cv_in = v,
            _ => self.dummy = v,
        }
    }
}

proof fn lemma_q15_prod_bounds(a: int, b: int)
    by (nonlinear_arith)
    requires
        -0x8000 <= a <= 0x7fff,
        0 <= b <= 0x8000,
    ensures
        -0x4000_0000 <= a * b <= 0x4000_0000,
        a * b == b * a,
        -0x8000 <= (a * b) / 0x8000 <= 0x7fff,
        -0x8000 <= (b * a) / 0x8000 <= 0x7fff,
        (b * a) / 0x8000 == (a * b) / 0x8000,
{
}

proof fn lemma_q15_gain_sq_bounds(g: int)
    by (nonlinear_arith)
    requires
        0 <= g <= 0x7fff,
    ensures
        0 <= (g * g) / 0x8000 <= 0x7fff,
        0 <= g * g <= 0x4000_0000,
{
}

impl Component for BasicReverb {
    open spec fn inv(&self) -> bool {
        self.wf()
    }

    fn step(&mut self) {
        BasicReverb::step(self)
    }

    fn tick(&mut self) {
        BasicReverb::tick(self)
    }

    fn inputs(&self) -> Vec<&'static str> {
        let mut v: Vec<&'static str> = Vec::new();
        v.push("cv_in");
        v
    }

    fn outputs(&self) -> Vec<&'static str> {
        let mut v: Vec<&'static str> = Vec::new();
        v.push("out");
        v
    }

    fn read(&self, port: Port) -> i16 {
        BasicReverb::read(self, port)
    }

    fn write(&mut self, port: Port, v: i16) {
        BasicReverb::write(self, port, v)
    }
}

} // verus!
