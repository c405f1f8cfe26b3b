//! ADSR envelope generator: a five-state machine producing a time-varying
//! control signal.
//!
//! Trigger detection is edge-with-hysteresis: an event fires when the
//! trigger input stands above three quarters of full scale while the
//! previous sample stood below one quarter (one shot, cleared at the end of
//! every step).  Gate detection is level-with-hysteresis: open above three
//! quarters, open it stays until the input falls to one quarter.  All ramps
//! are integer proportional interpolation `delta * elapsed / total`; no
//! floating point enters the control path.

use vstd::prelude::*;
use vstd::arithmetic::div_mod::lemma_div_is_ordered;
use crate::fixed::{clamp_i16, clamp_to_i16, div_trunc, trunc_div};
use crate::util::{Component, Port};

verus! {

/// One quarter of `i16` full scale, the hysteresis low threshold.
pub const QUARTER_SCALE: i16 = 8191;

/// Three quarters of `i16` full scale, the hysteresis high threshold.
pub const THREE_QUARTER_SCALE: i16 = 24573;

#[derive(Clone, Copy, PartialEq, Eq, Structural, Debug)]
pub enum AdsrState {
    Off,
    Attack,
    Decay,
    Sustain,
    Release,
}

/// The envelope generator.  Parameter ports (`attack_for` .. `release_for`)
/// come from the control plane; `trigger` and `gate` are rewritten by the
/// wiring every sample; `out` is the envelope level.
pub struct Adsr {
    pub attack_for: i16,
    pub attack_to: i16,
    pub decay_for: i16,
    pub sustain_at: i16,
    pub release_for: i16,
    pub counter: i16,
    pub dummy: i16,
    pub prev_trigger: i16,
    pub prev_gate: i16,
    pub trigger: i16,
    pub triggered: bool,
    pub gated: bool,
    pub gate: i16,
    pub out: i16,
    pub state: AdsrState,
    pub main_counter: u32,
}

/// A ramp sample: `delta * elapsed / total` truncated toward zero and
/// clamped to `i16` range (a zero `total` yields zero, the value the
/// undefined zero-length ramp degrades to).
pub open spec fn ramp(delta: int, elapsed: int, total: int) -> int {
    if total == 0 {
        0
    } else {
        clamp_i16(trunc_div(delta * elapsed, total))
    }
}

/// Exec ramp evaluation, matching `ramp` exactly.
fn ramp_exec(delta: i64, elapsed: i64, total: i64) -> (r: i16)
    requires
        -0x2_0000 <= delta <= 0x2_0000,
        -0x2_0000 <= elapsed <= 0x2_0000,
        -0x8000 <= total <= 0x8000,
    ensures
        r == ramp(delta as int, elapsed as int, total as int),
{
    if total == 0 {
        0
    } else {
        proof {
            assert(-0x4_0000_0000 <= delta * elapsed <= 0x4_0000_0000 && -(delta * elapsed) == (-delta)
                * elapsed) by (nonlinear_arith)
                requires
                    -0x2_0000 <= delta <= 0x2_0000,
                    -0x2_0000 <= elapsed <= 0x2_0000,
            ;
        }
        if total < 0 {
            // dividing by a negative total negates the quotient
            let p: i64 = (-delta) * elapsed;
            clamp_to_i16(div_trunc(p, -total))
        } else {
            let p: i64 = delta * elapsed;
            clamp_to_i16(div_trunc(p, total))
        }
    }
}

impl Adsr {
    pub fn new() -> (r: Adsr)
        ensures
            r == Adsr::init_spec(),
    {
        Adsr {
            attack_for: 0,
            attack_to: 0,
            decay_for: 0,
            sustain_at: 0,
            release_for: 0,
            counter: 0,
            dummy: 0,
            out: 0,
            triggered: false,
            gated: false,
            prev_trigger: 0,
            prev_gate: 0,
            trigger: 0,
            gate: 0,
            state: AdsrState::Off,
            main_counter: 0,
        }
    }

    /// The freshly constructed envelope: everything zero, state `Off`.
    pub open spec fn init_spec() -> Adsr {
        Adsr {
            attack_for: 0,
            attack_to: 0,
            decay_for: 0,
            sustain_at: 0,
            release_for: 0,
            counter: 0,
            dummy: 0,
            out: 0,
            triggered: false,
            gated: false,
            prev_trigger: 0,
            prev_gate: 0,
            trigger: 0,
            gate: 0,
            state: AdsrState::Off,
            main_counter: 0,
        }
    }

    /// Whether this step sees a fresh trigger edge: above three quarters now,
    /// below one quarter the sample before, and not already consumed.
    pub open spec fn trigger_fires(self) -> bool {
        !self.triggered && self.trigger > THREE_QUARTER_SCALE && self.prev_trigger < QUARTER_SCALE
    }

    /// Whether gating is on this step: hysteresis keeps an on state on
    /// down to one quarter scale, and an off state off up to
    /// three quarters.
    pub open spec fn gate_open(self) -> bool {
        (self.gated && self.gate > QUARTER_SCALE) || (!self.gated && self.gate
            > THREE_QUARTER_SCALE)
    }

    /// The counter advanced one step, holding at the top instead of leaving
    /// `i16` range.
    pub open spec fn counter_inc(c: i16) -> i16 {
        if c == 0x7fff {
            c
        } else {
            (c + 1) as i16
        }
    }

    /// The attack-phase sample: a rising ramp from zero toward `attack_to`.
    pub open spec fn attack_out(self) -> int {
        ramp(self.attack_to as int, self.counter as int, self.attack_for as int)
    }

    /// The decay-phase sample: a falling ramp from `attack_to` to
    /// `sustain_at`, clamped where degenerate parameters would leave range.
    pub open spec fn decay_out(self) -> int {
        clamp_i16(
            ramp(
                self.attack_to - self.sustain_at,
                self.decay_for - self.counter,
                self.decay_for as int,
            ) + self.sustain_at,
        )
    }

    /// The release-phase sample: a falling ramp from `sustain_at` to zero.
    pub open spec fn release_out(self) -> int {
        ramp(self.sustain_at as int, self.release_for - self.counter, self.release_for as int)
    }

    /// One sample of the state machine.  The hysteresis flags are computed
    /// from the current inputs, the previous-input memories advance, and the
    /// single-shot trigger flag is cleared at the end of every step.
    pub open spec fn step_spec(self) -> Adsr {
        let t = self.trigger_fires();
        let g = self.gate_open();
        let base = Adsr {
            prev_trigger: self.trigger,
            prev_gate: self.gate,
            triggered: false,
            gated: g,
            ..self
        };
        match (self.state, t, g) {
            (AdsrState::Off, false, _) => Adsr { counter: 0, ..base },
            (AdsrState::Off, true, _) => Adsr {
                state: AdsrState::Attack,
                counter: 0,
                main_counter: 0,
                ..base
            },
            (_, true, _) => base,
            (AdsrState::Attack, false, true) => {
                let stepped = Adsr { out: self.attack_out() as i16, ..base };
                if self.counter == self.attack_for {
                    Adsr { state: AdsrState::Decay, counter: 0, main_counter: 0, ..stepped }
                } else {
                    Adsr { counter: Adsr::counter_inc(self.counter), ..stepped }
                }
            },
            (AdsrState::Decay, false, true) => {
                let stepped = Adsr { out: self.decay_out() as i16, ..base };
                if self.counter == self.decay_for {
                    Adsr { state: AdsrState::Sustain, counter: 0, main_counter: 0, ..stepped }
                } else {
                    Adsr { counter: Adsr::counter_inc(self.counter), ..stepped }
                }
            },
            (AdsrState::Sustain, false, true) => Adsr { out: self.sustain_at, ..base },
            (AdsrState::Release, false, false) => {
                let stepped = Adsr { out: self.release_out() as i16, ..base };
                if self.counter == self.release_for {
                    Adsr { state: AdsrState::Off, counter: 0, main_counter: 0, ..stepped }
                } else {
                    Adsr { counter: Adsr::counter_inc(self.counter), ..stepped }
                }
            },
            (AdsrState::Release, false, true) => Adsr { gated: false, ..base },
            (_, false, false) => Adsr {
                state: AdsrState::Release,
                counter: 0,
                main_counter: 0,
                ..base
            },
        }
    }

    pub fn step(&mut self)
        ensures
            *final(self) == old(self).step_spec(),
    {
        let t: bool = !self.triggered && self.trigger > THREE_QUARTER_SCALE && self.prev_trigger
            < QUARTER_SCALE;
        let g: bool = (self.gated && self.gate > QUARTER_SCALE) || (!self.gated && self.gate
            > THREE_QUARTER_SCALE);
        self.prev_trigger = self.trigger;
        self.prev_gate = self.gate;
        self.gated = g;
        match (self.state, t, g) {
            (AdsrState::Off, false, _) => {
                self.counter = 0;
            },
            (AdsrState::Off, true, _) => {
                self.state = AdsrState::Attack;
                self.counter = 0;
                self.main_counter = 0;
            },
            (_, true, _) => {},
            (AdsrState::Attack, false, true) => {
                self.out = ramp_exec(
                    self.attack_to as i64,
                    self.counter as i64,
                    self.attack_for as i64,
                );
                if self.counter == self.attack_for {
                    self.state = AdsrState::Decay;
                    self.counter = 0;
                    self.main_counter = 0;
                } else if self.counter != 0x7fff {
                    self.counter = self.counter + 1;
                }
            },
            (AdsrState::Decay, false, true) => {
                let r: i16 = ramp_exec(
                    (self.attack_to as i64) - (self.sustain_at as i64),
                    (self.decay_for as i64) - (self.counter as i64),
                    self.decay_for as i64,
                );
                self.out = clamp_to_i16((r as i64) + (self.sustain_at as i64));
                if self.counter == self.decay_for {
                    self.state = AdsrState::Sustain;
                    self.counter = 0;
                    self.main_counter = 0;
                } else if self.counter != 0x7fff {
                    self.counter = self.counter + 1;
                }
            },
            (AdsrState::Sustain, false, true) => {
                self.out = self.sustain_at;
            },
            (AdsrState::Release, false, false) => {
                self.out = ramp_exec(
                    self.sustain_at as i64,
                    (self.release_for as i64) - (self.counter as i64),
                    self.release_for as i64,
                );
                if self.counter == self.release_for {
                    self.state = AdsrState::Off;
                    self.counter = 0;
                    self.main_counter = 0;
                } else if self.counter != 0x7fff {
                    self.counter = self.counter + 1;
                }
            },
            (AdsrState::Release, false, true) => {
                self.gated = false;
            },
            (_, false, false) => {
                self.state = AdsrState::Release;
                self.counter = 0;
                self.main_counter = 0;
            },
        }
        self.triggered = false;
    }

    pub fn tick(&mut self)
        ensures
            *final(self) == *old(self),
    {
    }

    pub open spec fn read_spec(self, port: Port) -> i16 {
        match port {
            Port::Out => self.out,
            _ => 0,
        }
    }

    pub fn read(&self, port: Port) -> (v: i16)
        ensures
            v == self.read_spec(port),
    {
        match port {
            Port::Out => self.out,
            _ => 0,
        }
    }

    pub open spec fn write_spec(self, port: Port, v: i16) -> Adsr {
        match port {
            Port::AttackFor => Adsr { attack_for: v, ..self },
            Port::AttackTo => Adsr { attack_to: v, ..self },
            Port::DecayFor => Adsr { decay_for: v, ..self },
            Port::SustainAt => Adsr { sustain_at: v, ..self },
            Port::ReleaseFor => Adsr { release_for: v, ..self },
            Port::Trigger => Adsr { trigger: v, ..self },
            Port::Gate => Adsr { gate: v, ..self },
            _ => Adsr { dummy: v, ..self },
        }
    }

    pub fn write(&mut self, port: Port, v: i16)
        ensures
            *final(self) == old(self).write_spec(port, v),
    {
        match port {
            Port::AttackFor => self.attack_for = v,
            Port::AttackTo => self.attack_to = v,
            Port::DecayFor => self.decay_for = v,
            Port::SustainAt => self.sustain_at = v,
            Port::ReleaseFor => self.release_for = v,
            Port::Trigger => self.trigger = v,
            Port::Gate => self.gate = v,
            _ => self.dummy = v,
        }
    }
}

impl Component for Adsr {
    open spec fn inv(&self) -> bool {
        true
    }

    fn step(&mut self) {
        Adsr::step(self)
    }

    fn tick(&mut self) {
        Adsr::tick(self)
    }

    fn inputs(&self) -> Vec<&'static str> {
        let mut v: Vec<&'static str> = Vec::new();
        v.push("attack_for");
        v.push("attack_to");
        v.push("decay_for");
        v.push("sustain_at");
        v.push("release_for");
        v.push("trigger");
        v.push("gate");
        v
    }

    fn outputs(&self) -> Vec<&'static str> {
        let mut v: Vec<&'static str> = Vec::new();
        v.push("out");
        v
    }

    fn read(&self, port: Port) -> i16 {
        Adsr::read(self, port)
    }

    fn write(&mut self, port: Port, v: i16) {
        Adsr::write(self, port, v)
    }
}

proof fn lemma_ramp_monotone(delta: int, e1: int, e2: int, total: int)
    requires
        0 <= delta,
        0 <= e1 <= e2,
        0 < total,
    ensures
        ramp(delta, e1, total) <= ramp(delta, e2, total),
{
    assert(0 <= delta * e1 <= delta * e2) by (nonlinear_arith)
        requires
            0 <= delta,
            0 <= e1 <= e2,
    ;
    lemma_div_is_ordered(delta * e1, delta * e2, total);
}

/// Law: envelope monotonicity.  With gating held on and no fresh trigger,
/// two successive attack samples never decrease, two successive decay or
/// release samples never increase, and a sustain sample equals
/// `sustain_at`.  The two-step forms speak of `step_spec` applied twice to
/// the same held inputs: the flags the second step computes follow from the
/// first step's published hysteresis state.
pub proof fn lemma_attack_monotonic(e: Adsr)
    requires
        e.state == AdsrState::Attack,
        e.gate_open(),
        !e.trigger_fires(),
        0 <= e.attack_to,
        0 <= e.counter < e.attack_for,
    ensures
        e.step_spec().state == AdsrState::Attack,
        e.step_spec().out == e.attack_out(),
        e.step_spec().out <= e.step_spec().step_spec().out,
{
    let e1 = e.step_spec();
    assert(e1.gate_open());
    assert(!e1.trigger_fires());
    lemma_ramp_monotone(
        e.attack_to as int,
        e.counter as int,
        e.counter + 1,
        e.attack_for as int,
    );
}

/// Decay counterpart: successive samples are non-increasing while the ramp
/// is running.
pub proof fn lemma_decay_monotonic(e: Adsr)
    requires
        e.state == AdsrState::Decay,
        e.gate_open(),
        !e.trigger_fires(),
        e.sustain_at <= e.attack_to,
        0 <= e.counter < e.decay_for,
    ensures
        e.step_spec().state == AdsrState::Decay,
        e.step_spec().out == e.decay_out(),
        e.step_spec().step_spec().out <= e.step_spec().out,
{
    let e1 = e.step_spec();
    assert(e1.gate_open());
    assert(!e1.trigger_fires());
    lemma_ramp_monotone(
        e.attack_to - e.sustain_at,
        e.decay_for - (e.counter + 1),
        e.decay_for - e.counter,
        e.decay_for as int,
    );
}

/// Release counterpart: successive samples are non-increasing while the
/// ramp is running.
pub proof fn lemma_release_monotonic(e: Adsr)
    requires
        e.state == AdsrState::Release,
        !e.gate_open(),
        !e.trigger_fires(),
        0 <= e.sustain_at,
        0 <= e.counter < e.release_for,
    ensures
        e.step_spec().state == AdsrState::Release,
        e.step_spec().out == e.release_out(),
        e.step_spec().step_spec().out <= e.step_spec().out,
{
    let e1 = e.step_spec();
    assert(!e1.gate_open());
    assert(!e1.trigger_fires());
    lemma_ramp_monotone(
        e.sustain_at as int,
        e.release_for - (e.counter + 1),
        e.release_for - e.counter,
        e.release_for as int,
    );
}

/// The ramps land exactly: a completing attack puts out `attack_to`, a
/// completing decay puts out `sustain_at`, and a completing release puts
/// out zero, each at the step that moves the machine on.
pub proof fn lemma_ramps_complete(e: Adsr)
    requires
        !e.trigger_fires(),
        0 <= e.attack_to,
        0 <= e.sustain_at,
    ensures
        e.state == AdsrState::Attack && e.gate_open() && e.counter == e.attack_for && e.attack_for
            > 0 ==> e.step_spec().out == e.attack_to && e.step_spec().state == AdsrState::Decay,
        e.state == AdsrState::Decay && e.gate_open() && e.counter == e.decay_for
            ==> e.step_spec().out == e.sustain_at && e.step_spec().state == AdsrState::Sustain,
        e.state == AdsrState::Release && !e.gate_open() && e.counter == e.release_for
            ==> e.step_spec().out == 0 && e.step_spec().state == AdsrState::Off,
{
    if e.state == AdsrState::Attack && e.gate_open() && e.counter == e.attack_for && e.attack_for
        > 0 {
        lemma_trunc_div_cancel(e.attack_to as int, e.attack_for as int);
    }
    if e.state == AdsrState::Decay && e.gate_open() && e.counter == e.decay_for {
        if e.decay_for != 0 {
            assert((e.attack_to - e.sustain_at) * (e.decay_for - e.counter) == 0) by (
            nonlinear_arith)
                requires
                    e.counter == e.decay_for,
            ;
            assert(trunc_div(0, e.decay_for as int) == 0);
        }
    }
    if e.state == AdsrState::Release && !e.gate_open() && e.counter == e.release_for {
        if e.release_for != 0 {
            assert(e.sustain_at * (e.release_for - e.counter) == 0) by (nonlinear_arith)
                requires
                    e.counter == e.release_for,
            ;
            assert(trunc_div(0, e.release_for as int) == 0);
        }
    }
}

proof fn lemma_trunc_div_cancel(a: int, f: int)
    requires
        0 <= a <= 0x7fff,
        f > 0,
    ensures
        ramp(a, f, f) == a,
{
    assert((a * f) / f == a) by (nonlinear_arith)
        requires
            0 <= a,
            f > 0,
    ;
}

/// Sustain holds the configured level exactly.
pub proof fn lemma_sustain_constant(e: Adsr)
    requires
        e.state == AdsrState::Sustain,
        e.gate_open(),
        !e.trigger_fires(),
    ensures
        e.step_spec().out == e.sustain_at,
        e.step_spec().state == AdsrState::Sustain,
{
}

/// Law: envelope state reachability.  A trigger from `Off` starts `Attack`;
/// a held gate walks `Attack` to `Decay` exactly when the attack ramp
/// completes and `Decay` to `Sustain` exactly when the decay ramp
/// completes, never skipping a state; a lost gating signal in any running
/// state leads to `Release`; and `Release` returns to `Off` exactly when its
/// ramp completes.  A trigger arriving outside `Off` is absorbed without a
/// transition.
pub proof fn lemma_envelope_reachability(e: Adsr)
    ensures
        e.state == AdsrState::Off && e.trigger_fires() ==> e.step_spec().state
            == AdsrState::Attack && e.step_spec().counter == 0,
        e.state == AdsrState::Off && !e.trigger_fires() ==> e.step_spec().state == AdsrState::Off,
        e.state != AdsrState::Off && e.trigger_fires() ==> e.step_spec().state == e.state,
        e.state == AdsrState::Attack && !e.trigger_fires() && e.gate_open() ==> e.step_spec().state
            == (if e.counter == e.attack_for {
            AdsrState::Decay
        } else {
            AdsrState::Attack
        }),
        e.state == AdsrState::Decay && !e.trigger_fires() && e.gate_open() ==> e.step_spec().state
            == (if e.counter == e.decay_for {
            AdsrState::Sustain
        } else {
            AdsrState::Decay
        }),
        e.state == AdsrState::Sustain && !e.trigger_fires() && e.gate_open() ==> e.step_spec().state
            == AdsrState::Sustain,
        (e.state == AdsrState::Attack || e.state == AdsrState::Decay || e.state
            == AdsrState::Sustain) && !e.trigger_fires() && !e.gate_open() ==> e.step_spec().state
            == AdsrState::Release && e.step_spec().counter == 0,
        e.state == AdsrState::Release && !e.trigger_fires() && !e.gate_open() ==> e.step_spec().state
            == (if e.counter == e.release_for {
            AdsrState::Off
        } else {
            AdsrState::Release
        }),
        e.state == AdsrState::Release && !e.trigger_fires() && e.gate_open() ==> e.step_spec().state
            == AdsrState::Release && !e.step_spec().gated,
{
}

} // verus!
