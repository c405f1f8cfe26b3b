//! The signal-graph engine: named module instances, directed wires, and
//! the per-sample drive loop.
//!
//! Each sample the engine steps every module in registration order, ticks
//! them all on musical-beat boundaries, then propagates every wire by
//! copying the source port's value into the destination port -- when two
//! wires target one port, the later wire in order wins -- and finally
//! reads the designated output module's `out` port as the sample to emit.
//! Control commands arrive between samples as plain values; the embedding
//! application owns the channel that carries them.

use vstd::prelude::*;
use crate::amp::Vca;
use crate::arp::{BasicArp, TtetNote};
use crate::env::Adsr;
use crate::mix::Mixer;
use crate::osc::{FuncOsc, FuncWave, WaveTableOsc};
use crate::rvb::BasicReverb;
use crate::sequencer::BasicSeq;
use crate::util::Port;

verus! {

/// A named single-cycle waveform source the control plane can ask the
/// engine to load.
#[derive(Debug, Clone)]
pub struct SingleCycleWaveFormItem {
    pub name: String,
    pub path: String,
}

/// The control-channel vocabulary the engine consumes.
#[derive(Debug, Clone)]
pub enum Cmd {
    Freq(i16),
    Beat(i16, bool),
    Obeat(i16, bool),
    FileWaveTable(SingleCycleWaveFormItem),
    Scale(TtetNote),
    AdsrAttackFor(i16),
    AdsrAttackTo(i16),
    AdsrDecayFor(i16),
    AdsrSustainAt(i16),
    AdsrReleaseFor(i16),
}

/// The closed set of modules a patch can hold, dispatched by match so the
/// hot loop needs no indirection.
pub enum AvailableComponents {
    Adsr(Adsr),
    BasicArp(BasicArp),
    BasicSeq(BasicSeq),
    FuncOsc(FuncOsc),
    Mixer(Mixer),
    Vca(Vca),
    WaveTableOsc(WaveTableOsc),
    BasicReverb(BasicReverb),
}

impl AvailableComponents {
    /// The module's own well-formedness.
    pub open spec fn inv(self) -> bool {
        match self {
            AvailableComponents::Adsr(_) => true,
            AvailableComponents::BasicArp(x) => x.wf(),
            AvailableComponents::BasicSeq(x) => x.wf(),
            AvailableComponents::FuncOsc(_) => true,
            AvailableComponents::Mixer(_) => true,
            AvailableComponents::Vca(_) => true,
            AvailableComponents::WaveTableOsc(x) => x.wf(),
            AvailableComponents::BasicReverb(x) => x.wf(),
        }
    }

    /// What one audio sample does to a module.  All modules step
    /// functionally except the reverb, whose fresh buffers are pinned
    /// through their views, and the white-noise function oscillator,
    /// whose output draw is pinned by nothing.
    pub open spec fn step_rel(pre: AvailableComponents, post: AvailableComponents) -> bool {
        match (pre, post) {
            (AvailableComponents::Adsr(a), AvailableComponents::Adsr(b)) => b == a.step_spec(),
            (AvailableComponents::BasicArp(a), AvailableComponents::BasicArp(b)) => b
                == a.step_spec(),
            (AvailableComponents::BasicSeq(a), AvailableComponents::BasicSeq(b)) => b
                == a.step_spec(),
            (AvailableComponents::FuncOsc(a), AvailableComponents::FuncOsc(b)) => b == a.step_frame(
                b.out_cv,
            ),
            (AvailableComponents::Mixer(a), AvailableComponents::Mixer(b)) => b == a.step_spec(),
            (AvailableComponents::Vca(a), AvailableComponents::Vca(b)) => b == a.step_spec(),
            (AvailableComponents::WaveTableOsc(a), AvailableComponents::WaveTableOsc(b)) => b
                == a.step_spec(),
            (AvailableComponents::BasicReverb(a), AvailableComponents::BasicReverb(b)) => {
                BasicReverb::step_rel(a, b)
            },
            _ => false,
        }
    }

    /// What one musical tick does to a module: only the sequencer moves.
    pub open spec fn tick_spec(self) -> AvailableComponents {
        match self {
            AvailableComponents::BasicSeq(x) => AvailableComponents::BasicSeq(x.tick_spec()),
            _ => self,
        }
    }

    /// The value one of the module's ports reads.
    pub open spec fn read_spec(self, port: Port) -> i16 {
        match self {
            AvailableComponents::Adsr(x) => x.read_spec(port),
            AvailableComponents::BasicArp(x) => x.read_spec(port),
            AvailableComponents::BasicSeq(x) => x.read_spec(port),
            AvailableComponents::FuncOsc(x) => x.read_spec(port),
            AvailableComponents::Mixer(x) => x.read_spec(port),
            AvailableComponents::Vca(x) => x.read_spec(port),
            AvailableComponents::WaveTableOsc(x) => x.read_spec(port),
            AvailableComponents::BasicReverb(x) => x.read_spec(port),
        }
    }

    /// The module after one of its ports is written.
    pub open spec fn write_spec(self, port: Port, v: i16) -> AvailableComponents {
        match self {
            AvailableComponents::Adsr(x) => AvailableComponents::Adsr(x.write_spec(port, v)),
            AvailableComponents::BasicArp(x) => AvailableComponents::BasicArp(
                x.write_spec(port, v),
            ),
            AvailableComponents::BasicSeq(x) => AvailableComponents::BasicSeq(
                x.write_spec(port, v),
            ),
            AvailableComponents::FuncOsc(x) => AvailableComponents::FuncOsc(x.write_spec(port, v)),
            AvailableComponents::Mixer(x) => AvailableComponents::Mixer(x.write_spec(port, v)),
            AvailableComponents::Vca(x) => AvailableComponents::Vca(x.write_spec(port, v)),
            AvailableComponents::WaveTableOsc(x) => AvailableComponents::WaveTableOsc(
                x.write_spec(port, v),
            ),
            AvailableComponents::BasicReverb(x) => AvailableComponents::BasicReverb(
                x.write_spec(port, v),
            ),
        }
    }

    /// Advance the module one audio sample.
    pub fn step(&mut self)
        requires
            old(self).inv(),
        ensures
            final(self).inv(),
            AvailableComponents::step_rel(*old(self), *final(self)),
    {
        match self {
            AvailableComponents::Adsr(x) => x.step(),
            AvailableComponents::BasicArp(x) => x.step(),
            AvailableComponents::BasicSeq(x) => x.step(),
            AvailableComponents::FuncOsc(x) => x.step(),
            AvailableComponents::Mixer(x) => x.step(),
            AvailableComponents::Vca(x) => x.step(),
            AvailableComponents::WaveTableOsc(x) => x.step(),
            AvailableComponents::BasicReverb(x) => x.step(),
        }
    }

    /// Advance the module one musical subdivision.
    pub fn tick(&mut self)
        requires
            old(self).inv(),
        ensures
            final(self).inv(),
            *final(self) == old(self).tick_spec(),
    {
        match self {
            AvailableComponents::Adsr(x) => x.tick(),
            AvailableComponents::BasicArp(x) => x.tick(),
            AvailableComponents::BasicSeq(x) => x.tick(),
            AvailableComponents::FuncOsc(x) => x.tick(),
            AvailableComponents::Mixer(x) => x.tick(),
            AvailableComponents::Vca(x) => x.tick(),
            AvailableComponents::WaveTableOsc(x) => x.tick(),
            AvailableComponents::BasicReverb(x) => x.tick(),
        }
    }

    /// Read one of the module's ports; an unknown port reads zero.
    pub fn read(&self, port: Port) -> (v: i16)
        ensures
            v == self.read_spec(port),
    {
        match self {
            AvailableComponents::Adsr(x) => x.read(port),
            AvailableComponents::BasicArp(x) => x.read(port),
            AvailableComponents::BasicSeq(x) => x.read(port),
            AvailableComponents::FuncOsc(x) => x.read(port),
            AvailableComponents::Mixer(x) => x.read(port),
            AvailableComponents::Vca(x) => x.read(port),
            AvailableComponents::WaveTableOsc(x) => x.read(port),
            AvailableComponents::BasicReverb(x) => x.read(port),
        }
    }

    /// Write one of the module's ports; an unknown port absorbs the value.
    pub fn write(&mut self, port: Port, v: i16)
        requires
            old(self).inv(),
        ensures
            final(self).inv(),
            *final(self) == old(self).write_spec(port, v),
    {
        match self {
            AvailableComponents::Adsr(x) => x.write(port, v),
            AvailableComponents::BasicArp(x) => x.write(port, v),
            AvailableComponents::BasicSeq(x) => x.write(port, v),
            AvailableComponents::FuncOsc(x) => x.write(port, v),
            AvailableComponents::Mixer(x) => x.write(port, v),
            AvailableComponents::Vca(x) => x.write(port, v),
            AvailableComponents::WaveTableOsc(x) => x.write(port, v),
            AvailableComponents::BasicReverb(x) => x.write(port, v),
        }
    }
}

/// A wire as the embedding application states it: node names and ports.
pub struct WireDesc {
    pub src_node: String,
    pub src_port: Port,
    pub dst_node: String,
    pub dst_port: Port,
}

/// A wire after validation: node indices and ports.
#[derive(Clone, Copy, PartialEq, Eq, Structural, Debug)]
pub struct Wire {
    pub src: usize,
    pub src_port: Port,
    pub dst: usize,
    pub dst_port: Port,
}

/// Why a patch description was rejected at construction; the index names
/// the offending component or wire.
#[derive(Clone, Copy, PartialEq, Eq, Structural, Debug)]
pub enum ConfigError {
    DuplicateName(usize),
    UnresolvedSource(usize),
    UnresolvedDestination(usize),
    UnresolvedOutput,
}

/// No two registered modules share a name.
pub open spec fn distinct_names(cs: Seq<(String, AvailableComponents)>) -> bool {
    forall|i: int, j: int| 0 <= i < j < cs.len() ==> (#[trigger] cs[i].0)@ != (#[trigger] cs[j].0)@
}

/// A node name resolves to some registered module.
pub open spec fn resolves(cs: Seq<(String, AvailableComponents)>, name: Seq<char>) -> bool {
    exists|i: int| 0 <= i < cs.len() && (#[trigger] cs[i].0)@ == name
}

/// The patch graph and its drive state: named module instances in
/// registration order, validated wires, the two-rate clock divider, and
/// the designated output node.
pub struct Rack {
    pub names: Vec<String>,
    pub components: Vec<AvailableComponents>,
    pub wires: Vec<Wire>,
    pub cycle_counter: u64,
    pub cycles_per_tick: u64,
    pub out_node: usize,
}

impl Rack {
    /// Well-formed: parallel name/module arrays, every wire endpoint and
    /// the output node in range, every module well-formed, and the clock
    /// divider below its period.
    pub open spec fn inv(self) -> bool {
        &&& self.names.len() == self.components.len()
        &&& self.out_node < self.components.len()
        &&& forall|k: int|
            0 <= k < self.wires.len() ==> (#[trigger] self.wires@[k]).src
                < self.components.len() && self.wires@[k].dst < self.components.len()
        &&& forall|k: int|
            0 <= k < self.components.len() ==> (#[trigger] self.components@[k]).inv()
        &&& (self.cycle_counter == 0 || self.cycle_counter < self.cycles_per_tick)
    }

    /// Find the module registered under `name` (names are unique once
    /// validation has passed, so the first match is the only one).
    pub fn find_index(names: &Vec<String>, name: &String) -> (r: Option<usize>)
        ensures
            match r {
                Some(i) => i < names@.len() && names@[i as int]@ == name@ && forall|j: int|
                    0 <= j < i ==> (#[trigger] names@[j])@ != name@,
                None => forall|j: int| 0 <= j < names@.len() ==> (#[trigger] names@[j])@ != name@,
            },
    {
        let mut i: usize = 0;
        while i < names.len()
            invariant
                i <= names@.len(),
                forall|j: int| 0 <= j < i ==> (#[trigger] names@[j])@ != name@,
            decreases names@.len() - i,
        {
            if names[i] == *name {
                return Some(i);
            }
            i = i + 1;
        }
        None
    }

    /// Build and validate a patch graph.  Construction fails -- it never
    /// panics deep in the hot loop -- when two modules share a name, when
    /// a wire endpoint does not resolve, or when the output node does not
    /// resolve.  `cycles_per_tick` is how many samples one musical
    /// subdivision lasts.
    pub fn new(
        components: Vec<(String, AvailableComponents)>,
        wires: Vec<WireDesc>,
        out_node: &String,
        cycles_per_tick: u64,
    ) -> (r: Result<Rack, ConfigError>)
        requires
            forall|k: int|
                0 <= k < components@.len() ==> (#[trigger] components@[k]).1.inv(),
        ensures
            r.is_ok() <==> (distinct_names(components@) && (forall|w: int|
                0 <= w < wires@.len() ==> resolves(
                    components@,
                    (#[trigger] wires@[w]).src_node@,
                ) && resolves(components@, wires@[w].dst_node@)) && resolves(
                components@,
                out_node@,
            )),
            r matches Ok(rack) ==> {
                &&& rack.inv()
                &&& rack.names@.len() == components@.len()
                &&& rack.components@.len() == components@.len()
                &&& forall|k: int|
                    0 <= k < components@.len() ==> (#[trigger] rack.names@[k])
                        == components@[k].0 && rack.components@[k] == components@[k].1
                &&& rack.wires@.len() == wires@.len()
                &&& forall|w: int|
                    0 <= w < wires@.len() ==> {
                        let wd = #[trigger] wires@[w];
                        let rw = rack.wires@[w];
                        &&& rw.src < components@.len() && components@[rw.src as int].0@
                            == wd.src_node@
                        &&& rw.dst < components@.len() && components@[rw.dst as int].0@
                            == wd.dst_node@
                        &&& rw.src_port == wd.src_port && rw.dst_port == wd.dst_port
                    }
                &&& rack.out_node < components@.len() && components@[rack.out_node as int].0@
                    == out_node@
                &&& rack.cycle_counter == 0
                &&& rack.cycles_per_tick == cycles_per_tick
            },
    {
        let n = components.len();
        // reject duplicate names
        let mut a: usize = 0;
        while a < n
            invariant
                components@.len() == n,
                a <= n,
                forall|x: int, y: int|
                    0 <= x < y < n && y < a ==> (#[trigger] components@[x].0)@ != (
                    #[trigger] components@[y].0)@,
            decreases n - a,
        {
            let mut b: usize = 0;
            while b < a
                invariant
                    components@.len() == n,
                    b <= a < n,
                    forall|x: int|
                        0 <= x < b ==> (#[trigger] components@[x].0)@ != components@[a as int].0@,
                decreases a - b,
            {
                if components[b].0 == components[a].0 {
                    return Err(ConfigError::DuplicateName(a));
                }
                b = b + 1;
            }
            a = a + 1;
        }
        // resolve every wire endpoint
        let mut rw: Vec<Wire> = Vec::new();
        let mut w: usize = 0;
        let m = wires.len();
        while w < m
            invariant
                wires@.len() == m,
                components@.len() == n,
                w <= m,
                rw@.len() == w,
                forall|k: int|
                    0 <= k < w ==> {
                        let wd = #[trigger] wires@[k];
                        let r0 = rw@[k];
                        &&& r0.src < n && components@[r0.src as int].0@ == wd.src_node@
                        &&& r0.dst < n && components@[r0.dst as int].0@ == wd.dst_node@
                        &&& r0.src_port == wd.src_port && r0.dst_port == wd.dst_port
                    },
                forall|k: int|
                    0 <= k < w ==> resolves(
                        components@,
                        (#[trigger] wires@[k]).src_node@,
                    ) && resolves(components@, wires@[k].dst_node@),
            decreases m - w,
        {
            let src = match Rack::find_in(&components, &wires[w].src_node) {
                Some(i) => i,
                None => {
                    return Err(ConfigError::UnresolvedSource(w));
                },
            };
            let dst = match Rack::find_in(&components, &wires[w].dst_node) {
                Some(i) => i,
                None => {
                    return Err(ConfigError::UnresolvedDestination(w));
                },
            };
            rw.push(
                Wire {
                    src,
                    src_port: wires[w].src_port,
                    dst,
                    dst_port: wires[w].dst_port,
                },
            );
            w = w + 1;
        }
        // resolve the output node
        let out = match Rack::find_in(&components, out_node) {
            Some(i) => i,
            None => {
                return Err(ConfigError::UnresolvedOutput);
            },
        };
        // split the validated pairs into the parallel hot-path arrays
        let mut names: Vec<String> = Vec::new();
        let mut comps: Vec<AvailableComponents> = Vec::new();
        let mut parts = components;
        let ghost parts0 = parts@;
        let mut i: usize = 0;
        while i < n
            invariant
                i <= n,
                parts0.len() == n,
                parts@ =~= parts0.subrange(i as int, n as int),
                names@.len() == i,
                comps@.len() == i,
                forall|k: int|
                    0 <= k < i ==> (#[trigger] names@[k]) == parts0[k].0 && comps@[k]
                        == parts0[k].1,
            decreases n - i,
        {
            let (name, comp) = parts.remove(0);
            names.push(name);
            comps.push(comp);
            i = i + 1;
        }
        proof {
            assert(parts0 == components@);
            assert forall|k: int|
                0 <= k < rw@.len() implies (#[trigger] rw@[k]).src < n && rw@[k].dst < n by {
                let wd = wires@[k];
                assert(rw@[k].src < n && components@[rw@[k].src as int].0@ == wd.src_node@);
            }
            assert forall|k: int| 0 <= k < comps@.len() implies (#[trigger] comps@[k]).inv() by {
                assert(names@[k] == parts0[k].0);
                assert(comps@[k] == parts0[k].1);
                assert(components@[k].1.inv());
            }
        }
        Ok(
            Rack {
                names,
                components: comps,
                wires: rw,
                cycle_counter: 0,
                cycles_per_tick,
                out_node: out,
            },
        )
    }

    /// Find the module registered under `name` among the still-paired
    /// construction input.
    fn find_in(components: &Vec<(String, AvailableComponents)>, name: &String) -> (r: Option<
        usize,
    >)
        ensures
            match r {
                Some(i) => i < components@.len() && components@[i as int].0@ == name@ && forall|
                    j: int,
                |
                    0 <= j < i ==> (#[trigger] components@[j].0)@ != name@,
                None => !resolves(components@, name@),
            },
    {
        let mut i: usize = 0;
        while i < components.len()
            invariant
                i <= components@.len(),
                forall|j: int| 0 <= j < i ==> (#[trigger] components@[j].0)@ != name@,
            decreases components@.len() - i,
        {
            if components[i].0 == *name {
                return Some(i);
            }
            i = i + 1;
        }
        None
    }
}

/// Every module stepped one sample, in registration order.
pub open spec fn step_all_rel(pre: Seq<AvailableComponents>, post: Seq<AvailableComponents>) -> bool {
    &&& pre.len() == post.len()
    &&& forall|k: int|
        0 <= k < pre.len() ==> AvailableComponents::step_rel(pre[k], #[trigger] post[k])
}

/// Every module ticked one musical subdivision.
pub open spec fn tick_all_spec(cs: Seq<AvailableComponents>) -> Seq<AvailableComponents> {
    cs.map_values(|c: AvailableComponents| c.tick_spec())
}

/// The first `n` wires propagated in order: each copies its source port's
/// live value into its destination port, so of two wires aimed at one
/// port the later one wins.
pub open spec fn propagate_spec(
    cs: Seq<AvailableComponents>,
    wires: Seq<Wire>,
    n: int,
) -> Seq<AvailableComponents>
    decreases n,
{
    if n <= 0 {
        cs
    } else {
        let prev = propagate_spec(cs, wires, n - 1);
        let w = wires[n - 1];
        prev.update(
            w.dst as int,
            prev[w.dst as int].write_spec(w.dst_port, prev[w.src as int].read_spec(w.src_port)),
        )
    }
}

/// What one engine sample does: clock divider, steps, boundary ticks,
/// wire propagation, and the emitted sample.  Relational because the
/// stepping stage is (see `AvailableComponents::step_rel`).  Opaque so
/// that multi-sample reasoning can treat one sample as a unit.
#[verifier::opaque]
pub open spec fn rack_step_rel(pre: Rack, post: Rack, out: i16) -> bool {
    let ticked = pre.cycle_counter + 1 >= pre.cycles_per_tick;
    &&& post.cycle_counter == (if ticked {
        0int
    } else {
        pre.cycle_counter + 1
    })
    &&& exists|mid: Seq<AvailableComponents>|
        {
            &&& #[trigger] step_all_rel(pre.components@, mid)
            &&& post.components@ == propagate_spec(
                if ticked {
                    tick_all_spec(mid)
                } else {
                    mid
                },
                pre.wires@,
                pre.wires@.len() as int,
            )
        }
    &&& post.names == pre.names
    &&& post.wires == pre.wires
    &&& post.cycles_per_tick == pre.cycles_per_tick
    &&& post.out_node == pre.out_node
    &&& out == post.components@[pre.out_node as int].read_spec(Port::Out)
}

/// `j` is the (first, hence only) module registered under `name`.
pub open spec fn targeted(names: Seq<String>, j: int, name: Seq<char>) -> bool {
    &&& 0 <= j < names.len()
    &&& names[j]@ == name
    &&& forall|i: int| 0 <= i < j ==> (#[trigger] names[i])@ != name
}

/// The seven major-scale notes on a root.
pub open spec fn major_scale_spec(root: TtetNote) -> Seq<TtetNote> {
    seq![
        TtetNote::from_semitone_spec(root.semitone_spec() + 0),
        TtetNote::from_semitone_spec(root.semitone_spec() + 2),
        TtetNote::from_semitone_spec(root.semitone_spec() + 4),
        TtetNote::from_semitone_spec(root.semitone_spec() + 5),
        TtetNote::from_semitone_spec(root.semitone_spec() + 7),
        TtetNote::from_semitone_spec(root.semitone_spec() + 9),
        TtetNote::from_semitone_spec(root.semitone_spec() + 11),
    ]
}

/// One beat-pattern bit edited, everything else still.
pub open spec fn seq_beat_set_rel(s: BasicSeq, s2: BasicSeq, i: int, b: bool) -> bool {
    &&& s2.beats@ == s.beats@.update(i, b)
    &&& s2 == (BasicSeq { beats: s2.beats, ..s })
}

/// The arpeggiator's notes replaced by a scale, everything else still.
pub open spec fn arp_scale_set_rel(a: BasicArp, a2: BasicArp, root: TtetNote) -> bool {
    &&& a2.notes@ == major_scale_spec(root)
    &&& a2 == (BasicArp { notes: a2.notes, ..a })
}

/// What a `Beat`-style command does to the module registered under
/// `name`: a pattern edit when it is a sequencer and the index is a step,
/// a no-op in every other case.
pub open spec fn beat_set_cmd_rel(pre: Rack, post: Rack, name: Seq<char>, i: int, b: bool) -> bool {
    &&& post.components@.len() == pre.components@.len()
    &&& (forall|j: int|
        targeted(pre.names@, j, name) ==> match (pre.components@[j], post.components@[j]) {
            (AvailableComponents::BasicSeq(s), AvailableComponents::BasicSeq(s2)) => {
                if 0 <= i < 16 {
                    seq_beat_set_rel(s, s2, i, b) && (forall|k: int|
                        0 <= k < pre.components@.len() && k != j
                            ==> #[trigger] post.components@[k] == pre.components@[k])
                } else {
                    post.components@ == pre.components@
                }
            },
            (AvailableComponents::BasicSeq(s), _) => false,
            _ => post.components@ == pre.components@,
        })
    &&& ((forall|j: int| !targeted(pre.names@, j, name)) ==> post.components@ == pre.components@)
}

/// What an envelope-parameter command does to the module registered as
/// `adsr1`.
pub open spec fn adsr1_write_rel(pre: Rack, post: Rack, port: Port, v: i16) -> bool {
    &&& post.components@.len() == pre.components@.len()
    &&& (forall|j: int|
        targeted(pre.names@, j, "adsr1"@) ==> match pre.components@[j] {
            AvailableComponents::Adsr(_) => post.components@ == pre.components@.update(
                j,
                pre.components@[j].write_spec(port, v),
            ),
            _ => post.components@ == pre.components@,
        })
    &&& ((forall|j: int| !targeted(pre.names@, j, "adsr1"@)) ==> post.components@
        == pre.components@)
}

/// What each control command does to the patch state.  Parameter and
/// pattern commands are idempotent; a waveform-load request changes
/// nothing here (the load happens off the sample path).
pub open spec fn cmd_rel(pre: Rack, post: Rack, cmd: Cmd) -> bool {
    match cmd {
        Cmd::Freq(f) => if pre.components@.len() > 0 {
            post.components@ == pre.components@.update(
                0,
                pre.components@[0].write_spec(Port::Freq, f),
            )
        } else {
            post.components@ == pre.components@
        },
        Cmd::Beat(i, b) => beat_set_cmd_rel(pre, post, "seq1"@, i as int, b),
        Cmd::Obeat(i, b) => beat_set_cmd_rel(pre, post, "seq1o"@, i as int, b),
        Cmd::Scale(n) => {
            &&& post.components@.len() == pre.components@.len()
            &&& (forall|j: int|
                targeted(pre.names@, j, "arp1"@) ==> match (
                    pre.components@[j],
                    post.components@[j],
                ) {
                    (AvailableComponents::BasicArp(a), AvailableComponents::BasicArp(a2)) => {
                        arp_scale_set_rel(a, a2, n) && (forall|k: int|
                            0 <= k < pre.components@.len() && k != j
                                ==> #[trigger] post.components@[k] == pre.components@[k])
                    },
                    (AvailableComponents::BasicArp(a), _) => false,
                    _ => post.components@ == pre.components@,
                })
            &&& ((forall|j: int| !targeted(pre.names@, j, "arp1"@)) ==> post.components@
                == pre.components@)
        },
        Cmd::FileWaveTable(_) => post.components@ == pre.components@,
        Cmd::AdsrAttackFor(v) => adsr1_write_rel(pre, post, Port::AttackFor, v),
        Cmd::AdsrAttackTo(v) => adsr1_write_rel(pre, post, Port::AttackTo, v),
        Cmd::AdsrDecayFor(v) => adsr1_write_rel(pre, post, Port::DecayFor, v),
        Cmd::AdsrSustainAt(v) => adsr1_write_rel(pre, post, Port::SustainAt, v),
        Cmd::AdsrReleaseFor(v) => adsr1_write_rel(pre, post, Port::ReleaseFor, v),
    }
}

/// What applying one control command does to the whole rack: the command
/// relation on the modules; the wiring, the names and the clock state are
/// untouched.
pub open spec fn rack_cmd_rel(pre: Rack, post: Rack, cmd: Cmd) -> bool {
    &&& cmd_rel(pre, post, cmd)
    &&& post.names == pre.names
    &&& post.wires == pre.wires
    &&& post.cycle_counter == pre.cycle_counter
    &&& post.cycles_per_tick == pre.cycles_per_tick
    &&& post.out_node == pre.out_node
}

/// A module whose stepping depends on nothing but its state: every module
/// except the white-noise function oscillator, whose output is a fresh
/// draw each sample.
pub open spec fn ac_deterministic(c: AvailableComponents) -> bool {
    match c {
        AvailableComponents::FuncOsc(o) => o.func != FuncWave::WhiteNoise,
        _ => true,
    }
}

/// A rack with no fresh-draw module.
pub open spec fn rack_deterministic(r: Rack) -> bool {
    forall|k: int| 0 <= k < r.components@.len() ==> ac_deterministic(#[trigger] r.components@[k])
}

/// Two reverbs that agree observably: equal in every scalar and in every
/// tap's gain and buffer contents.
pub open spec fn rvb_obs_eq(a: BasicReverb, b: BasicReverb) -> bool {
    &&& a.taps@.len() == b.taps@.len()
    &&& forall|k: int|
        0 <= k < a.taps@.len() ==> (#[trigger] a.taps@[k]).gain == b.taps@[k].gain
            && a.taps@[k].buffer@ == b.taps@[k].buffer@
    &&& a.cv_in == b.cv_in
    &&& a.out_cv == b.out_cv
    &&& a.dummy == b.dummy
    &&& a.counter == b.counter
}

/// Two sequencers that agree observably: equal scalars, equal pattern and
/// gate-length contents.
pub open spec fn seq_obs_eq(a: BasicSeq, b: BasicSeq) -> bool {
    &&& a.beats@ == b.beats@
    &&& a.beat_len@ == b.beat_len@
    &&& a.tempo == b.tempo
    &&& a.gate == b.gate
    &&& a.trigger == b.trigger
    &&& a.counter == b.counter
    &&& a.beat == b.beat
    &&& a.dummy == b.dummy
}

/// Two arpeggiators that agree observably: equal scalars, equal notes.
pub open spec fn arp_obs_eq(a: BasicArp, b: BasicArp) -> bool {
    &&& a.notes@ == b.notes@
    &&& a.gate_in == b.gate_in
    &&& a.trigger_in == b.trigger_in
    &&& a.counter == b.counter
    &&& a.note_cv_out == b.note_cv_out
    &&& a.octave == b.octave
    &&& a.dummy == b.dummy
}

/// Two modules that agree observably: equal, except that the modules
/// holding buffers the control plane rewrites (reverb taps, beat
/// patterns, arpeggiator notes) are compared through their views -- a
/// freshly written buffer has no description but its contents.
pub open spec fn ac_obs_eq(x: AvailableComponents, y: AvailableComponents) -> bool {
    match (x, y) {
        (AvailableComponents::BasicReverb(a), AvailableComponents::BasicReverb(b)) => rvb_obs_eq(
            a,
            b,
        ),
        (AvailableComponents::BasicSeq(a), AvailableComponents::BasicSeq(b)) => seq_obs_eq(a, b),
        (AvailableComponents::BasicArp(a), AvailableComponents::BasicArp(b)) => arp_obs_eq(a, b),
        _ => x == y,
    }
}

/// Two racks that agree observably.
pub open spec fn rack_obs_eq(x: Rack, y: Rack) -> bool {
    &&& x.names == y.names
    &&& x.wires == y.wires
    &&& x.cycle_counter == y.cycle_counter
    &&& x.cycles_per_tick == y.cycles_per_tick
    &&& x.out_node == y.out_node
    &&& x.components@.len() == y.components@.len()
    &&& forall|k: int|
        0 <= k < x.components@.len() ==> ac_obs_eq(#[trigger] x.components@[k], y.components@[k])
}

proof fn lemma_inv_chain_cong(ta: Seq<crate::rvb::Tap>, tb: Seq<crate::rvb::Tap>, cv: i16, counter: int, k: int)
    requires
        ta.len() == tb.len(),
        forall|i: int|
            0 <= i < ta.len() ==> (#[trigger] ta[i]).gain == tb[i].gain && ta[i].buffer@
                == tb[i].buffer@,
        0 <= k <= ta.len(),
    ensures
        crate::rvb::inv_chain(ta, cv, counter, k) == crate::rvb::inv_chain(tb, cv, counter, k),
    decreases k,
{
    if k > 0 {
        lemma_inv_chain_cong(ta, tb, cv, counter, k - 1);
    }
}

proof fn lemma_rvb_step_det(a: BasicReverb, b: BasicReverb, a2: BasicReverb, b2: BasicReverb)
    requires
        rvb_obs_eq(a, b),
        BasicReverb::step_rel(a, a2),
        BasicReverb::step_rel(b, b2),
    ensures
        rvb_obs_eq(a2, b2),
{
    lemma_inv_chain_cong(a.taps@, b.taps@, a.cv_in, a.counter as int, a.taps@.len() as int);
    assert forall|k: int|
        0 <= k < a2.taps@.len() implies (#[trigger] a2.taps@[k]).gain == b2.taps@[k].gain
        && a2.taps@[k].buffer@ == b2.taps@[k].buffer@ by {
        assert(a.taps@[k].gain == b.taps@[k].gain && a.taps@[k].buffer@ == b.taps@[k].buffer@);
    }
}

proof fn lemma_ac_step_det(
    x: AvailableComponents,
    y: AvailableComponents,
    px: AvailableComponents,
    py: AvailableComponents,
)
    requires
        ac_obs_eq(x, y),
        ac_deterministic(x),
        AvailableComponents::step_rel(x, px),
        AvailableComponents::step_rel(y, py),
    ensures
        ac_obs_eq(px, py),
{
    match (x, y) {
        (AvailableComponents::BasicReverb(a), AvailableComponents::BasicReverb(b)) => {
            match (px, py) {
                (AvailableComponents::BasicReverb(a2), AvailableComponents::BasicReverb(b2)) => {
                    lemma_rvb_step_det(a, b, a2, b2);
                },
                _ => {},
            }
        },
        (AvailableComponents::BasicSeq(a), AvailableComponents::BasicSeq(b)) => {
            assert(a.beats@[a.beat as int] == b.beats@[b.beat as int]);
            assert(a.beat_len@[a.beat as int] == b.beat_len@[b.beat as int]);
            assert(seq_obs_eq(a.step_spec(), b.step_spec()));
        },
        (AvailableComponents::BasicArp(a), AvailableComponents::BasicArp(b)) => {
            let c2 = (a.counter + 1) % 7;
            assert(a.notes@[c2 as int] == b.notes@[c2 as int]);
            assert(arp_obs_eq(a.step_spec(), b.step_spec()));
        },
        _ => {},
    }
}

proof fn lemma_ac_write_cong(x: AvailableComponents, y: AvailableComponents, port: Port, v: i16)
    requires
        ac_obs_eq(x, y),
    ensures
        ac_obs_eq(x.write_spec(port, v), y.write_spec(port, v)),
        x.read_spec(port) == y.read_spec(port),
        ac_obs_eq(x.tick_spec(), y.tick_spec()),
{
}

/// The step stage applied pairwise across two racks' modules.
proof fn lemma_step_all_det(
    c1: Seq<AvailableComponents>,
    c2: Seq<AvailableComponents>,
    m1: Seq<AvailableComponents>,
    m2: Seq<AvailableComponents>,
)
    requires
        c1.len() == c2.len(),
        forall|k: int| 0 <= k < c1.len() ==> ac_obs_eq(#[trigger] c1[k], c2[k]),
        forall|k: int| 0 <= k < c1.len() ==> ac_deterministic(#[trigger] c1[k]),
        step_all_rel(c1, m1),
        step_all_rel(c2, m2),
    ensures
        m1.len() == m2.len(),
        forall|k: int| 0 <= k < m1.len() ==> ac_obs_eq(#[trigger] m1[k], m2[k]),
{
    assert forall|k: int| 0 <= k < m1.len() implies ac_obs_eq(#[trigger] m1[k], m2[k]) by {
        lemma_ac_step_det(c1[k], c2[k], m1[k], m2[k]);
    }
}

/// The propagation stage is congruent with observable agreement.
proof fn lemma_propagate_cong(
    c1: Seq<AvailableComponents>,
    c2: Seq<AvailableComponents>,
    wires: Seq<Wire>,
    n: int,
)
    requires
        c1.len() == c2.len(),
        forall|k: int| 0 <= k < c1.len() ==> ac_obs_eq(#[trigger] c1[k], c2[k]),
        forall|w: int|
            0 <= w < wires.len() ==> (#[trigger] wires[w]).src < c1.len() && wires[w].dst
                < c1.len(),
        0 <= n <= wires.len(),
    ensures
        propagate_spec(c1, wires, n).len() == c1.len(),
        propagate_spec(c2, wires, n).len() == c2.len(),
        forall|k: int|
            0 <= k < c1.len() ==> ac_obs_eq(
                #[trigger] propagate_spec(c1, wires, n)[k],
                propagate_spec(c2, wires, n)[k],
            ),
    decreases n,
{
    if n > 0 {
        lemma_propagate_cong(c1, c2, wires, n - 1);
        let p1 = propagate_spec(c1, wires, n - 1);
        let p2 = propagate_spec(c2, wires, n - 1);
        let w = wires[n - 1];
        lemma_ac_write_cong(
            p1[w.dst as int],
            p2[w.dst as int],
            w.dst_port,
            p1[w.src as int].read_spec(w.src_port),
        );
        lemma_ac_write_cong(p1[w.src as int], p2[w.src as int], w.src_port, 0);
    }
}

/// Stepping, ticking, writing and propagating all preserve the absence of
/// fresh-draw modules.
proof fn lemma_propagate_preserves_det(c: Seq<AvailableComponents>, wires: Seq<Wire>, n: int)
    requires
        forall|k: int| 0 <= k < c.len() ==> ac_deterministic(#[trigger] c[k]),
        forall|w: int|
            0 <= w < wires.len() ==> (#[trigger] wires[w]).src < c.len() && wires[w].dst < c.len(),
        0 <= n <= wires.len(),
    ensures
        propagate_spec(c, wires, n).len() == c.len(),
        forall|k: int|
            0 <= k < c.len() ==> ac_deterministic(#[trigger] propagate_spec(c, wires, n)[k]),
    decreases n,
{
    if n > 0 {
        lemma_propagate_preserves_det(c, wires, n - 1);
    }
}

/// Law: wiring propagation is deterministic.  From observably equal
/// states of a patch with no fresh-draw module, one engine sample leads
/// to observably equal states and the same emitted sample.
pub proof fn lemma_rack_step_deterministic(
    s1: Rack,
    s2: Rack,
    a: Rack,
    b: Rack,
    va: i16,
    vb: i16,
)
    requires
        rack_obs_eq(s1, s2),
        rack_deterministic(s1),
        s1.inv(),
        rack_step_rel(s1, a, va),
        rack_step_rel(s2, b, vb),
    ensures
        rack_obs_eq(a, b),
        va == vb,
        rack_deterministic(a),
{
    reveal(rack_step_rel);
    let ticked = s1.cycle_counter + 1 >= s1.cycles_per_tick;
    let m1 = choose|mid: Seq<AvailableComponents>|
        #[trigger] step_all_rel(s1.components@, mid) && a.components@ == propagate_spec(
            if ticked {
                tick_all_spec(mid)
            } else {
                mid
            },
            s1.wires@,
            s1.wires@.len() as int,
        );
    let m2 = choose|mid: Seq<AvailableComponents>|
        #[trigger] step_all_rel(s2.components@, mid) && b.components@ == propagate_spec(
            if ticked {
                tick_all_spec(mid)
            } else {
                mid
            },
            s2.wires@,
            s2.wires@.len() as int,
        );
    lemma_step_all_det(s1.components@, s2.components@, m1, m2);
    assert forall|k: int| 0 <= k < m1.len() implies ac_deterministic(#[trigger] m1[k]) by {
        lemma_ac_step_preserves_det(s1.components@[k], m1[k]);
    }
    let t1 = if ticked {
        tick_all_spec(m1)
    } else {
        m1
    };
    let t2 = if ticked {
        tick_all_spec(m2)
    } else {
        m2
    };
    assert(t1.len() == m1.len() && t2.len() == m2.len());
    assert forall|k: int| 0 <= k < t1.len() implies ac_obs_eq(#[trigger] t1[k], t2[k]) by {
        lemma_ac_write_cong(m1[k], m2[k], Port::Out, 0);
    }
    assert forall|k: int| 0 <= k < t1.len() implies ac_deterministic(#[trigger] t1[k]) by {
        assert(ac_deterministic(m1[k]));
    }
    lemma_propagate_cong(t1, t2, s1.wires@, s1.wires@.len() as int);
    lemma_propagate_preserves_det(t1, s1.wires@, s1.wires@.len() as int);
    assert(ac_obs_eq(
        a.components@[s1.out_node as int],
        b.components@[s1.out_node as int],
    ));
    lemma_ac_write_cong(
        a.components@[s1.out_node as int],
        b.components@[s1.out_node as int],
        Port::Out,
        0,
    );
}

proof fn lemma_ac_step_preserves_det(x: AvailableComponents, px: AvailableComponents)
    requires
        ac_deterministic(x),
        AvailableComponents::step_rel(x, px),
    ensures
        ac_deterministic(px),
{
}

/// A run of `outs.len()` engine samples from `pre` to `post`, emitting
/// `outs` in order.
pub open spec fn rack_run_rel(pre: Rack, post: Rack, outs: Seq<i16>) -> bool
    decreases outs.len(),
{
    if outs.len() == 0 {
        post == pre
    } else {
        exists|mid: Rack|
            #[trigger] rack_step_rel(pre, mid, outs[0]) && rack_run_rel(
                mid,
                post,
                outs.drop_first(),
            )
    }
}

/// Law: running N samples twice from the same state of a patch with no
/// fresh-draw module produces bit-identical output sample sequences (and
/// observably equal final states).
/// A run extends by one sample at its tail.
proof fn lemma_run_snoc(a: Rack, b: Rack, c: Rack, o: Seq<i16>, v: i16)
    requires
        rack_run_rel(a, b, o),
        rack_step_rel(b, c, v),
    ensures
        rack_run_rel(a, c, o.push(v)),
    decreases o.len(),
{
    if o.len() == 0 {
        assert(o.push(v)[0] == v);
        assert(o.push(v).drop_first() =~= Seq::<i16>::empty());
        assert(rack_run_rel(c, c, o.push(v).drop_first()));
        assert(rack_step_rel(a, c, o.push(v)[0]) && rack_run_rel(c, c, o.push(v).drop_first()));
    } else {
        let m = lemma_run_step_witness(a, b, o);
        lemma_run_snoc(m, b, c, o.drop_first(), v);
        assert(o.push(v).drop_first() =~= o.drop_first().push(v));
        assert(o.push(v)[0] == o[0]);
        assert(rack_step_rel(a, m, o.push(v)[0]) && rack_run_rel(m, c, o.push(v).drop_first()));
    }
}

proof fn lemma_run_step_witness(pre: Rack, post: Rack, outs: Seq<i16>) -> (mid: Rack)
    requires
        outs.len() > 0,
        rack_run_rel(pre, post, outs),
    ensures
        rack_step_rel(pre, mid, outs[0]),
        rack_run_rel(mid, post, outs.drop_first()),
{
    choose|mid: Rack|
        #[trigger] rack_step_rel(pre, mid, outs[0]) && rack_run_rel(mid, post, outs.drop_first())
}

#[verifier::rlimit(100)]
#[verifier::spinoff_prover]
pub proof fn lemma_run_deterministic(s1: Rack, s2: Rack, a: Rack, b: Rack, o1: Seq<i16>, o2: Seq<
    i16,
>)
    requires
        rack_obs_eq(s1, s2),
        rack_deterministic(s1),
        s1.inv(),
        s2.inv(),
        rack_run_rel(s1, a, o1),
        rack_run_rel(s2, b, o2),
        o1.len() == o2.len(),
    ensures
        o1 == o2,
        rack_obs_eq(a, b),
    decreases o1.len(),
{
    if o1.len() == 0 {
        assert(rack_obs_eq(a, b));
    } else {
        let m1 = lemma_run_step_witness(s1, a, o1);
        let m2 = lemma_run_step_witness(s2, b, o2);
        lemma_rack_step_deterministic(s1, s2, m1, m2, o1[0], o2[0]);
        lemma_rack_step_rel_inv(s1, m1, o1[0]);
        lemma_rack_step_rel_inv(s2, m2, o2[0]);
        lemma_run_deterministic(m1, m2, a, b, o1.drop_first(), o2.drop_first());
        assert forall|i: int| 0 <= i < o1.len() implies o1[i] == o2[i] by {
            if i > 0 {
                assert(o1.drop_first()[i - 1] == o1[i]);
                assert(o2.drop_first()[i - 1] == o2[i]);
                assert(o1.drop_first()[i - 1] == o2.drop_first()[i - 1]);
            }
        }
        assert(o1 =~= o2);
    }
}

/// A step under the relation lands back inside the invariant; the exec
/// `run_sample` guarantees it, and the spec-level run uses it for
/// induction.
proof fn lemma_rack_step_rel_inv(pre: Rack, post: Rack, out: i16)
    requires
        pre.inv(),
        rack_step_rel(pre, post, out),
    ensures
        post.inv(),
{
    reveal(rack_step_rel);
    let ticked = pre.cycle_counter + 1 >= pre.cycles_per_tick;
    let m = choose|mid: Seq<AvailableComponents>|
        #[trigger] step_all_rel(pre.components@, mid) && post.components@ == propagate_spec(
            if ticked {
                tick_all_spec(mid)
            } else {
                mid
            },
            pre.wires@,
            pre.wires@.len() as int,
        );
    assert forall|k: int| 0 <= k < m.len() implies (#[trigger] m[k]).inv() by {
        lemma_ac_step_rel_inv(pre.components@[k], m[k]);
    }
    let t = if ticked {
        tick_all_spec(m)
    } else {
        m
    };
    assert forall|k: int| 0 <= k < t.len() implies (#[trigger] t[k]).inv() by {
        lemma_ac_tick_write_inv(m[k], Port::Out, 0);
    }
    lemma_propagate_preserves_inv(t, pre.wires@, pre.wires@.len() as int);
}

proof fn lemma_ac_step_rel_inv(x: AvailableComponents, px: AvailableComponents)
    requires
        x.inv(),
        AvailableComponents::step_rel(x, px),
    ensures
        px.inv(),
{
    match x {
        AvailableComponents::WaveTableOsc(o) => {
            if o.valid_step() {
                let p = o.ipc_64_map@[o.freq as int] as int;
                crate::osc::lemma_reduce_bounds(o.accum(), p);
            }
        },
        AvailableComponents::BasicReverb(a) => {
            match px {
                AvailableComponents::BasicReverb(b2) => {
                    assert forall|k: int|
                        0 <= k < b2.taps@.len() implies (#[trigger] b2.taps@[k]).wf() by {
                        assert(a.taps@[k].wf());
                    }
                },
                _ => {},
            }
        },
        _ => {},
    }
}

proof fn lemma_ac_tick_write_inv(x: AvailableComponents, port: Port, v: i16)
    requires
        x.inv(),
    ensures
        x.tick_spec().inv(),
        x.write_spec(port, v).inv(),
        ac_deterministic(x) ==> ac_deterministic(x.write_spec(port, v)),
{
}

proof fn lemma_propagate_preserves_inv(c: Seq<AvailableComponents>, wires: Seq<Wire>, n: int)
    requires
        forall|k: int| 0 <= k < c.len() ==> (#[trigger] c[k]).inv(),
        forall|w: int|
            0 <= w < wires.len() ==> (#[trigger] wires[w]).src < c.len() && wires[w].dst < c.len(),
        0 <= n <= wires.len(),
    ensures
        propagate_spec(c, wires, n).len() == c.len(),
        forall|k: int| 0 <= k < c.len() ==> (#[trigger] propagate_spec(c, wires, n)[k]).inv(),
    decreases n,
{
    if n > 0 {
        lemma_propagate_preserves_inv(c, wires, n - 1);
        let p = propagate_spec(c, wires, n - 1);
        let w = wires[n - 1];
        lemma_ac_tick_write_inv(p[w.dst as int], w.dst_port, p[w.src as int].read_spec(w.src_port));
    }
}

proof fn lemma_beat_cmd_det(s1: Rack, s2: Rack, a: Rack, b: Rack, name: Seq<char>, i: int, bit: bool)
    requires
        rack_obs_eq(s1, s2),
        s1.names@.len() == s1.components@.len(),
        beat_set_cmd_rel(s1, a, name, i, bit),
        beat_set_cmd_rel(s2, b, name, i, bit),
    ensures
        a.components@.len() == b.components@.len(),
        forall|k: int|
            0 <= k < a.components@.len() ==> ac_obs_eq(
                #[trigger] a.components@[k],
                b.components@[k],
            ),
{
    if exists|j: int| targeted(s1.names@, j, name) {
        let j = choose|j: int| targeted(s1.names@, j, name);
        assert(s1.names@ == s2.names@);
        assert(targeted(s2.names@, j, name));
        assert(ac_obs_eq(s1.components@[j], s2.components@[j]));
        match (s1.components@[j], s2.components@[j]) {
            (AvailableComponents::BasicSeq(x1), AvailableComponents::BasicSeq(x2)) => {
                assert forall|k: int|
                    0 <= k < a.components@.len() implies ac_obs_eq(
                    #[trigger] a.components@[k],
                    b.components@[k],
                ) by {
                    if 0 <= i < 16 {
                        if k != j {
                            assert(a.components@[k] == s1.components@[k]);
                            assert(b.components@[k] == s2.components@[k]);
                            assert(ac_obs_eq(s1.components@[k], s2.components@[k]));
                        }
                    } else {
                        assert(ac_obs_eq(s1.components@[k], s2.components@[k]));
                    }
                }
            },
            _ => {
                assert forall|k: int|
                    0 <= k < a.components@.len() implies ac_obs_eq(
                    #[trigger] a.components@[k],
                    b.components@[k],
                ) by {
                    assert(ac_obs_eq(s1.components@[k], s2.components@[k]));
                }
            },
        }
    } else {
        assert forall|k: int|
            0 <= k < a.components@.len() implies ac_obs_eq(
            #[trigger] a.components@[k],
            b.components@[k],
        ) by {
            assert(ac_obs_eq(s1.components@[k], s2.components@[k]));
        }
    }
}

proof fn lemma_adsr1_cmd_det(s1: Rack, s2: Rack, a: Rack, b: Rack, port: Port, v: i16)
    requires
        rack_obs_eq(s1, s2),
        s1.names@.len() == s1.components@.len(),
        adsr1_write_rel(s1, a, port, v),
        adsr1_write_rel(s2, b, port, v),
    ensures
        a.components@.len() == b.components@.len(),
        forall|k: int|
            0 <= k < a.components@.len() ==> ac_obs_eq(
                #[trigger] a.components@[k],
                b.components@[k],
            ),
{
    if exists|j: int| targeted(s1.names@, j, "adsr1"@) {
        let j = choose|j: int| targeted(s1.names@, j, "adsr1"@);
        assert(s1.names@ == s2.names@);
        assert(targeted(s2.names@, j, "adsr1"@));
        assert(ac_obs_eq(s1.components@[j], s2.components@[j]));
        assert forall|k: int|
            0 <= k < a.components@.len() implies ac_obs_eq(
            #[trigger] a.components@[k],
            b.components@[k],
        ) by {
            match s1.components@[j] {
                AvailableComponents::Adsr(_) => {
                    if k == j {
                        lemma_ac_write_cong(s1.components@[j], s2.components@[j], port, v);
                    } else {
                        assert(ac_obs_eq(s1.components@[k], s2.components@[k]));
                    }
                },
                _ => {
                    assert(ac_obs_eq(s1.components@[k], s2.components@[k]));
                },
            }
        }
    } else {
        assert forall|k: int|
            0 <= k < a.components@.len() implies ac_obs_eq(
            #[trigger] a.components@[k],
            b.components@[k],
        ) by {
            assert(ac_obs_eq(s1.components@[k], s2.components@[k]));
        }
    }
}

/// Applying one command is deterministic on observably equal racks.
proof fn lemma_cmd_deterministic(s1: Rack, s2: Rack, a: Rack, b: Rack, cmd: Cmd)
    requires
        rack_obs_eq(s1, s2),
        s1.names@.len() == s1.components@.len(),
        rack_cmd_rel(s1, a, cmd),
        rack_cmd_rel(s2, b, cmd),
    ensures
        rack_obs_eq(a, b),
{
    match cmd {
        Cmd::Freq(f) => {
            assert forall|k: int|
                0 <= k < a.components@.len() implies ac_obs_eq(
                #[trigger] a.components@[k],
                b.components@[k],
            ) by {
                if s1.components@.len() > 0 && k == 0 {
                    lemma_ac_write_cong(s1.components@[0], s2.components@[0], Port::Freq, f);
                } else {
                    assert(ac_obs_eq(s1.components@[k], s2.components@[k]));
                }
            }
        },
        Cmd::Beat(i, bit) => {
            lemma_beat_cmd_det(s1, s2, a, b, "seq1"@, i as int, bit);
        },
        Cmd::Obeat(i, bit) => {
            lemma_beat_cmd_det(s1, s2, a, b, "seq1o"@, i as int, bit);
        },
        Cmd::Scale(n) => {
            if exists|j: int| targeted(s1.names@, j, "arp1"@) {
                let j = choose|j: int| targeted(s1.names@, j, "arp1"@);
                assert(s1.names@ == s2.names@);
                assert(targeted(s2.names@, j, "arp1"@));
                assert(ac_obs_eq(s1.components@[j], s2.components@[j]));
                assert forall|k: int|
                    0 <= k < a.components@.len() implies ac_obs_eq(
                    #[trigger] a.components@[k],
                    b.components@[k],
                ) by {
                    match (s1.components@[j], s2.components@[j]) {
                        (
                            AvailableComponents::BasicArp(x1),
                            AvailableComponents::BasicArp(x2),
                        ) => {
                            if k != j {
                                assert(a.components@[k] == s1.components@[k]);
                                assert(b.components@[k] == s2.components@[k]);
                                assert(ac_obs_eq(s1.components@[k], s2.components@[k]));
                            }
                        },
                        _ => {
                            assert(ac_obs_eq(s1.components@[k], s2.components@[k]));
                        },
                    }
                }
            } else {
                assert forall|k: int|
                    0 <= k < a.components@.len() implies ac_obs_eq(
                    #[trigger] a.components@[k],
                    b.components@[k],
                ) by {
                    assert(ac_obs_eq(s1.components@[k], s2.components@[k]));
                }
            }
        },
        Cmd::FileWaveTable(_) => {
            assert forall|k: int|
                0 <= k < a.components@.len() implies ac_obs_eq(
                #[trigger] a.components@[k],
                b.components@[k],
            ) by {
                assert(ac_obs_eq(s1.components@[k], s2.components@[k]));
            }
        },
        Cmd::AdsrAttackFor(v) => {
            lemma_adsr1_cmd_det(s1, s2, a, b, Port::AttackFor, v);
        },
        Cmd::AdsrAttackTo(v) => {
            lemma_adsr1_cmd_det(s1, s2, a, b, Port::AttackTo, v);
        },
        Cmd::AdsrDecayFor(v) => {
            lemma_adsr1_cmd_det(s1, s2, a, b, Port::DecayFor, v);
        },
        Cmd::AdsrSustainAt(v) => {
            lemma_adsr1_cmd_det(s1, s2, a, b, Port::SustainAt, v);
        },
        Cmd::AdsrReleaseFor(v) => {
            lemma_adsr1_cmd_det(s1, s2, a, b, Port::ReleaseFor, v);
        },
    }
}

/// A command lands back inside the invariant and creates no fresh-draw
/// module.
proof fn lemma_cmd_rel_preserves(pre: Rack, post: Rack, cmd: Cmd)
    requires
        pre.inv(),
        rack_cmd_rel(pre, post, cmd),
    ensures
        post.inv(),
        rack_deterministic(pre) ==> rack_deterministic(post),
{
    assert forall|k: int|
        0 <= k < post.components@.len() implies (#[trigger] post.components@[k]).inv() && (
        rack_deterministic(pre) ==> ac_deterministic(post.components@[k])) by {
        lemma_cmd_component_cases(pre, post, cmd, k);
    }
}

proof fn lemma_cmd_component_cases(pre: Rack, post: Rack, cmd: Cmd, k: int)
    requires
        pre.inv(),
        rack_cmd_rel(pre, post, cmd),
        0 <= k < post.components@.len(),
    ensures
        post.components@[k].inv(),
        rack_deterministic(pre) ==> ac_deterministic(post.components@[k]),
{
    match cmd {
        Cmd::Freq(f) => {
            if k == 0 && pre.components@.len() > 0 {
                lemma_ac_tick_write_inv(pre.components@[0], Port::Freq, f);
            }
        },
        Cmd::Beat(i, bit) => {
            lemma_beat_component_case(pre, post, "seq1"@, i as int, bit, k);
        },
        Cmd::Obeat(i, bit) => {
            lemma_beat_component_case(pre, post, "seq1o"@, i as int, bit, k);
        },
        Cmd::Scale(n) => {
            if exists|j: int| targeted(pre.names@, j, "arp1"@) {
                let j = choose|j: int| targeted(pre.names@, j, "arp1"@);
                match (pre.components@[j], post.components@[j]) {
                    (AvailableComponents::BasicArp(x), AvailableComponents::BasicArp(x2)) => {
                        if k == j {
                            assert(x2.notes@.len() == 7);
                            assert(x2.wf());
                        }
                    },
                    _ => {},
                }
            }
        },
        Cmd::FileWaveTable(_) => {},
        Cmd::AdsrAttackFor(v) => {
            lemma_adsr1_component_case(pre, post, Port::AttackFor, v, k);
        },
        Cmd::AdsrAttackTo(v) => {
            lemma_adsr1_component_case(pre, post, Port::AttackTo, v, k);
        },
        Cmd::AdsrDecayFor(v) => {
            lemma_adsr1_component_case(pre, post, Port::DecayFor, v, k);
        },
        Cmd::AdsrSustainAt(v) => {
            lemma_adsr1_component_case(pre, post, Port::SustainAt, v, k);
        },
        Cmd::AdsrReleaseFor(v) => {
            lemma_adsr1_component_case(pre, post, Port::ReleaseFor, v, k);
        },
    }
}

proof fn lemma_beat_component_case(pre: Rack, post: Rack, name: Seq<char>, i: int, bit: bool, k: int)
    requires
        pre.inv(),
        beat_set_cmd_rel(pre, post, name, i, bit),
        0 <= k < post.components@.len(),
    ensures
        post.components@[k].inv(),
        ac_deterministic(pre.components@[k]) ==> ac_deterministic(post.components@[k]),
{
    if exists|j: int| targeted(pre.names@, j, name) {
        let j = choose|j: int| targeted(pre.names@, j, name);
        match (pre.components@[j], post.components@[j]) {
            (AvailableComponents::BasicSeq(x), AvailableComponents::BasicSeq(x2)) => {
                if 0 <= i < 16 && k == j {
                    assert(x2.beats@.len() == 16);
                    assert(x2.wf());
                }
            },
            _ => {},
        }
    }
}

proof fn lemma_adsr1_component_case(pre: Rack, post: Rack, port: Port, v: i16, k: int)
    requires
        pre.inv(),
        adsr1_write_rel(pre, post, port, v),
        0 <= k < post.components@.len(),
    ensures
        post.components@[k].inv(),
        ac_deterministic(pre.components@[k]) ==> ac_deterministic(post.components@[k]),
{
    if exists|j: int| targeted(pre.names@, j, "adsr1"@) {
        let j = choose|j: int| targeted(pre.names@, j, "adsr1"@);
        match pre.components@[j] {
            AvailableComponents::Adsr(_) => {
                if k == j {
                    lemma_ac_tick_write_inv(pre.components@[j], port, v);
                }
            },
            _ => {},
        }
    }
}

/// A control schedule run: each sample boundary drains at most one
/// pending command, then computes one sample -- the engine thread's own
/// cadence.
pub open spec fn rack_sched_rel(
    pre: Rack,
    post: Rack,
    cmds: Seq<Option<Cmd>>,
    outs: Seq<i16>,
) -> bool
    decreases cmds.len(),
{
    if cmds.len() == 0 {
        &&& post == pre
        &&& outs.len() == 0
    } else {
        &&& outs.len() == cmds.len()
        &&& exists|m1: Rack, m2: Rack|
            {
                &&& (match cmds[0] {
                    Some(c) => rack_cmd_rel(pre, m1, c),
                    None => m1 == pre,
                })
                &&& #[trigger] rack_step_rel(m1, m2, outs[0])
                &&& rack_sched_rel(m2, post, cmds.drop_first(), outs.drop_first())
            }
    }
}

proof fn lemma_sched_step_witness(pre: Rack, post: Rack, cmds: Seq<Option<Cmd>>, outs: Seq<
    i16,
>) -> (m: (Rack, Rack))
    requires
        cmds.len() > 0,
        rack_sched_rel(pre, post, cmds, outs),
    ensures
        match cmds[0] {
            Some(c) => rack_cmd_rel(pre, m.0, c),
            None => m.0 == pre,
        },
        rack_step_rel(m.0, m.1, outs[0]),
        rack_sched_rel(m.1, post, cmds.drop_first(), outs.drop_first()),
{
    let (m1, m2) = choose|m1: Rack, m2: Rack|
        {
            &&& (match cmds[0] {
                Some(c) => rack_cmd_rel(pre, m1, c),
                None => m1 == pre,
            })
            &&& #[trigger] rack_step_rel(m1, m2, outs[0])
            &&& rack_sched_rel(m2, post, cmds.drop_first(), outs.drop_first())
        };
    (m1, m2)
}

/// Law: determinism extends over command-interleaved schedules.  Two
/// runs of a fresh-draw-free patch from one state, with the same
/// commands delivered at the same sample boundaries, emit bit-identical
/// sample streams and end observably equal.
#[verifier::rlimit(100)]
#[verifier::spinoff_prover]
pub proof fn lemma_sched_deterministic(
    s1: Rack,
    s2: Rack,
    a: Rack,
    b: Rack,
    cmds: Seq<Option<Cmd>>,
    o1: Seq<i16>,
    o2: Seq<i16>,
)
    requires
        rack_obs_eq(s1, s2),
        rack_deterministic(s1),
        s1.inv(),
        s2.inv(),
        rack_sched_rel(s1, a, cmds, o1),
        rack_sched_rel(s2, b, cmds, o2),
    ensures
        o1 == o2,
        rack_obs_eq(a, b),
    decreases cmds.len(),
{
    if cmds.len() == 0 {
        assert(o1 =~= o2);
    } else {
        let (m11, m12) = lemma_sched_step_witness(s1, a, cmds, o1);
        let (m21, m22) = lemma_sched_step_witness(s2, b, cmds, o2);
        match cmds[0] {
            Some(c) => {
                assert(s1.names@.len() == s1.components@.len());
                lemma_cmd_deterministic(s1, s2, m11, m21, c);
                lemma_cmd_rel_preserves(s1, m11, c);
                lemma_cmd_rel_preserves(s2, m21, c);
            },
            None => {},
        }
        lemma_rack_step_deterministic(m11, m21, m12, m22, o1[0], o2[0]);
        lemma_rack_step_rel_inv(m11, m12, o1[0]);
        lemma_rack_step_rel_inv(m21, m22, o2[0]);
        lemma_sched_deterministic(m12, m22, a, b, cmds.drop_first(), o1.drop_first(), o2.drop_first());
        assert forall|i: int| 0 <= i < o1.len() implies o1[i] == o2[i] by {
            if i > 0 {
                assert(o1.drop_first()[i - 1] == o1[i]);
                assert(o2.drop_first()[i - 1] == o2[i]);
                assert(o1.drop_first()[i - 1] == o2.drop_first()[i - 1]);
            }
        }
        assert(o1 =~= o2);
    }
}

/// A name targets at most one index: any index satisfying `targeted`
/// equals the first match.
proof fn lemma_targeted_unique(names: Seq<String>, j: int, name: Seq<char>)
    requires
        0 <= j < names.len(),
        names[j]@ == name,
        forall|i: int| 0 <= i < j ==> (#[trigger] names[i])@ != name,
    ensures
        forall|jj: int| targeted(names, jj, name) ==> jj == j,
{
    assert forall|jj: int| targeted(names, jj, name) implies jj == j by {
        if jj < j {
            assert(names[jj]@ != name);
        } else if jj > j {
            assert(names[j]@ != name);
        }
    }
}

impl Rack {
    /// Drive the graph one audio sample and emit the output module's
    /// sample.
    pub fn run_sample(&mut self) -> (out: i16)
        requires
            old(self).inv(),
        ensures
            final(self).inv(),
            rack_step_rel(*old(self), *final(self), out),
    {
        proof {
            reveal(rack_step_rel);
        }
        let ticked: bool = if self.cycle_counter + 1 >= self.cycles_per_tick {
            self.cycle_counter = 0;
            true
        } else {
            self.cycle_counter = self.cycle_counter + 1;
            false
        };
        let n = self.components.len();
        let mut i: usize = 0;
        while i < n
            invariant
                i <= n,
                n == self.components@.len(),
                n == old(self).components@.len(),
                self.names == old(self).names,
                self.wires == old(self).wires,
                self.cycles_per_tick == old(self).cycles_per_tick,
                self.out_node == old(self).out_node,
                self.cycle_counter == (if ticked {
                    0int
                } else {
                    old(self).cycle_counter + 1
                }),
                ticked == (old(self).cycle_counter + 1 >= old(self).cycles_per_tick),
                old(self).inv(),
                forall|k: int| 0 <= k < n ==> (#[trigger] self.components@[k]).inv(),
                forall|k: int|
                    0 <= k < i ==> AvailableComponents::step_rel(
                        old(self).components@[k],
                        #[trigger] self.components@[k],
                    ),
                forall|k: int| i <= k < n ==> self.components@[k] == old(self).components@[k],
            decreases n - i,
        {
            self.components[i].step();
            i = i + 1;
        }
        let ghost mid = self.components@;
        proof {
            assert(step_all_rel(old(self).components@, mid));
        }
        if ticked {
            let mut j: usize = 0;
            while j < n
                invariant
                    j <= n,
                    n == self.components@.len(),
                    mid.len() == n,
                    self.names == old(self).names,
                    self.wires == old(self).wires,
                    self.cycles_per_tick == old(self).cycles_per_tick,
                    self.out_node == old(self).out_node,
                    self.cycle_counter == (if ticked {
                        0int
                    } else {
                        old(self).cycle_counter + 1
                    }),
                    old(self).inv(),
                    forall|k: int| 0 <= k < n ==> (#[trigger] self.components@[k]).inv(),
                    forall|k: int|
                        0 <= k < j ==> (#[trigger] self.components@[k]) == mid[k].tick_spec(),
                    forall|k: int| j <= k < n ==> self.components@[k] == mid[k],
                decreases n - j,
            {
                self.components[j].tick();
                j = j + 1;
            }
            proof {
                assert(self.components@ =~= tick_all_spec(mid));
            }
        }
        let ghost base = self.components@;
        proof {
            if ticked {
                assert(base == tick_all_spec(mid));
            } else {
                assert(base == mid);
            }
        }
        let m = self.wires.len();
        let mut w: usize = 0;
        while w < m
            invariant
                w <= m,
                m == self.wires@.len(),
                self.names == old(self).names,
                self.wires == old(self).wires,
                self.cycles_per_tick == old(self).cycles_per_tick,
                self.out_node == old(self).out_node,
                self.cycle_counter == (if ticked {
                    0int
                } else {
                    old(self).cycle_counter + 1
                }),
                old(self).inv(),
                base.len() == old(self).components@.len(),
                self.components@.len() == old(self).components@.len(),
                forall|k: int| 0 <= k < self.components@.len() ==> (#[trigger] self.components@[k]).inv(),
                self.components@ == propagate_spec(base, self.wires@, w as int),
            decreases m - w,
        {
            let wire = self.wires[w];
            proof {
                assert(old(self).wires@[w as int].src < old(self).components@.len());
            }
            let v = self.components[wire.src].read(wire.src_port);
            self.components[wire.dst].write(wire.dst_port, v);
            w = w + 1;
        }
        let out = self.components[self.out_node].read(Port::Out);
        proof {
            assert(step_all_rel(old(self).components@, mid) && self.components@
                == propagate_spec(
                if ticked {
                    tick_all_spec(mid)
                } else {
                    mid
                },
                old(self).wires@,
                old(self).wires@.len() as int,
            ));
        }
        out
    }

    /// Apply one control command to the stock patch targets: the envelope
    /// registered as `adsr1`, the sequencers `seq1` and `seq1o`, the
    /// arpeggiator `arp1`, and (for `Freq`) the first registered module.
    /// A waveform-load request is not performed here -- file reading has
    /// no place on the sample path -- but handed back for the embedding
    /// application to carry out and feed to `load_custom_into`.
    pub fn apply_cmd(&mut self, cmd: &Cmd) -> (req: Option<SingleCycleWaveFormItem>)
        requires
            old(self).inv(),
        ensures
            final(self).inv(),
            final(self).names == old(self).names,
            final(self).wires == old(self).wires,
            final(self).cycle_counter == old(self).cycle_counter,
            final(self).cycles_per_tick == old(self).cycles_per_tick,
            final(self).out_node == old(self).out_node,
            cmd_rel(*old(self), *final(self), *cmd),
            rack_cmd_rel(*old(self), *final(self), *cmd),
            match cmd {
                Cmd::FileWaveTable(it) => req matches Some(x) && x.name == it.name && x.path
                    == it.path,
                _ => req is None,
            },
    {
        match cmd {
            Cmd::Freq(f) => {
                if self.components.len() > 0 {
                    self.components[0].write(Port::Freq, *f);
                }
                None
            },
            Cmd::Beat(i, b) => {
                let name = "seq1".to_owned();
                self.set_seq_beat(&name, *i, *b);
                None
            },
            Cmd::Obeat(i, b) => {
                let name = "seq1o".to_owned();
                self.set_seq_beat(&name, *i, *b);
                None
            },
            Cmd::Scale(n) => {
                let name = "arp1".to_owned();
                match Rack::find_index(&self.names, &name) {
                    Some(j) => {
                        match &mut self.components[j] {
                            AvailableComponents::BasicArp(a) => {
                                let scale = n.major_scale();
                                proof {
                                    assert(scale@ =~= major_scale_spec(*n));
                                }
                                a.notes = scale;
                            },
                            _ => {
                                proof {
                                    assert(self.components@ =~= old(self).components@);
                                }
                            },
                        }
                        proof {
                            assert(targeted(old(self).names@, j as int, name@));
                            lemma_targeted_unique(old(self).names@, j as int, name@);
                        }
                    },
                    None => {},
                }
                None
            },
            Cmd::FileWaveTable(it) => {
                Some(
                    SingleCycleWaveFormItem { name: it.name.clone(), path: it.path.clone() },
                )
            },
            Cmd::AdsrAttackFor(v) => {
                self.write_adsr1(Port::AttackFor, *v);
                None
            },
            Cmd::AdsrAttackTo(v) => {
                self.write_adsr1(Port::AttackTo, *v);
                None
            },
            Cmd::AdsrDecayFor(v) => {
                self.write_adsr1(Port::DecayFor, *v);
                None
            },
            Cmd::AdsrSustainAt(v) => {
                self.write_adsr1(Port::SustainAt, *v);
                None
            },
            Cmd::AdsrReleaseFor(v) => {
                self.write_adsr1(Port::ReleaseFor, *v);
                None
            },
        }
    }

    /// Write one envelope parameter port of the module registered as
    /// `adsr1`, if there is one and it is an envelope.
    fn write_adsr1(&mut self, port: Port, v: i16)
        requires
            old(self).inv(),
        ensures
            final(self).inv(),
            final(self).names == old(self).names,
            final(self).wires == old(self).wires,
            final(self).cycle_counter == old(self).cycle_counter,
            final(self).cycles_per_tick == old(self).cycles_per_tick,
            final(self).out_node == old(self).out_node,
            adsr1_write_rel(*old(self), *final(self), port, v),
    {
        let name = "adsr1".to_owned();
        match Rack::find_index(&self.names, &name) {
            Some(j) => {
                match &mut self.components[j] {
                    AvailableComponents::Adsr(a) => {
                        a.write(port, v);
                    },
                    _ => {
                        proof {
                            assert(self.components@ =~= old(self).components@);
                        }
                    },
                }
                proof {
                    assert(targeted(old(self).names@, j as int, name@));
                    lemma_targeted_unique(old(self).names@, j as int, name@);
                }
            },
            None => {},
        }
    }

    /// Edit one step of the beat pattern of the sequencer registered
    /// under `name`, if there is one and the index names a step.
    fn set_seq_beat(&mut self, name: &String, i: i16, b: bool)
        requires
            old(self).inv(),
        ensures
            final(self).inv(),
            final(self).names == old(self).names,
            final(self).wires == old(self).wires,
            final(self).cycle_counter == old(self).cycle_counter,
            final(self).cycles_per_tick == old(self).cycles_per_tick,
            final(self).out_node == old(self).out_node,
            beat_set_cmd_rel(*old(self), *final(self), name@, i as int, b),
    {
        match Rack::find_index(&self.names, name) {
            Some(j) => {
                match &mut self.components[j] {
                    AvailableComponents::BasicSeq(s) => {
                        if 0 <= i && i < 16 {
                            s.set_beat(i as usize, b);
                        } else {
                            proof {
                                assert(self.components@ =~= old(self).components@);
                            }
                        }
                    },
                    _ => {
                        proof {
                            assert(self.components@ =~= old(self).components@);
                        }
                    },
                }
                proof {
                    assert(targeted(old(self).names@, j as int, name@));
                    lemma_targeted_unique(old(self).names@, j as int, name@);
                }
            },
            None => {},
        }
    }

    /// Replace the custom wavetable of the module registered under `node`
    /// with a loaded single-cycle sample sequence, if that module is a
    /// wavetable oscillator.
    pub fn load_custom_into(&mut self, node: &String, data: &Vec<i16>)
        requires
            old(self).inv(),
        ensures
            final(self).inv(),
            final(self).names == old(self).names,
            final(self).wires == old(self).wires,
            final(self).cycle_counter == old(self).cycle_counter,
            final(self).cycles_per_tick == old(self).cycles_per_tick,
            final(self).out_node == old(self).out_node,
            final(self).components@.len() == old(self).components@.len(),
            forall|j: int|
                targeted(old(self).names@, j, node@) ==> match old(self).components@[j] {
                    AvailableComponents::WaveTableOsc(o) => {
                        &&& (forall|k: int|
                            0 <= k < old(self).components@.len() && k != j
                                ==> #[trigger] final(self).components@[k] == old(
                                self,
                            ).components@[k])
                        &&& match final(self).components@[j] {
                            AvailableComponents::WaveTableOsc(o2) => {
                                &&& o2.wt@.len() == 1024
                                &&& o2.wt@[0] == o.wt@[0]
                                &&& (forall|k: int|
                                    1 <= k < 1024 ==> o2.wt@[k] == (if k < data@.len() {
                                        data@[k]
                                    } else {
                                        o.wt@[k]
                                    }))
                                &&& o2.which_table == crate::osc::WaveTableChoice::Custom
                                &&& o2 == (WaveTableOsc {
                                    wt: o2.wt,
                                    which_table: crate::osc::WaveTableChoice::Custom,
                                    ..o
                                })
                            },
                            _ => false,
                        }
                    },
                    _ => final(self).components@ == old(self).components@,
                },
            (forall|j: int| !targeted(old(self).names@, j, node@)) ==> final(self).components@
                == old(self).components@,
    {
        match Rack::find_index(&self.names, node) {
            Some(j) => {
                match &mut self.components[j] {
                    AvailableComponents::WaveTableOsc(o) => {
                        o.load_custom(data);
                    },
                    _ => {
                        proof {
                            assert(self.components@ =~= old(self).components@);
                        }
                    },
                }
                proof {
                    assert(targeted(old(self).names@, j as int, node@));
                    lemma_targeted_unique(old(self).names@, j as int, node@);
                }
            },
            None => {},
        }
    }

    /// Drive the graph `n` samples and collect the emitted stream; the
    /// run satisfies the sample-by-sample run relation, so two runs of a
    /// fresh-draw-free patch from one state emit identical streams
    /// (`lemma_run_deterministic`).
    pub fn run(&mut self, n: usize) -> (outs: Vec<i16>)
        requires
            old(self).inv(),
        ensures
            final(self).inv(),
            outs@.len() == n,
            rack_run_rel(*old(self), *final(self), outs@),
    {
        let mut outs: Vec<i16> = Vec::new();
        let mut i: usize = 0;
        while i < n
            invariant
                i <= n,
                outs@.len() == i,
                self.inv(),
                rack_run_rel(*old(self), *self, outs@),
            decreases n - i,
        {
            let ghost pre = *self;
            let ghost o0 = outs@;
            let v = self.run_sample();
            outs.push(v);
            proof {
                lemma_run_snoc(*old(self), pre, *self, o0, v);
            }
            i = i + 1;
        }
        outs
    }

    /// The sequencer's current beat index, for observability; `None` when
    /// no module is registered as `seq1`.
    pub fn current_beat(&self) -> (r: Option<i16>)
        requires
            self.inv(),
        ensures
            match r {
                Some(v) => exists|i: int|
                    0 <= i < self.names@.len() && (#[trigger] self.names@[i])@ == "seq1"@ && v
                        == self.components@[i].read_spec(Port::Beat),
                None => forall|i: int|
                    0 <= i < self.names@.len() ==> (#[trigger] self.names@[i])@ != "seq1"@,
            },
    {
        let name = "seq1".to_owned();
        match Rack::find_index(&self.names, &name) {
            Some(i) => {
                proof {
                    assert(self.names@.len() == self.components@.len());
                }
                Some(self.components[i].read(Port::Beat))
            },
            None => None,
        }
    }
}

} // verus!
