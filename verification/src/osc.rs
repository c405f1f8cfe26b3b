//! Oscillators: phase accumulators producing periodic control or audio
//! signals, with frequency-relative modulation.
//!
//! The wavetable oscillator reads precomputed single-cycle tables; the
//! function oscillator evaluates a closed set of waveform functions on the
//! shifted accumulator directly.  The accumulators wrap by design: the
//! wraparound defines periodicity and must not be "fixed" into saturation.
//! The saw, triangle and square shapes are exact integer forms of the
//! generating formulas over one cycle; the white-noise table is a
//! cumulative random walk, so successive entries are correlated rather
//! than independent draws.

use vstd::prelude::*;
use vstd::arithmetic::div_mod::{
    lemma_add_mod_noop,
    lemma_mod_bound,
    lemma_mod_mod,
    lemma_mod_multiples_vanish,
};
use crate::fixed::{
    clamp_i16,
    clamp_to_i16,
    div_floor,
    div_trunc,
    mod_u32,
    reduce_mod_u32,
    scale_q15,
    trunc_div,
    wrap_i16,
    wrap_i32,
};
use crate::util::{Component, Port};

verus! {

/// One saw-wave sample: `32767 - 65535 * i / 1024`, truncated toward zero
/// and saturated to `i16`, over the cycle index `i`.
pub open spec fn saw_spec(i: int) -> int {
    clamp_i16(trunc_div(32767 * 1024 - 65535 * i, 1024))
}

/// One triangle-wave sample over the cycle index `i`: four linear pieces
/// between the extremes.
pub open spec fn triangle_spec(i: int) -> int {
    if i <= 256 {
        clamp_i16(trunc_div(32767 * i, 256))
    } else if i <= 512 {
        clamp_i16(trunc_div(32767 * (512 - i), 256))
    } else if i <= 768 {
        clamp_i16(trunc_div((-32768) * (i - 512), 256))
    } else {
        clamp_i16(trunc_div((-32768) * (1024 - i), 256))
    }
}

/// One square-wave sample over the cycle index `i`.
pub open spec fn square_spec(i: int) -> int {
    if i <= 512 {
        0x7fff
    } else {
        -0x8000
    }
}

/// Saw-wave sample at index `i`.
pub fn saw_val(i: u32) -> (r: i16)
    ensures
        r == saw_spec(i as int),
{
    let n: i64 = 32767 * 1024 - 65535 * (i as i64);
    clamp_to_i16(div_trunc(n, 1024))
}

/// Triangle-wave sample at index `i`.
pub fn triangle_val(i: u32) -> (r: i16)
    ensures
        r == triangle_spec(i as int),
{
    if i <= 256 {
        clamp_to_i16(div_trunc(32767 * (i as i64), 256))
    } else if i <= 512 {
        clamp_to_i16(div_trunc(32767 * (512 - (i as i64)), 256))
    } else if i <= 768 {
        clamp_to_i16(div_trunc((-32768) * ((i as i64) - 512), 256))
    } else {
        clamp_to_i16(div_trunc((-32768) * (1024 - (i as i64)), 256))
    }
}

/// Square-wave sample at index `i`.
pub fn square_val(i: u32) -> (r: i16)
    ensures
        r == square_spec(i as int),
{
    if i <= 512 {
        0x7fff
    } else {
        -0x8000
    }
}

/// Relies on rand::random::<i16>: a fresh 16-bit draw; nothing can be
/// promised of its value.
#[verifier::external_body]
fn random_i16() -> i16 {
    rand::random()
}

/// One cycle of the saw wave, 1024 entries.
pub fn saw_table() -> (t: Vec<i16>)
    ensures
        t@.len() == 1024,
        forall|j: int| 0 <= j < 1024 ==> t@[j] == saw_spec(j),
{
    let mut t: Vec<i16> = Vec::new();
    let mut j: u32 = 0;
    while j < 1024
        invariant
            j <= 1024,
            t@.len() == j,
            forall|k: int| 0 <= k < j ==> t@[k] == saw_spec(k),
        decreases 1024 - j,
    {
        t.push(saw_val(j));
        j = j + 1;
    }
    t
}

/// One cycle of the triangle wave, 1024 entries.
pub fn triangle_table() -> (t: Vec<i16>)
    ensures
        t@.len() == 1024,
        forall|j: int| 0 <= j < 1024 ==> t@[j] == triangle_spec(j),
{
    let mut t: Vec<i16> = Vec::new();
    let mut j: u32 = 0;
    while j < 1024
        invariant
            j <= 1024,
            t@.len() == j,
            forall|k: int| 0 <= k < j ==> t@[k] == triangle_spec(k),
        decreases 1024 - j,
    {
        t.push(triangle_val(j));
        j = j + 1;
    }
    t
}

/// One cycle of the square wave, 1024 entries.
pub fn square_table() -> (t: Vec<i16>)
    ensures
        t@.len() == 1024,
        forall|j: int| 0 <= j < 1024 ==> t@[j] == square_spec(j),
{
    let mut t: Vec<i16> = Vec::new();
    let mut j: u32 = 0;
    while j < 1024
        invariant
            j <= 1024,
            t@.len() == j,
            forall|k: int| 0 <= k < j ==> t@[k] == square_spec(k),
        decreases 1024 - j,
    {
        t.push(square_val(j));
        j = j + 1;
    }
    t
}

/// One cycle of correlated noise: a cumulative random walk from zero.
pub fn white_noise_table() -> (t: Vec<i16>)
    ensures
        t@.len() == 1024,
        t@[0] == 0,
{
    let mut t: Vec<i16> = Vec::new();
    t.push(0);
    let mut j: u32 = 1;
    while j < 1024
        invariant
            1 <= j <= 1024,
            t@.len() == j,
            t@[0] == 0,
        decreases 1024 - j,
    {
        let prev: i16 = t[(j - 1) as usize];
        t.push(prev.wrapping_add(random_i16()));
        j = j + 1;
    }
    t
}

/// The closed set of waveform functions the function oscillator evaluates.
#[derive(Clone, Copy, PartialEq, Eq, Structural, Debug)]
pub enum FuncWave {
    Saw,
    Triangle,
    Square,
    WhiteNoise,
}

/// Evaluate one waveform function at a cycle index; the white-noise form
/// draws fresh.
fn func_val(f: FuncWave, i: u32) -> (r: i16)
    ensures
        f == FuncWave::Saw ==> r == saw_spec(i as int),
        f == FuncWave::Triangle ==> r == triangle_spec(i as int),
        f == FuncWave::Square ==> r == square_spec(i as int),
{
    match f {
        FuncWave::Saw => saw_val(i),
        FuncWave::Triangle => triangle_val(i),
        FuncWave::Square => square_val(i),
        FuncWave::WhiteNoise => random_i16(),
    }
}

/// Function-generator oscillator: a wrapping phase accumulator feeding one
/// of the closed waveform functions.
pub struct FuncOsc {
    pub counter: u32,
    pub func: FuncWave,
    pub freq_ipc: u32,
    pub modulation_idx: i16,
    pub modulation: i16,
    pub phase_offset: i16,
    pub out_cv: i16,
    pub dummy: i16,
}

impl FuncOsc {
    pub fn new(func: FuncWave, init_freq_ipc_64: u32) -> (r: FuncOsc)
        ensures
            r == (FuncOsc {
                counter: 0,
                func,
                freq_ipc: init_freq_ipc_64,
                modulation_idx: 0,
                modulation: 0,
                phase_offset: 0,
                out_cv: 0,
                dummy: 0,
            }),
    {
        FuncOsc {
            counter: 0,
            func,
            freq_ipc: init_freq_ipc_64,
            modulation_idx: 0,
            modulation: 0,
            phase_offset: 0,
            out_cv: 0,
            dummy: 0,
        }
    }

    pub fn saw(init_freq_ipc_64: u32) -> (r: FuncOsc)
        ensures
            r == FuncOsc::new_spec(FuncWave::Saw, init_freq_ipc_64),
    {
        FuncOsc::new(FuncWave::Saw, init_freq_ipc_64)
    }

    pub fn triangle(init_freq_ipc_64: u32) -> (r: FuncOsc)
        ensures
            r == FuncOsc::new_spec(FuncWave::Triangle, init_freq_ipc_64),
    {
        FuncOsc::new(FuncWave::Triangle, init_freq_ipc_64)
    }

    pub fn square(init_freq_ipc_64: u32) -> (r: FuncOsc)
        ensures
            r == FuncOsc::new_spec(FuncWave::Square, init_freq_ipc_64),
    {
        FuncOsc::new(FuncWave::Square, init_freq_ipc_64)
    }

    pub fn white_noise(init_freq_ipc_64: u32) -> (r: FuncOsc)
        ensures
            r == FuncOsc::new_spec(FuncWave::WhiteNoise, init_freq_ipc_64),
    {
        FuncOsc::new(FuncWave::WhiteNoise, init_freq_ipc_64)
    }

    /// A fresh oscillator at phase zero.
    pub open spec fn new_spec(func: FuncWave, ipc: u32) -> FuncOsc {
        FuncOsc {
            counter: 0,
            func,
            freq_ipc: ipc,
            modulation_idx: 0,
            modulation: 0,
            phase_offset: 0,
            out_cv: 0,
            dummy: 0,
        }
    }

    /// The accumulator after one step: base increment plus the
    /// Q1.15-scaled modulation offset, wrapped to 32 bits.
    pub open spec fn next_counter(self) -> int {
        mod_u32(
            self.counter + self.freq_ipc + wrap_i16(
                (self.modulation * self.modulation_idx) / 0x8000,
            ),
        )
    }

    /// The cycle index read this step: the new accumulator, phase-offset,
    /// taken as a signed word, shifted down six bits, reinterpreted
    /// unsigned.
    pub open spec fn table_index(self) -> int {
        mod_u32(wrap_i32(self.next_counter() + self.phase_offset) / 64)
    }

    /// The state after one step, with `noise` standing for whatever the
    /// fresh draw returned; the deterministic waveforms ignore it.
    pub open spec fn step_frame(self, noise: i16) -> FuncOsc {
        FuncOsc {
            counter: self.next_counter() as u32,
            out_cv: match self.func {
                FuncWave::Saw => saw_spec(self.table_index()) as i16,
                FuncWave::Triangle => triangle_spec(self.table_index()) as i16,
                FuncWave::Square => square_spec(self.table_index()) as i16,
                FuncWave::WhiteNoise => noise,
            },
            ..self
        }
    }

    pub fn step(&mut self)
        ensures
            *final(self) == old(self).step_frame(final(self).out_cv),
    {
        let m: i16 = scale_q15(self.modulation, self.modulation_idx);
        let t: i64 = (self.counter as i64) + (self.freq_ipc as i64) + (m as i64);
        let c2: u32 = reduce_mod_u32(t);
        proof {
            lemma_mod_bound(t as int, 0x1_0000_0000);
        }
        let s: i64 = (c2 as i64) + (self.phase_offset as i64);
        let iv: i64 = if s >= 0x8000_0000 {
            proof {
                assert(wrap_i32(s as int) == s - 0x1_0000_0000) by (nonlinear_arith)
                    requires
                        0x8000_0000 <= s < 0x1_8000_0000,
                ;
            }
            s - 0x1_0000_0000
        } else {
            proof {
                crate::fixed::lemma_wrap_i32_in_range(s as int);
            }
            s
        };
        let sh: i64 = div_floor(iv, 64);
        let idx: u32 = reduce_mod_u32(sh);
        self.counter = c2;
        self.out_cv = func_val(self.func, idx);
    }

    pub fn tick(&mut self)
        ensures
            *final(self) == *old(self),
    {
    }

    pub open spec fn read_spec(self, port: Port) -> i16 {
        match port {
            Port::Out => self.out_cv,
            _ => 0,
        }
    }

    pub fn read(&self, port: Port) -> (v: i16)
        ensures
            v == self.read_spec(port),
    {
        match port {
            Port::Out => self.out_cv,
            _ => 0,
        }
    }

    pub open spec fn write_spec(self, port: Port, v: i16) -> FuncOsc {
        match port {
            Port::Modulation => FuncOsc { modulation: v, ..self },
            Port::ModulationIdx => FuncOsc { modulation_idx: v, ..self },
            _ => FuncOsc { dummy: v, ..self },
        }
    }

    pub fn write(&mut self, port: Port, v: i16)
        ensures
            *final(self) == old(self).write_spec(port, v),
    {
        match port {
            Port::Modulation => self.modulation = v,
            Port::ModulationIdx => self.modulation_idx = v,
            _ => self.dummy = v,
        }
    }
}

impl Component for FuncOsc {
    open spec fn inv(&self) -> bool {
        true
    }

    fn step(&mut self) {
        FuncOsc::step(self)
    }

    fn tick(&mut self) {
        FuncOsc::tick(self)
    }

    fn inputs(&self) -> Vec<&'static str> {
        let mut v: Vec<&'static str> = Vec::new();
        v.push("modulation_idx");
        v.push("modulation");
        v
    }

    fn outputs(&self) -> Vec<&'static str> {
        let mut v: Vec<&'static str> = Vec::new();
        v.push("out");
        v
    }

    fn read(&self, port: Port) -> i16 {
        FuncOsc::read(self, port)
    }

    fn write(&mut self, port: Port, v: i16) {
        FuncOsc::write(self, port, v)
    }
}

/// The five stock single-cycle tables.  Four are generated here; the sine
/// table is handed in by the embedding application, which owns the
/// transcendental math that produces it.
pub struct WaveTables {
    pub sin: Vec<i16>,
    pub saw: Vec<i16>,
    pub triangle: Vec<i16>,
    pub square: Vec<i16>,
    pub white_noise: Vec<i16>,
}

impl WaveTables {
    pub open spec fn wf(self) -> bool {
        &&& self.sin.len() == 1024
        &&& self.saw.len() == 1024
        &&& self.triangle.len() == 1024
        &&& self.square.len() == 1024
        &&& self.white_noise.len() == 1024
    }

    /// Build the stock tables around a caller-supplied sine cycle.
    pub fn new(sin: Vec<i16>) -> (r: WaveTables)
        requires
            sin.len() == 1024,
        ensures
            r.wf(),
            r.sin == sin,
            forall|j: int| 0 <= j < 1024 ==> r.saw@[j] == saw_spec(j),
            forall|j: int| 0 <= j < 1024 ==> r.triangle@[j] == triangle_spec(j),
            forall|j: int| 0 <= j < 1024 ==> r.square@[j] == square_spec(j),
            r.white_noise@[0] == 0,
    {
        WaveTables {
            sin,
            saw: saw_table(),
            triangle: triangle_table(),
            square: square_table(),
            white_noise: white_noise_table(),
        }
    }
}

/// Which single-cycle table the wavetable oscillator reads.
#[derive(Clone, Copy, PartialEq, Eq, Structural, Debug)]
pub enum WaveTableChoice {
    Custom,
    Sin,
    Saw,
    Triangle,
    Square,
    WhiteNoise,
}

/// The remainder the accumulator holds after repeatedly paying out whole
/// table steps of size `p`.
pub open spec fn reduce_rem(c: int, p: int) -> int
    decreases c,
{
    if p <= 0 || c <= p {
        c
    } else {
        reduce_rem(c - p, p)
    }
}

/// How many whole table steps of size `p` the accumulator pays out.
pub open spec fn reduce_subs(c: int, p: int) -> int
    decreases c,
{
    if p <= 0 || c <= p {
        0
    } else {
        1 + reduce_subs(c - p, p)
    }
}

/// The pay-out loop only ever lowers a non-negative accumulator toward
/// the increment, by whole increments.
pub proof fn lemma_reduce_bounds(c: int, p: int)
    requires
        c >= 0,
    ensures
        0 <= reduce_rem(c, p) <= c,
        0 <= reduce_subs(c, p),
    decreases c,
{
    if !(p <= 0 || c <= p) {
        lemma_reduce_bounds(c - p, p);
    }
}

/// Wavetable oscillator: a phase accumulator whose high-order motion walks
/// a 1024-entry single-cycle table.  The per-note phase increment comes
/// from the caller-built `ipc_64_map`, indexed by the `freq`
/// control-voltage note index.
pub struct WaveTableOsc {
    pub counter: u32,
    pub wt_i: u32,
    pub wt: Vec<i16>,
    pub tables: WaveTables,
    pub which_table: WaveTableChoice,
    pub freq: i16,
    pub modulation_idx: i16,
    pub modulation: i16,
    pub phase_offset: i16,
    pub out_cv: i16,
    pub dummy: i16,
    pub ipc_64_map: Vec<u32>,
}

impl WaveTableOsc {
    /// Well-formed: every table holds one 1024-entry cycle, the increment
    /// map covers the 256 note indices, and the table cursor is in range.
    pub open spec fn wf(self) -> bool {
        &&& self.wt.len() == 1024
        &&& self.tables.wf()
        &&& self.ipc_64_map.len() == 256
        &&& self.wt_i < 1024
    }

    pub fn new(
        wt: Vec<i16>,
        tables: WaveTables,
        ipc_64_map: Vec<u32>,
        init_freq: i16,
        which_table: WaveTableChoice,
    ) -> (r: WaveTableOsc)
        requires
            wt.len() == 1024,
            tables.wf(),
            ipc_64_map.len() == 256,
        ensures
            r.wf(),
            r == (WaveTableOsc {
                counter: 0,
                wt_i: 0,
                wt,
                tables,
                which_table,
                freq: init_freq,
                modulation_idx: 0,
                modulation: 0,
                phase_offset: 0,
                out_cv: 0,
                dummy: 0,
                ipc_64_map,
            }),
    {
        WaveTableOsc {
            counter: 0,
            wt_i: 0,
            wt,
            tables,
            which_table,
            freq: init_freq,
            modulation_idx: 0,
            modulation: 0,
            phase_offset: 0,
            out_cv: 0,
            dummy: 0,
            ipc_64_map,
        }
    }

    pub fn sin(tables: WaveTables, ipc_64_map: Vec<u32>, init_freq: i16) -> (r: WaveTableOsc)
        requires
            tables.wf(),
            ipc_64_map.len() == 256,
        ensures
            r.wf(),
            r.which_table == WaveTableChoice::Sin,
            r.freq == init_freq,
            r.tables == tables,
            r.ipc_64_map == ipc_64_map,
            r.counter == 0 && r.wt_i == 0 && r.modulation_idx == 0 && r.modulation == 0
                && r.out_cv == 0 && r.phase_offset == 0 && r.dummy == 0,
            forall|j: int| 0 <= j < 1024 ==> r.wt@[j] == 0,
    {
        let mut wt: Vec<i16> = Vec::new();
        let mut j: u32 = 0;
        while j < 1024
            invariant
                j <= 1024,
                wt@.len() == j,
                forall|k: int| 0 <= k < j ==> wt@[k] == 0,
            decreases 1024 - j,
        {
            wt.push(0);
            j = j + 1;
        }
        WaveTableOsc::new(wt, tables, ipc_64_map, init_freq, WaveTableChoice::Sin)
    }

    pub fn saw(tables: WaveTables, ipc_64_map: Vec<u32>, init_freq: i16) -> (r: WaveTableOsc)
        requires
            tables.wf(),
            ipc_64_map.len() == 256,
        ensures
            r.wf(),
            r.which_table == WaveTableChoice::Saw,
            r.freq == init_freq,
            r.tables == tables,
            r.ipc_64_map == ipc_64_map,
            r.counter == 0 && r.wt_i == 0 && r.modulation_idx == 0 && r.modulation == 0
                && r.out_cv == 0 && r.phase_offset == 0 && r.dummy == 0,
            forall|j: int| 0 <= j < 1024 ==> r.wt@[j] == 0,
    {
        let mut o = WaveTableOsc::sin(tables, ipc_64_map, init_freq);
        o.which_table = WaveTableChoice::Saw;
        o
    }

    pub fn triangle(tables: WaveTables, ipc_64_map: Vec<u32>, init_freq: i16) -> (r: WaveTableOsc)
        requires
            tables.wf(),
            ipc_64_map.len() == 256,
        ensures
            r.wf(),
            r.which_table == WaveTableChoice::Triangle,
            r.freq == init_freq,
            r.tables == tables,
            r.ipc_64_map == ipc_64_map,
            r.counter == 0 && r.wt_i == 0 && r.modulation_idx == 0 && r.modulation == 0
                && r.out_cv == 0 && r.phase_offset == 0 && r.dummy == 0,
            forall|j: int| 0 <= j < 1024 ==> r.wt@[j] == 0,
    {
        let mut o = WaveTableOsc::sin(tables, ipc_64_map, init_freq);
        o.which_table = WaveTableChoice::Triangle;
        o
    }

    pub fn square(tables: WaveTables, ipc_64_map: Vec<u32>, init_freq: i16) -> (r: WaveTableOsc)
        requires
            tables.wf(),
            ipc_64_map.len() == 256,
        ensures
            r.wf(),
            r.which_table == WaveTableChoice::Square,
            r.freq == init_freq,
            r.tables == tables,
            r.ipc_64_map == ipc_64_map,
            r.counter == 0 && r.wt_i == 0 && r.modulation_idx == 0 && r.modulation == 0
                && r.out_cv == 0 && r.phase_offset == 0 && r.dummy == 0,
            forall|j: int| 0 <= j < 1024 ==> r.wt@[j] == 0,
    {
        let mut o = WaveTableOsc::sin(tables, ipc_64_map, init_freq);
        o.which_table = WaveTableChoice::Square;
        o
    }

    pub fn white_noise(tables: WaveTables, ipc_64_map: Vec<u32>, init_freq: i16) -> (r:
        WaveTableOsc)
        requires
            tables.wf(),
            ipc_64_map.len() == 256,
        ensures
            r.wf(),
            r.which_table == WaveTableChoice::WhiteNoise,
            r.freq == init_freq,
            r.tables == tables,
            r.ipc_64_map == ipc_64_map,
            r.counter == 0 && r.wt_i == 0 && r.modulation_idx == 0 && r.modulation == 0
                && r.out_cv == 0 && r.phase_offset == 0 && r.dummy == 0,
            forall|j: int| 0 <= j < 1024 ==> r.wt@[j] == 0,
    {
        let mut o = WaveTableOsc::sin(tables, ipc_64_map, init_freq);
        o.which_table = WaveTableChoice::WhiteNoise;
        o
    }

    /// Replace the custom table's contents from a single-cycle sample
    /// sequence, copying entries one through the table length (the first
    /// entry stays, as the copy has always begun at one), and switch the
    /// active selector to the custom table.
    pub fn load_custom(&mut self, data: &Vec<i16>)
        requires
            old(self).wf(),
        ensures
            final(self).wf(),
            final(self).wt@.len() == 1024,
            final(self).wt@[0] == old(self).wt@[0],
            forall|j: int|
                1 <= j < 1024 ==> final(self).wt@[j] == (if j < data@.len() {
                    data@[j]
                } else {
                    old(self).wt@[j]
                }),
            final(self).which_table == WaveTableChoice::Custom,
            *final(self) == (WaveTableOsc {
                wt: final(self).wt,
                which_table: WaveTableChoice::Custom,
                ..*old(self)
            }),
    {
        let n: usize = if data.len() < 1024 {
            data.len()
        } else {
            1024
        };
        let mut j: usize = 1;
        while j < n
            invariant
                1 <= j,
                j <= n || n < 1,
                n <= 1024,
                n <= data@.len(),
                n == 1024 || n == data@.len(),
                self.wt@.len() == 1024,
                self.wt@[0] == old(self).wt@[0],
                forall|k: int|
                    1 <= k < j ==> self.wt@[k] == (if k < data@.len() {
                        data@[k]
                    } else {
                        old(self).wt@[k]
                    }),
                forall|k: int| j <= k < 1024 ==> self.wt@[k] == old(self).wt@[k],
                *self == (WaveTableOsc { wt: self.wt, ..*old(self) }),
            decreases 1024 - j,
        {
            self.wt[j] = data[j];
            j = j + 1;
        }
        self.which_table = WaveTableChoice::Custom;
    }

    /// The table entry the active selector reads at cursor `i`.
    pub open spec fn table_at(self, i: int) -> i16 {
        match self.which_table {
            WaveTableChoice::Custom => self.wt@[i],
            WaveTableChoice::Sin => self.tables.sin@[i],
            WaveTableChoice::Saw => self.tables.saw@[i],
            WaveTableChoice::Square => self.tables.square@[i],
            WaveTableChoice::Triangle => self.tables.triangle@[i],
            WaveTableChoice::WhiteNoise => self.tables.white_noise@[i],
        }
    }

    /// Whether the current note index can drive a step: it must name a map
    /// entry, and that entry must be a positive increment (the unfilled
    /// half of the map is zero, and a zero increment cannot advance).
    pub open spec fn valid_step(self) -> bool {
        &&& 0 <= self.freq < 256
        &&& self.ipc_64_map@[self.freq as int] > 0
    }

    /// The frequency-relative modulation offset: the modulation input
    /// scaled by the modulation depth, both Q1.15, applied to the base
    /// increment `p`.
    pub open spec fn mod_offset(self, p: int) -> int {
        (self.modulation * ((p * self.modulation_idx) / 0x8000)) / 0x8000
    }

    /// The accumulator after adding one sub-sample increment and the
    /// modulation offset, wrapped to 32 bits.
    pub open spec fn accum(self) -> int {
        mod_u32(
            self.counter + (256 as int) + self.mod_offset(self.ipc_64_map@[self.freq as int] as int),
        )
    }

    /// One sample.  On an invalid note index the oscillator holds its state
    /// rather than abort the sample path.  Otherwise the accumulator pays
    /// out whole steps of the note's increment into table-cursor motion,
    /// the cursor wraps at the table length, and the output is the selected
    /// table's entry under the cursor.
    pub open spec fn step_spec(self) -> WaveTableOsc {
        if !self.valid_step() {
            self
        } else {
            let p = self.ipc_64_map@[self.freq as int] as int;
            let c1 = self.accum();
            let wt2 = (self.wt_i + reduce_subs(c1, p)) % 1024;
            WaveTableOsc {
                counter: reduce_rem(c1, p) as u32,
                wt_i: wt2 as u32,
                out_cv: self.table_at(wt2),
                ..self
            }
        }
    }

    pub fn step(&mut self)
        requires
            old(self).wf(),
        ensures
            final(self).wf(),
            *final(self) == old(self).step_spec(),
    {
        if self.freq < 0 || self.freq >= 256 {
            return ;
        }
        let p: u32 = self.ipc_64_map[self.freq as usize];
        if p == 0 {
            return ;
        }
        proof {
            lemma_ipc_mod_bounds(
                p as int,
                self.modulation_idx as int,
                self.modulation as int,
            );
        }
        let m1: i64 = div_floor((p as i64) * (self.modulation_idx as i64), 0x8000);
        let m2: i64 = div_floor((self.modulation as i64) * m1, 0x8000);
        let t: i64 = (self.counter as i64) + 256 + m2;
        let mut c: u32 = reduce_mod_u32(t);
        let ghost c1 = c as int;
        let ghost w0 = self.wt_i as int;
        let mut wi: u32 = self.wt_i;
        let ghost mut sg: int = 0;
        while c > p
            invariant
                0 < p,
                wi == mod_u32(w0 + sg),
                0 <= sg,
                0 <= w0,
                reduce_rem(c1, p as int) == reduce_rem(c as int, p as int),
                sg + reduce_subs(c as int, p as int) == reduce_subs(c1, p as int),
            decreases c,
        {
            proof {
                lemma_mod_u32_succ(w0 + sg);
            }
            wi = wi.wrapping_add(1);
            c = c - p;
            proof {
                sg = sg + 1;
            }
        }
        proof {
            lemma_mod_u32_mod_1024(w0 + sg);
            lemma_mod_bound(w0 + sg, 1024);
        }
        self.counter = c;
        self.wt_i = wi % 1024;
        let i: usize = self.wt_i as usize;
        self.out_cv = match self.which_table {
            WaveTableChoice::Custom => self.wt[i],
            WaveTableChoice::Sin => self.tables.sin[i],
            WaveTableChoice::Saw => self.tables.saw[i],
            WaveTableChoice::Square => self.tables.square[i],
            WaveTableChoice::Triangle => self.tables.triangle[i],
            WaveTableChoice::WhiteNoise => self.tables.white_noise[i],
        };
    }

    pub fn tick(&mut self)
        ensures
            *final(self) == *old(self),
    {
    }

    pub open spec fn read_spec(self, port: Port) -> i16 {
        match port {
            Port::Out => self.out_cv,
            _ => 0,
        }
    }

    pub fn read(&self, port: Port) -> (v: i16)
        ensures
            v == self.read_spec(port),
    {
        match port {
            Port::Out => self.out_cv,
            _ => 0,
        }
    }

    pub open spec fn write_spec(self, port: Port, v: i16) -> WaveTableOsc {
        match port {
            Port::Freq => WaveTableOsc { freq: v, ..self },
            Port::Modulation => WaveTableOsc { modulation: v, ..self },
            Port::ModulationIdx => WaveTableOsc { modulation_idx: v, ..self },
            _ => WaveTableOsc { dummy: v, ..self },
        }
    }

    pub fn write(&mut self, port: Port, v: i16)
        ensures
            *final(self) == old(self).write_spec(port, v),
    {
        match port {
            Port::Freq => self.freq = v,
            Port::Modulation => self.modulation = v,
            Port::ModulationIdx => self.modulation_idx = v,
            _ => self.dummy = v,
        }
    }
}

proof fn lemma_ipc_mod_bounds(p: int, mi: int, m: int)
    by (nonlinear_arith)
    requires
        0 < p <= 0xffff_ffff,
        -0x8000 <= mi <= 0x7fff,
        -0x8000 <= m <= 0x7fff,
    ensures
        -0x8000_0000_0000 <= p * mi <= 0x8000_0000_0000,
        -0x1_0000_0000 <= (p * mi) / 0x8000 <= 0x1_0000_0000,
        -0x8000_0000_0000_0000 < m * ((p * mi) / 0x8000) < 0x8000_0000_0000_0000,
        -0x1_0000_0000 <= (m * ((p * mi) / 0x8000)) / 0x8000 <= 0x1_0000_0000,
{
}

proof fn lemma_mod_u32_succ(x: int)
    requires
        x >= 0,
    ensures
        mod_u32(x + 1) == if mod_u32(x) == 0xffff_ffff {
            0
        } else {
            mod_u32(x) + 1
        },
{
    assert(((x % 0x1_0000_0000) + 0x1_0000_0000) % 0x1_0000_0000 == x % 0x1_0000_0000 && (((x + 1)
        % 0x1_0000_0000) + 0x1_0000_0000) % 0x1_0000_0000 == (x + 1) % 0x1_0000_0000 && (x + 1)
        % 0x1_0000_0000 == (if x % 0x1_0000_0000 == 0xffff_ffff {
        0int
    } else {
        x % 0x1_0000_0000 + 1
    })) by (nonlinear_arith)
        requires
            x >= 0,
    ;
}

proof fn lemma_mod_u32_mod_1024(x: int)
    requires
        x >= 0,
    ensures
        mod_u32(x) % 1024 == x % 1024,
{
    assert(((x % 0x1_0000_0000) + 0x1_0000_0000) % 0x1_0000_0000 == x % 0x1_0000_0000) by (
    nonlinear_arith)
        requires
            x >= 0,
    ;
    lemma_mod_mod(x, 0x40_0000, 1024);
    assert(0x40_0000 * 1024 == 0x1_0000_0000) by (nonlinear_arith);
}

impl Component for WaveTableOsc {
    open spec fn inv(&self) -> bool {
        self.wf()
    }

    fn step(&mut self) {
        WaveTableOsc::step(self)
    }

    fn tick(&mut self) {
        WaveTableOsc::tick(self)
    }

    fn inputs(&self) -> Vec<&'static str> {
        let mut v: Vec<&'static str> = Vec::new();
        v.push("freq");
        v.push("modulation_idx");
        v.push("modulation");
        v
    }

    fn outputs(&self) -> Vec<&'static str> {
        let mut v: Vec<&'static str> = Vec::new();
        v.push("out");
        v
    }

    fn read(&self, port: Port) -> i16 {
        WaveTableOsc::read(self, port)
    }

    fn write(&mut self, port: Port, v: i16) {
        WaveTableOsc::write(self, port, v)
    }
}

/// `k` samples of the wavetable oscillator.
pub open spec fn osc_step_n(s: WaveTableOsc, k: nat) -> WaveTableOsc
    decreases k,
{
    if k == 0 {
        s
    } else {
        osc_step_n(s, (k - 1) as nat).step_spec()
    }
}

/// The pay-out decomposes the accumulator exactly: what was paid plus what
/// remains is the input, and the remainder stays positive and bounded.
proof fn lemma_reduce_decomposition(c: int, p: int)
    requires
        c >= 1,
        p >= 1,
    ensures
        reduce_rem(c, p) + p * reduce_subs(c, p) == c,
        1 <= reduce_rem(c, p) <= (if c <= p {
            c
        } else {
            p
        }),
        reduce_subs(c, p) >= 0,
    decreases c,
{
    if c > p {
        lemma_reduce_decomposition(c - p, p);
        assert(p * (reduce_subs(c - p, p) + 1) == p * reduce_subs(c - p, p) + p) by (
        nonlinear_arith);
    }
}

proof fn lemma_mod_u32_small(x: int)
    requires
        0 <= x < 0x1_0000_0000,
    ensures
        mod_u32(x) == x,
{
    assert(((x % 0x1_0000_0000) + 0x1_0000_0000) % 0x1_0000_0000 == x) by (nonlinear_arith)
        requires
            0 <= x < 0x1_0000_0000,
    ;
}

/// Everything but the accumulator pair (and the emitted sample) is still
/// after any number of samples, and the pair advances by exactly 256
/// sub-sample increments per sample, measured modulo one full pass of the
/// 1024-entry table.
proof fn lemma_osc_cycle_aux(s: WaveTableOsc, k: nat)
    requires
        s.wf(),
        s.valid_step(),
        s.modulation == 0 || s.modulation_idx == 0,
        1 <= s.counter <= s.ipc_64_map@[s.freq as int],
        s.ipc_64_map@[s.freq as int] < 0xffff_ff00,
    ensures
        ({
            let p = s.ipc_64_map@[s.freq as int] as int;
            let t = osc_step_n(s, k);
            &&& t == (WaveTableOsc { counter: t.counter, wt_i: t.wt_i, out_cv: t.out_cv, ..s })
            &&& 1 <= t.counter <= p
            &&& t.wt_i < 1024
            &&& (t.wt_i * p + t.counter) % (1024 * p) == (s.wt_i * p + s.counter + 256 * k) % (1024
                * p)
            &&& (k >= 1 ==> t.out_cv == s.table_at(t.wt_i as int))
        }),
    decreases k,
{
    let p = s.ipc_64_map@[s.freq as int] as int;
    let m = 1024 * p;
    assert(m >= 1024) by (nonlinear_arith)
        requires
            p >= 1,
            m == 1024 * p,
    ;
    if k == 0 {
        lemma_mod_bound(s.wt_i * p + s.counter, m);
    } else {
        lemma_osc_cycle_aux(s, (k - 1) as nat);
        let t = osc_step_n(s, (k - 1) as nat);
        let t2 = osc_step_n(s, k);
        assert(t2 == t.step_spec());
        assert(t.valid_step());
        // the modulation offset vanishes
        assert(t.mod_offset(p) == 0) by {
            let m1 = (p * t.modulation_idx) / 0x8000;
            if s.modulation_idx == 0 {
                assert(p * t.modulation_idx == 0) by (nonlinear_arith)
                    requires
                        t.modulation_idx == 0,
                ;
                assert(m1 == 0);
                assert(t.modulation * m1 == 0) by (nonlinear_arith)
                    requires
                        m1 == 0,
                ;
            } else {
                assert(t.modulation * m1 == 0) by (nonlinear_arith)
                    requires
                        t.modulation == 0,
                ;
            }
            assert(0int / 0x8000 == 0);
        }
        lemma_mod_u32_small(t.counter + 256);
        let c1 = t.counter + 256;
        assert(t.accum() == c1);
        lemma_reduce_decomposition(c1, p);
        let subs = reduce_subs(c1, p);
        let rem = reduce_rem(c1, p);
        let w2 = (t.wt_i + subs) % 1024;
        lemma_mod_bound(t.wt_i + subs, 1024);
        assert(t2.counter == rem && t2.wt_i == w2);
        // one sample advances the combined phase by 256, modulo a table pass
        let q = (t.wt_i + subs) / 1024;
        vstd::arithmetic::div_mod::lemma_fundamental_div_mod(t.wt_i + subs, 1024);
        assert(w2 * p + rem == (t.wt_i * p + t.counter + 256) - (1024 * p) * q) by (
        nonlinear_arith)
            requires
                w2 == t.wt_i + subs - 1024 * q,
                rem + p * subs == c1,
                c1 == t.counter + 256,
        ;
        lemma_mod_multiples_vanish(q, w2 * p + rem, m);
        assert((w2 * p + rem) % m == (t.wt_i * p + t.counter + 256) % m);
        lemma_add_mod_noop(t.wt_i * p + t.counter, 256, m);
        lemma_add_mod_noop(s.wt_i * p + s.counter + 256 * (k - 1), 256, m);
        assert(256 * (k - 1) + 256 == 256 * k) by (nonlinear_arith);
    }
}

/// Law: oscillator periodicity.  With the modulation path silent and a
/// valid note increment `p`, the wavetable oscillator's state is exactly
/// periodic in `4 * p` samples: that is the table length (1024) divided
/// by the per-sample table motion (`256 / p` entries), within
/// accumulator rounding.  The emitted sequence therefore repeats with
/// that period.
pub proof fn lemma_osc_periodicity(s: WaveTableOsc)
    requires
        s.wf(),
        s.valid_step(),
        s.modulation == 0 || s.modulation_idx == 0,
        1 <= s.counter <= s.ipc_64_map@[s.freq as int],
        s.ipc_64_map@[s.freq as int] < 0xffff_ff00,
        s.out_cv == s.table_at(s.wt_i as int),
    ensures
        osc_step_n(s, (4 * s.ipc_64_map@[s.freq as int]) as nat) == s,
{
    let p = s.ipc_64_map@[s.freq as int] as int;
    let m = 1024 * p;
    let k = (4 * s.ipc_64_map@[s.freq as int]) as nat;
    lemma_osc_cycle_aux(s, k);
    let t = osc_step_n(s, k);
    assert(256 * k == m * 1) by (nonlinear_arith)
        requires
            k == 4 * p,
            m == 1024 * p,
    ;
    lemma_mod_multiples_vanish(1, s.wt_i * p + s.counter, m);
    assert((t.wt_i * p + t.counter) % m == (s.wt_i * p + s.counter) % m);
    // both combined phases lie in (0, 1024 * p]; equal residues decode to
    // the same table cursor and accumulator
    assert(m >= 1024 && 0 < t.wt_i * p + t.counter <= m && 0 < s.wt_i * p + s.counter <= m) by (
    nonlinear_arith)
        requires
            p >= 1,
            m == 1024 * p,
            0 <= t.wt_i < 1024,
            0 <= s.wt_i < 1024,
            1 <= t.counter <= p,
            1 <= s.counter <= p,
    ;
    lemma_phase_in_range_eq(t.wt_i * p + t.counter, s.wt_i * p + s.counter, m);
    assert(t.wt_i == s.wt_i && t.counter == s.counter) by (nonlinear_arith)
        requires
            t.wt_i * p + t.counter == s.wt_i * p + s.counter,
            0 <= t.wt_i < 1024,
            0 <= s.wt_i < 1024,
            1 <= t.counter <= p,
            1 <= s.counter <= p,
            p >= 1,
    ;
}

proof fn lemma_phase_in_range_eq(x: int, y: int, m: int)
    requires
        m >= 1,
        0 < x <= m,
        0 < y <= m,
        x % m == y % m,
    ensures
        x == y,
{
    lemma_mod_bound(x, m);
    lemma_mod_bound(y, m);
    assert(x % m == (if x == m {
        0int
    } else {
        x
    })) by (nonlinear_arith)
        requires
            m >= 1,
            0 < x <= m,
    ;
    assert(y % m == (if y == m {
        0int
    } else {
        y
    })) by (nonlinear_arith)
        requires
            m >= 1,
            0 < y <= m,
    ;
}

} // verus!
