//! The live controls: what the player is doing, as the sound generator sees it.
//!
//! Every number is held as the 32 bits of a single-precision number.

use crate::binary32::{BITS_CONCERT_A, BITS_HALF, BITS_ONE};
use crate::presets::Preset;
use vstd::prelude::*;

verus! {

/// How many continuous parameters can be changed without rebuilding the voice.
pub const SLOTS: usize = 28;

pub const SLOT_OSC1_LEVEL: usize = 0;

pub const SLOT_OSC2_LEVEL: usize = 1;

pub const SLOT_OSC3_LEVEL: usize = 2;

pub const SLOT_NOISE: usize = 3;

/// An oscillator's pitch is multiplied by the number in its octave slot.
pub const SLOT_OSC1_OCTAVE: usize = 4;

pub const SLOT_OSC2_OCTAVE: usize = 5;

pub const SLOT_OSC3_OCTAVE: usize = 6;

pub const SLOT_OSC1_DETUNE: usize = 7;

pub const SLOT_OSC2_DETUNE: usize = 8;

pub const SLOT_OSC3_DETUNE: usize = 9;

pub const SLOT_FILT_ENV_AMT: usize = 10;

pub const SLOT_FILT_ATTACK: usize = 11;

pub const SLOT_FILT_DECAY: usize = 12;

pub const SLOT_FILT_SUSTAIN: usize = 13;

pub const SLOT_FILT_RELEASE: usize = 14;

pub const SLOT_AMP_ATTACK: usize = 15;

pub const SLOT_AMP_DECAY: usize = 16;

pub const SLOT_AMP_SUSTAIN: usize = 17;

pub const SLOT_AMP_RELEASE: usize = 18;

pub const SLOT_DELAY_TIME: usize = 19;

pub const SLOT_DELAY_FEEDBACK: usize = 20;

pub const SLOT_DELAY_MIX: usize = 21;

pub const SLOT_REVERB_SIZE: usize = 22;

pub const SLOT_REVERB_DAMPING: usize = 23;

pub const SLOT_REVERB_MIX: usize = 24;

pub const SLOT_LFO_FREQ: usize = 25;

pub const SLOT_LFO_VIB_AMT: usize = 26;

pub const SLOT_LFO_FILT_AMT: usize = 27;

/// The slot with the level of oscillator `idx`.
pub fn osc_level(idx: usize) -> (slot: usize)
    requires
        idx < 3,
    ensures
        slot == SLOT_OSC1_LEVEL + idx,
{
    SLOT_OSC1_LEVEL + idx
}

/// The slot with the pitch factor of oscillator `idx`.
pub fn osc_octave(idx: usize) -> (slot: usize)
    requires
        idx < 3,
    ensures
        slot == SLOT_OSC1_OCTAVE + idx,
{
    SLOT_OSC1_OCTAVE + idx
}

/// The slot with the detuning of oscillator `idx`.
pub fn osc_detune(idx: usize) -> (slot: usize)
    requires
        idx < 3,
    ensures
        slot == SLOT_OSC1_DETUNE + idx,
{
    SLOT_OSC1_DETUNE + idx
}

pub struct MidiControl {
    pub target_freq_bits: u32,
    pub gate: bool,
    /// The note gate was closed and the envelopes have not seen it yet.
    pub gate_reset: bool,
    pub portamento_amount_bits: u32,
    pub pitch_bend_bits: u32,
    pub mod_wheel_bits: u32,
    pub velocity_bits: u32,
    /// The filter's cutoff between 0 and 1.
    pub parameter_1_bits: u32,
    /// The filter's resonance between 0 and 1.
    pub parameter_2_bits: u32,
    pub cont: [u32; 28],
}

/// What a voice computes from a preset's numbers before it starts.
#[derive(Clone, Copy, Debug, PartialEq, Eq)]
pub struct Derived {
    /// The filter's cutoff on a logarithmic scale between 0 and 1.
    pub cutoff_norm: u32,
    /// The filter's resonance between 0 and 1.
    pub resonance_norm: u32,
    /// Two to the power of each oscillator's octave.
    pub octave_factor: [u32; 3],
}

/// What the slots hold once a voice was set up from `p`.
pub open spec fn seeded_slots(p: Preset, d: Derived) -> Seq<u32> {
    seq![
        p.osc1.level,
        p.osc2.level,
        p.osc3.level,
        p.noise_level,
        d.octave_factor@[0],
        d.octave_factor@[1],
        d.octave_factor@[2],
        p.osc1.detune,
        p.osc2.detune,
        p.osc3.detune,
        p.filter.env_amount,
        p.filter.attack,
        p.filter.decay,
        p.filter.sustain,
        p.filter.release,
        p.amp.attack,
        p.amp.decay,
        p.amp.sustain,
        p.amp.release,
        p.delay.time,
        p.delay.feedback,
        p.delay.mix,
        p.reverb.size,
        p.reverb.damping,
        p.reverb.mix,
        p.lfo.frequency,
        p.lfo.vibrato_amount,
        p.lfo.filter_amount,
    ]
}

/// The live controls are set as preset `p` says.
pub open spec fn in_sync(p: Preset, d: Derived, c: MidiControl) -> bool {
    &&& c.cont@ == seeded_slots(p, d)
    &&& c.portamento_amount_bits == p.portamento
    &&& c.parameter_1_bits == d.cutoff_norm
    &&& c.parameter_2_bits == d.resonance_norm
}

/// The live controls after the note gate was opened or closed.
pub open spec fn gate_set(c: MidiControl, gate: bool) -> MidiControl {
    MidiControl { gate, gate_reset: c.gate_reset || !gate, ..c }
}

/// The live controls after the envelopes have seen the note gate.
pub open spec fn gate_seen(c: MidiControl) -> MidiControl {
    MidiControl { gate_reset: false, ..c }
}

/// What the envelopes see of the note gate over `n` samples.
pub open spec fn gate_signal(c: MidiControl, n: nat) -> Seq<u32> {
    Seq::new(
        n,
        |i: int|
            if c.gate && !(c.gate_reset && i < 4) {
                BITS_ONE
            } else {
                0
            },
    )
}

/// `d` is what a voice would have computed to be set as the live controls are now.
pub open spec fn is_live(d: Derived, c: MidiControl) -> bool {
    &&& d.cutoff_norm == c.parameter_1_bits
    &&& d.resonance_norm == c.parameter_2_bits
    &&& d.octave_factor@ == c.cont@.subrange(SLOT_OSC1_OCTAVE as int, SLOT_OSC1_OCTAVE + 3)
}

impl MidiControl {
    pub fn new() -> (c: Self)
        ensures
            c == (MidiControl {
                target_freq_bits: BITS_CONCERT_A,
                gate: false,
                gate_reset: false,
                portamento_amount_bits: 0,
                pitch_bend_bits: BITS_ONE,
                mod_wheel_bits: 0,
                velocity_bits: BITS_ONE,
                parameter_1_bits: BITS_HALF,
                parameter_2_bits: 0,
                cont: c.cont,
            }),
            c.cont@ == Seq::new(28, |i: int| 0u32),
    {
        let c = MidiControl {
            target_freq_bits: BITS_CONCERT_A,
            gate: false,
            gate_reset: false,
            portamento_amount_bits: 0,
            pitch_bend_bits: BITS_ONE,
            mod_wheel_bits: 0,
            velocity_bits: BITS_ONE,
            parameter_1_bits: BITS_HALF,
            parameter_2_bits: 0,
            cont: [0; 28],
        };
        assert(c.cont@ =~= Seq::new(28, |i: int| 0u32));
        c
    }

    pub fn set_freq(&mut self, freq: u32)
        ensures
            *final(self) == (MidiControl { target_freq_bits: freq, ..*old(self) }),
    {
        self.target_freq_bits = freq;
    }

    /// Opens or closes the note gate. A gate that is closed is remembered until the envelopes saw
    /// it.
    pub fn set_gate(&mut self, gate: bool)
        ensures
            *final(self) == gate_set(*old(self), gate),
    {
        self.gate = gate;
        if !gate {
            self.gate_reset = true;
        }
    }

    /// Whether the note gate was closed since the last call.
    pub fn take_gate_reset(&mut self) -> (reset: bool)
        ensures
            reset == old(self).gate_reset,
            *final(self) == gate_seen(*old(self)),
    {
        let reset: bool = self.gate_reset;
        self.gate_reset = false;
        reset
    }

    pub fn set_portamento(&mut self, amount: u32)
        ensures
            *final(self) == (MidiControl { portamento_amount_bits: amount, ..*old(self) }),
    {
        self.portamento_amount_bits = amount;
    }

    pub fn set_pitch_bend(&mut self, bend_factor: u32)
        ensures
            *final(self) == (MidiControl { pitch_bend_bits: bend_factor, ..*old(self) }),
    {
        self.pitch_bend_bits = bend_factor;
    }

    pub fn set_mod_wheel(&mut self, value: u32)
        ensures
            *final(self) == (MidiControl { mod_wheel_bits: value, ..*old(self) }),
    {
        self.mod_wheel_bits = value;
    }

    /// Keeps the velocity of the last note until the next one.
    pub fn set_velocity(&mut self, value: u32)
        ensures
            *final(self) == (MidiControl { velocity_bits: value, ..*old(self) }),
    {
        self.velocity_bits = value;
    }

    pub fn set_parameter_1(&mut self, value: u32)
        ensures
            *final(self) == (MidiControl { parameter_1_bits: value, ..*old(self) }),
    {
        self.parameter_1_bits = value;
    }

    pub fn set_parameter_2(&mut self, value: u32)
        ensures
            *final(self) == (MidiControl { parameter_2_bits: value, ..*old(self) }),
    {
        self.parameter_2_bits = value;
    }

    /// Closes the note gate at once and takes the pitch bend and the modulation wheel back.
    pub fn reset(&mut self)
        ensures
            *final(self) == (MidiControl {
                gate: false,
                gate_reset: false,
                pitch_bend_bits: BITS_ONE,
                mod_wheel_bits: 0,
                ..*old(self)
            }),
    {
        self.gate = false;
        self.gate_reset = false;
        self.pitch_bend_bits = BITS_ONE;
        self.mod_wheel_bits = 0;
    }

    pub fn get_target_freq(&self) -> (bits: u32)
        ensures
            bits == self.target_freq_bits,
    {
        self.target_freq_bits
    }

    pub fn get_portamento_amount(&self) -> (bits: u32)
        ensures
            bits == self.portamento_amount_bits,
    {
        self.portamento_amount_bits
    }

    pub fn get_pitch_bend(&self) -> (bits: u32)
        ensures
            bits == self.pitch_bend_bits,
    {
        self.pitch_bend_bits
    }

    pub fn get_mod_wheel(&self) -> (bits: u32)
        ensures
            bits == self.mod_wheel_bits,
    {
        self.mod_wheel_bits
    }

    pub fn get_velocity(&self) -> (bits: u32)
        ensures
            bits == self.velocity_bits,
    {
        self.velocity_bits
    }

    pub fn get_parameter_1(&self) -> (bits: u32)
        ensures
            bits == self.parameter_1_bits,
    {
        self.parameter_1_bits
    }

    pub fn get_parameter_2(&self) -> (bits: u32)
        ensures
            bits == self.parameter_2_bits,
    {
        self.parameter_2_bits
    }

    /// One while the note gate is open, zero while it is closed.
    pub fn get_gate(&self) -> (bits: u32)
        ensures
            bits == if self.gate {
                BITS_ONE
            } else {
                0
            },
    {
        if self.gate {
            BITS_ONE
        } else {
            0
        }
    }

    pub fn set_cont(&mut self, slot: usize, value: u32)
        requires
            slot < SLOTS,
        ensures
            final(self).cont@ == old(self).cont@.update(slot as int, value),
            *final(self) == (MidiControl { cont: final(self).cont, ..*old(self) }),
    {
        self.cont[slot] = value;
    }

    pub fn get_cont(&self, slot: usize) -> (value: u32)
        requires
            slot < SLOTS,
        ensures
            value == self.cont@[slot as int],
    {
        self.cont[slot]
    }

    /// What a voice must start with to sound as it does now.
    pub fn live_derived(&self) -> (d: Derived)
        ensures
            is_live(d, *self),
    {
        let d = Derived {
            cutoff_norm: self.parameter_1_bits,
            resonance_norm: self.parameter_2_bits,
            octave_factor: [
                self.cont[SLOT_OSC1_OCTAVE],
                self.cont[SLOT_OSC2_OCTAVE],
                self.cont[SLOT_OSC3_OCTAVE],
            ],
        };
        assert(d.octave_factor@ =~= self.cont@.subrange(
            SLOT_OSC1_OCTAVE as int,
            SLOT_OSC1_OCTAVE + 3,
        ));
        d
    }

    /// Sets every live parameter as the preset says.
    pub fn seed_from_preset(&mut self, p: &Preset, d: &Derived)
        ensures
            in_sync(*p, *d, *final(self)),
            *final(self) == (MidiControl {
                cont: final(self).cont,
                portamento_amount_bits: p.portamento,
                parameter_1_bits: d.cutoff_norm,
                parameter_2_bits: d.resonance_norm,
                ..*old(self)
            }),
    {
        self.parameter_1_bits = d.cutoff_norm;
        self.parameter_2_bits = d.resonance_norm;
        self.portamento_amount_bits = p.portamento;
        self.cont = [
            p.osc1.level,
            p.osc2.level,
            p.osc3.level,
            p.noise_level,
            d.octave_factor[0],
            d.octave_factor[1],
            d.octave_factor[2],
            p.osc1.detune,
            p.osc2.detune,
            p.osc3.detune,
            p.filter.env_amount,
            p.filter.attack,
            p.filter.decay,
            p.filter.sustain,
            p.filter.release,
            p.amp.attack,
            p.amp.decay,
            p.amp.sustain,
            p.amp.release,
            p.delay.time,
            p.delay.feedback,
            p.delay.mix,
            p.reverb.size,
            p.reverb.damping,
            p.reverb.mix,
            p.lfo.frequency,
            p.lfo.vibrato_amount,
            p.lfo.filter_amount,
        ];
        assert(self.cont@ =~= seeded_slots(*p, *d));
    }
}

/// Sets every sample of `buffer` to `value`.
fn fill(buffer: &mut [u32], value: u32)
    ensures
        final(buffer)@ == Seq::new(old(buffer)@.len(), |i: int| value),
{
    let mut i: usize = 0;
    while i < buffer.len()
        invariant
            i <= buffer@.len(),
            buffer@.len() == old(buffer)@.len(),
            forall|j: int| 0 <= j < i ==> buffer@[j] == value,
        decreases buffer@.len() - i,
    {
        buffer[i] = value;
        i += 1;
    }
    assert(buffer@ =~= Seq::new(old(buffer)@.len(), |j: int| value));
}

/// The note gate as a control signal.
pub struct MidiGate;

impl MidiGate {
    /// Fills `buffer` with the note gate. A gate that was closed since the last call shows as four
    /// closed samples, even if it is open again.
    pub fn process(control: &mut MidiControl, buffer: &mut [u32])
        ensures
            final(buffer)@ == gate_signal(*old(control), old(buffer)@.len()),
            *final(control) == gate_seen(*old(control)),
    {
        let g: u32 = control.get_gate();
        let reset: bool = control.take_gate_reset();
        let mut i: usize = 0;
        while i < buffer.len()
            invariant
                i <= buffer@.len(),
                buffer@.len() == old(buffer)@.len(),
                forall|j: int|
                    0 <= j < i ==> buffer@[j] == if reset && j < 4 {
                        0
                    } else {
                        g
                    },
            decreases buffer@.len() - i,
        {
            buffer[i] = if reset && i < 4 {
                0
            } else {
                g
            };
            i += 1;
        }
        assert(buffer@ =~= gate_signal(*old(control), old(buffer)@.len()));
    }
}

/// The velocity of the last note as a control signal, by which the amplitude is multiplied.
pub struct MidiVelocity;

impl MidiVelocity {
    pub fn process(control: &MidiControl, buffer: &mut [u32])
        ensures
            final(buffer)@ == Seq::new(old(buffer)@.len(), |i: int| control.velocity_bits),
    {
        fill(buffer, control.get_velocity());
    }
}

/// The filter's cutoff frequency as a control signal.
pub struct MidiFilterCutoff;

impl MidiFilterCutoff {
    /// Fills `buffer` with `freq`, the frequency that the cutoff control stands for.
    pub fn process(freq: u32, buffer: &mut [u32])
        ensures
            final(buffer)@ == Seq::new(old(buffer)@.len(), |i: int| freq),
    {
        fill(buffer, freq);
    }
}

/// The filter's resonance as a control signal.
pub struct MidiFilterResonance;

impl MidiFilterResonance {
    /// Fills `buffer` with `q`, the quality that the resonance control stands for.
    pub fn process(q: u32, buffer: &mut [u32])
        ensures
            final(buffer)@ == Seq::new(old(buffer)@.len(), |i: int| q),
    {
        fill(buffer, q);
    }
}

/// A note that follows another without a gap still starts its envelopes anew: a gate that is closed
/// and opened again between two blocks shows as four closed samples, once.
pub proof fn retrigger_is_seen(c: MidiControl, n: nat)
    ensures
        ({
            let again = gate_set(gate_set(c, false), true);
            &&& forall|i: int|
                0 <= i < n ==> #[trigger] gate_signal(again, n)[i] == if i < 4 {
                    0
                } else {
                    BITS_ONE
                }
            &&& forall|i: int|
                0 <= i < n ==> #[trigger] gate_signal(gate_seen(again), n)[i] == BITS_ONE
        }),
{
}

/// A voice that is rebuilt from the working preset with the live values of what it would compute
/// starts out exactly as the player has set it.
pub proof fn rebuild_keeps_the_controls(
    p: Preset,
    d: Derived,
    c: MidiControl,
    now: Derived,
    c2: MidiControl,
)
    requires
        in_sync(p, d, c),
        is_live(now, c),
        in_sync(p, now, c2),
        c2 == (MidiControl {
            cont: c2.cont,
            portamento_amount_bits: p.portamento,
            parameter_1_bits: now.cutoff_norm,
            parameter_2_bits: now.resonance_norm,
            ..c
        }),
    ensures
        now == d,
        c2 == c,
{
    assert(seeded_slots(p, d)[4] == d.octave_factor@[0]);
    assert(seeded_slots(p, d)[5] == d.octave_factor@[1]);
    assert(seeded_slots(p, d)[6] == d.octave_factor@[2]);
    assert(now.octave_factor@[0] == c.cont@[4]);
    assert(now.octave_factor@[1] == c.cont@[5]);
    assert(now.octave_factor@[2] == c.cont@[6]);
    assert(now.octave_factor =~= d.octave_factor);
    assert(c2.cont =~= c.cont);
}

/// While the note gate is closed the envelopes see zeros, and while it is open and was not closed
/// since they looked they see ones. Opening it does not count as closing it, and what they have
/// seen they do not see again.
pub proof fn gate_is_seen_as_it_is(c: MidiControl, n: nat)
    ensures
        gate_signal(c, n).len() == n,
        !c.gate ==> forall|i: int| 0 <= i < n ==> #[trigger] gate_signal(c, n)[i] == 0,
        c.gate && !c.gate_reset ==> forall|i: int|
            0 <= i < n ==> #[trigger] gate_signal(c, n)[i] == 0x3F80_0000,
        gate_set(c, true).gate,
        gate_set(c, true).gate_reset == c.gate_reset,
        !gate_set(c, false).gate,
        gate_set(c, false).gate_reset,
        gate_seen(c).gate == c.gate,
        !gate_seen(c).gate_reset,
{
}

/// Opening, closing and looking at the note gate change nothing else of the live controls.
pub proof fn gate_is_all_that_moves(c: MidiControl, open: bool)
    ensures
        ({
            let a = gate_set(c, open);
            let b = gate_seen(c);
            &&& a.target_freq_bits == c.target_freq_bits && b.target_freq_bits == c.target_freq_bits
            &&& a.velocity_bits == c.velocity_bits && b.velocity_bits == c.velocity_bits
            &&& a.pitch_bend_bits == c.pitch_bend_bits && b.pitch_bend_bits == c.pitch_bend_bits
            &&& a.mod_wheel_bits == c.mod_wheel_bits && b.mod_wheel_bits == c.mod_wheel_bits
            &&& a.portamento_amount_bits == c.portamento_amount_bits && b.portamento_amount_bits
                == c.portamento_amount_bits
            &&& a.parameter_1_bits == c.parameter_1_bits && b.parameter_1_bits
                == c.parameter_1_bits
            &&& a.parameter_2_bits == c.parameter_2_bits && b.parameter_2_bits
                == c.parameter_2_bits
            &&& a.cont == c.cont && b.cont == c.cont
        }),
{
}

/// A voice that was set up finds each parameter of its preset in the slot of that name.
pub proof fn slots_hold_the_preset(p: Preset, d: Derived)
    ensures
        ({
            let s = seeded_slots(p, d);
            &&& s.len() == SLOTS
            &&& s[SLOT_OSC1_LEVEL as int] == p.osc1.level
            &&& s[SLOT_OSC2_LEVEL as int] == p.osc2.level
            &&& s[SLOT_OSC3_LEVEL as int] == p.osc3.level
            &&& s[SLOT_NOISE as int] == p.noise_level
            &&& s[SLOT_OSC1_OCTAVE as int] == d.octave_factor@[0]
            &&& s[SLOT_OSC2_OCTAVE as int] == d.octave_factor@[1]
            &&& s[SLOT_OSC3_OCTAVE as int] == d.octave_factor@[2]
            &&& s[SLOT_OSC1_DETUNE as int] == p.osc1.detune
            &&& s[SLOT_OSC2_DETUNE as int] == p.osc2.detune
            &&& s[SLOT_OSC3_DETUNE as int] == p.osc3.detune
            &&& s[SLOT_FILT_ENV_AMT as int] == p.filter.env_amount
            &&& s[SLOT_FILT_ATTACK as int] == p.filter.attack
            &&& s[SLOT_FILT_DECAY as int] == p.filter.decay
            &&& s[SLOT_FILT_SUSTAIN as int] == p.filter.sustain
            &&& s[SLOT_FILT_RELEASE as int] == p.filter.release
            &&& s[SLOT_AMP_ATTACK as int] == p.amp.attack
            &&& s[SLOT_AMP_DECAY as int] == p.amp.decay
            &&& s[SLOT_AMP_SUSTAIN as int] == p.amp.sustain
            &&& s[SLOT_AMP_RELEASE as int] == p.amp.release
            &&& s[SLOT_DELAY_TIME as int] == p.delay.time
            &&& s[SLOT_DELAY_FEEDBACK as int] == p.delay.feedback
            &&& s[SLOT_DELAY_MIX as int] == p.delay.mix
            &&& s[SLOT_REVERB_SIZE as int] == p.reverb.size
            &&& s[SLOT_REVERB_DAMPING as int] == p.reverb.damping
            &&& s[SLOT_REVERB_MIX as int] == p.reverb.mix
            &&& s[SLOT_LFO_FREQ as int] == p.lfo.frequency
            &&& s[SLOT_LFO_VIB_AMT as int] == p.lfo.vibrato_amount
            &&& s[SLOT_LFO_FILT_AMT as int] == p.lfo.filter_amount
        }),
{
}

/// Where live controls and preset agree, the glide is the preset's and the filter's controls are
/// what a voice of that preset would start with, as is every slot.
pub proof fn in_sync_means(p: Preset, d: Derived, c: MidiControl)
    ensures
        in_sync(p, d, c) <==> {
            &&& c.portamento_amount_bits == p.portamento
            &&& c.parameter_1_bits == d.cutoff_norm
            &&& c.parameter_2_bits == d.resonance_norm
            &&& forall|k: int| 0 <= k < 28 ==> #[trigger] c.cont@[k] == seeded_slots(p, d)[k]
        },
{
    assert(c.cont@.len() == 28 && seeded_slots(p, d).len() == 28);
    if forall|k: int| 0 <= k < 28 ==> #[trigger] c.cont@[k] == seeded_slots(p, d)[k] {
        assert(c.cont@ =~= seeded_slots(p, d));
    }
}

} // verus!
