//! How a voice is put together from a preset.

use crate::midi_control::{
    MidiControl, SLOT_NOISE, SLOT_OSC1_LEVEL, SLOT_OSC2_LEVEL, SLOT_OSC3_LEVEL,
};
use crate::binary32::{binary32_bits, binary32_is_nearest, doublings, ratio_is_nearest};
use crate::cc_map::{is_structural, param_of, word_changed, word_of, word_value, PowerTables};
use crate::presets::{
    preset_words,
    lfo_waveform_code, waveform_code, LfoWaveform, OscSettings, Preset, Waveform,
};
use vstd::prelude::*;

verus! {

/// The bits of a ten-thousandth, below which a level is not heard.
pub const BITS_INAUDIBLE: u32 = 0x38D1_B717;

/// The bits of infinity, above which there are only negative numbers and those that are none.
pub const BITS_INFINITY: u32 = 0x7F80_0000;

#[derive(Clone, Copy, Debug, PartialEq, Eq, Structural)]
pub struct OscPlan {
    pub waveform: Waveform,
    /// The oscillator's pitch is modulated.
    pub vibrato: bool,
}

/// What a voice and its effects are built from. Everything else is read from the live controls
/// while the voice sounds.
#[derive(Clone, Copy, Debug, PartialEq, Eq)]
pub struct VoicePlan {
    pub oscs: [OscPlan; 3],
    /// The filter is modulated.
    pub filter_lfo: bool,
    pub lfo_waveform: LfoWaveform,
    pub delay: bool,
    pub reverb: bool,
}

/// The shape that a number in a preset stands for; a saw if it stands for none.
pub open spec fn is_shape(wf: Waveform, code: u32) -> bool {
    if code <= 4 {
        waveform_code(wf) == code
    } else {
        wf == Waveform::Saw
    }
}

/// The modulation shape that a number in a preset stands for; a sine if it stands for none.
pub open spec fn is_lfo_shape(wf: LfoWaveform, code: u32) -> bool {
    if code <= 3 {
        lfo_waveform_code(wf) == code
    } else {
        wf == LfoWaveform::Sine
    }
}

/// `plan` is how oscillator `o` is built: it has vibrato if it asks for it and modulation is on.
pub open spec fn is_osc_plan(plan: OscPlan, o: OscSettings, lfo_on: bool) -> bool {
    &&& is_shape(plan.waveform, o.waveform)
    &&& plan.vibrato == (lfo_on && o.enable_vibrato != 0)
}

fn osc_plan(o: &OscSettings, lfo_on: bool) -> (plan: OscPlan)
    ensures
        is_osc_plan(plan, *o, lfo_on),
{
    OscPlan { waveform: o.get_waveform(), vibrato: lfo_on && o.is_vibrato_enabled() }
}

/// `plan` is how the voice of `p` is built.
pub open spec fn is_voice_plan(plan: VoicePlan, p: Preset) -> bool {
    &&& is_osc_plan(plan.oscs@[0], p.osc1, p.lfo_enabled != 0)
    &&& is_osc_plan(plan.oscs@[1], p.osc2, p.lfo_enabled != 0)
    &&& is_osc_plan(plan.oscs@[2], p.osc3, p.lfo_enabled != 0)
    &&& plan.filter_lfo == (p.lfo_enabled != 0)
    &&& is_lfo_shape(plan.lfo_waveform, p.lfo.waveform)
    &&& plan.delay == (p.delay.enabled != 0)
    &&& plan.reverb == (p.reverb.enabled != 0)
}

/// How the voice of `p` is built.
pub fn voice_plan(p: &Preset) -> (plan: VoicePlan)
    ensures
        is_osc_plan(plan.oscs@[0], p.osc1, p.lfo_enabled != 0),
        is_osc_plan(plan.oscs@[1], p.osc2, p.lfo_enabled != 0),
        is_osc_plan(plan.oscs@[2], p.osc3, p.lfo_enabled != 0),
        plan.filter_lfo == (p.lfo_enabled != 0),
        is_lfo_shape(plan.lfo_waveform, p.lfo.waveform),
        plan.delay == (p.delay.enabled != 0),
        plan.reverb == (p.reverb.enabled != 0),
        is_voice_plan(plan, *p),
{
    let lfo_on: bool = p.lfo_enabled != 0;
    VoicePlan {
        oscs: [osc_plan(&p.osc1, lfo_on), osc_plan(&p.osc2, lfo_on), osc_plan(&p.osc3, lfo_on)],
        filter_lfo: lfo_on,
        lfo_waveform: p.lfo.get_waveform(),
        delay: p.delay.enabled != 0,
        reverb: p.reverb.enabled != 0,
    }
}

/// A level is greater than a ten-thousandth. The bits of positive numbers are ordered as the
/// numbers are.
pub open spec fn is_audible(level: u32) -> bool {
    BITS_INAUDIBLE < level <= BITS_INFINITY
}

/// Which of the three oscillators and the noise are loud enough to be computed.
pub fn audible_sources(control: &MidiControl) -> (sources: [bool; 4])
    ensures
        sources@[0] == is_audible(control.cont@[SLOT_OSC1_LEVEL as int]),
        sources@[1] == is_audible(control.cont@[SLOT_OSC2_LEVEL as int]),
        sources@[2] == is_audible(control.cont@[SLOT_OSC3_LEVEL as int]),
        sources@[3] == is_audible(control.cont@[SLOT_NOISE as int]),
{
    [
        audible(control.get_cont(SLOT_OSC1_LEVEL)),
        audible(control.get_cont(SLOT_OSC2_LEVEL)),
        audible(control.get_cont(SLOT_OSC3_LEVEL)),
        audible(control.get_cont(SLOT_NOISE)),
    ]
}

fn audible(level: u32) -> (yes: bool)
    ensures
        yes == is_audible(level),
{
    BITS_INAUDIBLE < level && level <= BITS_INFINITY
}

/// The shapes that a preset's numbers stand for: sine, triangle, saw, square and noise from 0 on,
/// and a saw for every other number. The modulation has no noise, and a sine for every other.
pub proof fn shapes_are_read(wf: Waveform, lfo: LfoWaveform, code: u32)
    ensures
        is_shape(wf, code) <==> wf == if code == 0 {
            Waveform::Sine
        } else if code == 1 {
            Waveform::Triangle
        } else if code == 3 {
            Waveform::Square
        } else if code == 4 {
            Waveform::WhiteNoise
        } else {
            Waveform::Saw
        },
        is_lfo_shape(lfo, code) <==> lfo == if code == 1 {
            LfoWaveform::Triangle
        } else if code == 2 {
            LfoWaveform::Saw
        } else if code == 3 {
            LfoWaveform::Square
        } else {
            LfoWaveform::Sine
        },
{
}

/// Without modulation nothing is modulated; with it the filter is, and each oscillator whose
/// vibrato is on. The effects are built exactly if they are switched on.
pub proof fn modulation_is_built(plan: VoicePlan, p: Preset)
    requires
        is_voice_plan(plan, p),
    ensures
        p.lfo_enabled == 0 ==> !plan.filter_lfo && !plan.oscs@[0].vibrato && !plan.oscs@[1].vibrato
            && !plan.oscs@[2].vibrato,
        p.lfo_enabled != 0 ==> plan.filter_lfo,
        p.lfo_enabled != 0 ==> (plan.oscs@[0].vibrato <==> p.osc1.enable_vibrato != 0),
        p.lfo_enabled != 0 ==> (plan.oscs@[1].vibrato <==> p.osc2.enable_vibrato != 0),
        p.lfo_enabled != 0 ==> (plan.oscs@[2].vibrato <==> p.osc3.enable_vibrato != 0),
        plan.delay <==> p.delay.enabled != 0,
        plan.reverb <==> p.reverb.enabled != 0,
{
}

/// A preset has one plan.
pub proof fn plan_is_unique(a: VoicePlan, b: VoicePlan, p: Preset)
    requires
        is_voice_plan(a, p),
        is_voice_plan(b, p),
    ensures
        a.oscs@ == b.oscs@,
        a.filter_lfo == b.filter_lfo,
        a.lfo_waveform == b.lfo_waveform,
        a.delay == b.delay,
        a.reverb == b.reverb,
{
    assert(a.oscs@[0] == b.oscs@[0]);
    assert(a.oscs@[1] == b.oscs@[1]);
    assert(a.oscs@[2] == b.oscs@[2]);
    assert(a.oscs@ =~= b.oscs@);
}

/// A continuous controller never changes how the voice is built, so that it needs no new voice.
pub proof fn continuous_controllers_keep_the_voice(
    cc: u8,
    value: u8,
    t: PowerTables,
    p: Preset,
    p2: Preset,
    plan: VoicePlan,
)
    requires
        param_of(cc) is Some,
        !is_structural(param_of(cc)->0),
        word_changed(p, p2, word_of(param_of(cc)->0), word_value(param_of(cc)->0, value, t)),
        is_voice_plan(plan, p),
    ensures
        is_voice_plan(plan, p2),
{
    let u = preset_words(p);
    let v = preset_words(p2);
    let w = word_of(param_of(cc)->0);
    assert(w != 0 && w != 4 && w != 5 && w != 9 && w != 10 && w != 14 && w != 28 && w != 30 && w
        != 36 && w != 40);
    assert(u[0] == v[0] && u[4] == v[4] && u[5] == v[5] && u[9] == v[9] && u[10] == v[10] && u[14]
        == v[14]);
    assert(u[28] == v[28] && u[30] == v[30] && u[36] == v[36] && u[40] == v[40]);
}

/// A source is computed exactly if its level is a number above a ten-thousandth.
pub proof fn audible_is_above_a_ten_thousandth(level: u32)
    ensures
        is_audible(level) <==> !crate::scaling::is_nan(level) && crate::scaling::order_key(level)
            > crate::scaling::order_key(BITS_INAUDIBLE),
        BITS_INAUDIBLE == binary32_bits(1),
{
    vstd::arithmetic::power2::lemma2_to64();
    vstd::arithmetic::power2::lemma2_to64_rest();
    ratio_is_nearest(1, 10_000);
    let d = doublings(1, 10_000);
    if d < 37 {
        vstd::arithmetic::power2::lemma_pow2_strictly_increases(d, 37);
        if d < 36 {
            vstd::arithmetic::power2::lemma_pow2_strictly_increases(d, 36);
        }
    }
    assert(d == 37);
    binary32_is_nearest(1);
}

} // verus!
