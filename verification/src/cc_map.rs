//! Which controller changes which parameter of the sound.
//!
//! There are two sorts of parameters. A continuous one goes into the live controls as well as into
//! the working preset, and is heard at once. A structural one changes how the voice is built, so it
//! goes into the working preset and the voice must be rebuilt. Because the working preset follows
//! every change, a rebuilt voice starts out with what the player has set.

use crate::binary32::{binary32, binary32_bits, decimal_bits, ratio_bits};
use crate::midi_control::{
    in_sync, seeded_slots, Derived, MidiControl, SLOT_AMP_ATTACK, SLOT_AMP_DECAY, SLOT_AMP_RELEASE,
    SLOT_AMP_SUSTAIN, SLOT_DELAY_FEEDBACK, SLOT_DELAY_MIX, SLOT_DELAY_TIME, SLOT_FILT_ATTACK,
    SLOT_FILT_DECAY, SLOT_FILT_ENV_AMT, SLOT_FILT_RELEASE, SLOT_FILT_SUSTAIN, SLOT_LFO_FILT_AMT,
    SLOT_LFO_FREQ, SLOT_LFO_VIB_AMT, SLOT_NOISE, SLOT_OSC1_DETUNE, SLOT_OSC1_LEVEL,
    SLOT_OSC1_OCTAVE, SLOT_OSC2_DETUNE, SLOT_OSC2_LEVEL, SLOT_OSC2_OCTAVE, SLOT_OSC3_DETUNE,
    SLOT_OSC3_LEVEL, SLOT_OSC3_OCTAVE, SLOT_REVERB_DAMPING, SLOT_REVERB_MIX, SLOT_REVERB_SIZE,
};
use crate::presets::{
    preset_bytes, preset_bytes_injective, preset_words, DelaySettings, EnvelopeSettings,
    FilterSettings, LfoSettings, OscSettings, Preset, ReverbSettings,
    WORD_AMP_ATTACK, WORD_AMP_DECAY, WORD_AMP_RELEASE, WORD_AMP_SUSTAIN,
    WORD_DELAY_ENABLED, WORD_DELAY_FEEDBACK, WORD_DELAY_MIX, WORD_DELAY_TIME, WORD_FILTER_ATTACK,
    WORD_FILTER_CUTOFF, WORD_FILTER_DECAY, WORD_FILTER_ENV_AMOUNT, WORD_FILTER_RELEASE,
    WORD_FILTER_RESONANCE, WORD_FILTER_SUSTAIN, WORD_LFO_ENABLED, WORD_LFO_FILTER_AMOUNT,
    WORD_LFO_FREQUENCY, WORD_LFO_VIBRATO_AMOUNT, WORD_LFO_WAVEFORM, WORD_NOISE, WORD_OSC1_DETUNE,
    WORD_OSC1_LEVEL, WORD_OSC1_OCTAVE, WORD_OSC1_VIBRATO, WORD_OSC1_WAVEFORM, WORD_OSC2_DETUNE,
    WORD_OSC2_LEVEL, WORD_OSC2_OCTAVE, WORD_OSC2_VIBRATO, WORD_OSC2_WAVEFORM, WORD_OSC3_DETUNE,
    WORD_OSC3_LEVEL, WORD_OSC3_OCTAVE, WORD_OSC3_VIBRATO, WORD_OSC3_WAVEFORM, WORD_PORTAMENTO,
    WORD_REVERB_DAMPING, WORD_REVERB_ENABLED, WORD_REVERB_MIX, WORD_REVERB_SIZE,
};
use crate::scaling::{
    is_range, larger_value_is_larger, less_than, order_key, range_has_its_ends, scaled, scaled_bits,
    unit, unit_is_nearest,
};
use vstd::prelude::*;

verus! {

pub const CC_PORTAMENTO: u8 = 5;

pub const CC_RESONANCE: u8 = 71;

pub const CC_CUTOFF: u8 = 74;

pub const CC_OSC1_LEVEL: u8 = 16;

pub const CC_OSC1_OCTAVE: u8 = 17;

pub const CC_OSC1_DETUNE: u8 = 18;

pub const CC_OSC2_LEVEL: u8 = 19;

pub const CC_OSC2_OCTAVE: u8 = 20;

pub const CC_OSC2_DETUNE: u8 = 21;

pub const CC_OSC3_LEVEL: u8 = 22;

pub const CC_OSC3_OCTAVE: u8 = 23;

pub const CC_OSC3_DETUNE: u8 = 24;

pub const CC_NOISE: u8 = 25;

pub const CC_FILT_ENV_AMT: u8 = 26;

pub const CC_FILT_ATTACK: u8 = 27;

pub const CC_FILT_DECAY: u8 = 28;

pub const CC_FILT_SUSTAIN: u8 = 29;

pub const CC_FILT_RELEASE: u8 = 30;

pub const CC_AMP_ATTACK: u8 = 31;

pub const CC_AMP_DECAY: u8 = 102;

pub const CC_AMP_SUSTAIN: u8 = 103;

pub const CC_AMP_RELEASE: u8 = 104;

pub const CC_DELAY_TIME: u8 = 105;

pub const CC_DELAY_FEEDBACK: u8 = 106;

pub const CC_DELAY_MIX: u8 = 107;

pub const CC_REVERB_SIZE: u8 = 108;

pub const CC_REVERB_DAMPING: u8 = 109;

pub const CC_REVERB_MIX: u8 = 110;

pub const CC_LFO_FREQ: u8 = 86;

pub const CC_LFO_VIB_AMT: u8 = 88;

pub const CC_LFO_FILT_AMT: u8 = 89;

pub const CC_OSC1_WAVEFORM: u8 = 111;

pub const CC_OSC1_VIBRATO: u8 = 112;

pub const CC_OSC2_WAVEFORM: u8 = 113;

pub const CC_OSC2_VIBRATO: u8 = 114;

pub const CC_OSC3_WAVEFORM: u8 = 115;

pub const CC_OSC3_VIBRATO: u8 = 116;

pub const CC_DELAY_ENABLED: u8 = 117;

pub const CC_REVERB_ENABLED: u8 = 118;

pub const CC_LFO_ENABLED: u8 = 85;

pub const CC_LFO_WAVEFORM: u8 = 87;

/// The longest delay, in ten-thousandths of a second.
pub const MAX_DELAY_SECONDS: i32 = 3000;

/// The detuning's range in hertz, in ten-thousandths.
pub const MIN_DETUNE: i32 = -100_0000;

pub const MAX_DETUNE: i32 = 100_0000;

/// The range of the filter envelope's amount in hertz, in ten-thousandths.
pub const MIN_ENV_AMOUNT: i32 = -10000_0000;

pub const MAX_ENV_AMOUNT: i32 = 10000_0000;

/// The range of an oscillator's octave, in ten-thousandths.
pub const MIN_OCTAVE: i32 = -2_0000;

pub const MAX_OCTAVE: i32 = 2_0000;

/// What a controller changes. Ranges are in ten-thousandths.
#[derive(Clone, Copy, Debug, PartialEq, Eq, Structural)]
pub enum CcParam {
    Portamento,
    Resonance,
    /// The live control is the controller's value between 0 and 1; the preset holds the frequency
    /// that it stands for.
    Cutoff,
    /// A parameter between `lo` and `hi` that is live as it is.
    Slot { word: usize, slot: usize, lo: i32, hi: i32 },
    /// An octave between -2 and 2; two to its power is live.
    Octave { word: usize, slot: usize },
    /// One of `top + 1` shapes.
    Choice { word: usize, top: u8 },
    /// Off below 64, on from there.
    Switch { word: usize },
}

/// What takes a power to compute of a controller's value.
pub struct PowerTables {
    /// The frequency that each value of the cutoff's controller stands for.
    pub cutoff_hz: [u32; 256],
    /// Two to the power of the octave that each value of an octave's controller stands for.
    pub octave_factor: [u32; 256],
}

/// The frequencies of the cutoff in hertz, in ten-thousandths.
pub const MIN_CUTOFF: i32 = 20_0000;

pub const MAX_CUTOFF: i32 = 20000_0000;

/// The pitch factors of the octaves, in ten-thousandths.
pub const MIN_FACTOR: i32 = 2500;

pub const MAX_FACTOR: i32 = 4_0000;

/// A larger value has a larger entry, and the lowest and highest values have `lo` and `hi`
/// ten-thousandths.
pub open spec fn covers_range(table: Seq<u32>, lo: int, hi: int) -> bool {
    &&& table[0] == binary32_bits(lo)
    &&& table[127] == binary32_bits(hi)
    &&& forall|i: int, j: int|
        0 <= i < j <= 127 ==> order_key(#[trigger] table[i]) < order_key(#[trigger] table[j])
}

/// Whether a larger value has a larger entry, between the given ends.
fn table_covers(table: &[u32; 256], lo: i32, hi: i32) -> (ok: bool)
    ensures
        ok == covers_range(table@, lo as int, hi as int),
{
    if table[0] != binary32(lo) || table[127] != binary32(hi) {
        return false;
    }
    let mut i: usize = 0;
    while i < 127
        invariant
            i <= 127,
            forall|a: int, b: int|
                0 <= a < b <= i ==> order_key(#[trigger] table@[a]) < order_key(
                    #[trigger] table@[b],
                ),
        decreases 127 - i,
    {
        if !less_than(table[i], table[i + 1]) {
            assert(!(order_key(table@[i as int]) < order_key(table@[i + 1])));
            return false;
        }
        i += 1;
    }
    true
}

impl PowerTables {
    /// The tables are those of a cutoff and of octaves, by their order and their ends.
    pub open spec fn wf(&self) -> bool {
        &&& covers_range(self.cutoff_hz@, MIN_CUTOFF as int, MAX_CUTOFF as int)
        &&& covers_range(self.octave_factor@, MIN_FACTOR as int, MAX_FACTOR as int)
    }

    /// Whether the tables are those of a cutoff and of octaves, by their order and their ends.
    pub fn check(&self) -> (ok: bool)
        ensures
            ok == self.wf(),
    {
        table_covers(&self.cutoff_hz, MIN_CUTOFF, MAX_CUTOFF) && table_covers(
            &self.octave_factor,
            MIN_FACTOR,
            MAX_FACTOR,
        )
    }
}

/// What controller `cc` changes, if it changes a parameter of the sound.
pub open spec fn param_of(cc: u8) -> Option<CcParam> {
    match cc {
        CC_PORTAMENTO => Some(CcParam::Portamento),
        CC_RESONANCE => Some(CcParam::Resonance),
        CC_CUTOFF => Some(CcParam::Cutoff),
        CC_OSC1_LEVEL => Some(
            CcParam::Slot { word: WORD_OSC1_LEVEL, slot: SLOT_OSC1_LEVEL, lo: 0, hi: 1_0000 },
        ),
        CC_OSC1_OCTAVE => Some(CcParam::Octave { word: WORD_OSC1_OCTAVE, slot: SLOT_OSC1_OCTAVE }),
        CC_OSC1_DETUNE => Some(
            CcParam::Slot {
                word: WORD_OSC1_DETUNE,
                slot: SLOT_OSC1_DETUNE,
                lo: MIN_DETUNE,
                hi: MAX_DETUNE,
            },
        ),
        CC_OSC2_LEVEL => Some(
            CcParam::Slot { word: WORD_OSC2_LEVEL, slot: SLOT_OSC2_LEVEL, lo: 0, hi: 1_0000 },
        ),
        CC_OSC2_OCTAVE => Some(CcParam::Octave { word: WORD_OSC2_OCTAVE, slot: SLOT_OSC2_OCTAVE }),
        CC_OSC2_DETUNE => Some(
            CcParam::Slot {
                word: WORD_OSC2_DETUNE,
                slot: SLOT_OSC2_DETUNE,
                lo: MIN_DETUNE,
                hi: MAX_DETUNE,
            },
        ),
        CC_OSC3_LEVEL => Some(
            CcParam::Slot { word: WORD_OSC3_LEVEL, slot: SLOT_OSC3_LEVEL, lo: 0, hi: 1_0000 },
        ),
        CC_OSC3_OCTAVE => Some(CcParam::Octave { word: WORD_OSC3_OCTAVE, slot: SLOT_OSC3_OCTAVE }),
        CC_OSC3_DETUNE => Some(
            CcParam::Slot {
                word: WORD_OSC3_DETUNE,
                slot: SLOT_OSC3_DETUNE,
                lo: MIN_DETUNE,
                hi: MAX_DETUNE,
            },
        ),
        CC_NOISE => Some(CcParam::Slot { word: WORD_NOISE, slot: SLOT_NOISE, lo: 0, hi: 1_0000 }),
        CC_FILT_ENV_AMT => Some(
            CcParam::Slot {
                word: WORD_FILTER_ENV_AMOUNT,
                slot: SLOT_FILT_ENV_AMT,
                lo: MIN_ENV_AMOUNT,
                hi: MAX_ENV_AMOUNT,
            },
        ),
        CC_FILT_ATTACK => Some(
            CcParam::Slot { word: WORD_FILTER_ATTACK, slot: SLOT_FILT_ATTACK, lo: 0, hi: 5_0000 },
        ),
        CC_FILT_DECAY => Some(
            CcParam::Slot { word: WORD_FILTER_DECAY, slot: SLOT_FILT_DECAY, lo: 0, hi: 5_0000 },
        ),
        CC_FILT_SUSTAIN => Some(
            CcParam::Slot { word: WORD_FILTER_SUSTAIN, slot: SLOT_FILT_SUSTAIN, lo: 0, hi: 1_0000 },
        ),
        CC_FILT_RELEASE => Some(
            CcParam::Slot { word: WORD_FILTER_RELEASE, slot: SLOT_FILT_RELEASE, lo: 0, hi: 5_0000 },
        ),
        CC_AMP_ATTACK => Some(
            CcParam::Slot { word: WORD_AMP_ATTACK, slot: SLOT_AMP_ATTACK, lo: 0, hi: 5_0000 },
        ),
        CC_AMP_DECAY => Some(
            CcParam::Slot { word: WORD_AMP_DECAY, slot: SLOT_AMP_DECAY, lo: 0, hi: 5_0000 },
        ),
        CC_AMP_SUSTAIN => Some(
            CcParam::Slot { word: WORD_AMP_SUSTAIN, slot: SLOT_AMP_SUSTAIN, lo: 0, hi: 1_0000 },
        ),
        CC_AMP_RELEASE => Some(
            CcParam::Slot { word: WORD_AMP_RELEASE, slot: SLOT_AMP_RELEASE, lo: 0, hi: 5_0000 },
        ),
        CC_DELAY_TIME => Some(
            CcParam::Slot {
                word: WORD_DELAY_TIME,
                slot: SLOT_DELAY_TIME,
                lo: 0,
                hi: MAX_DELAY_SECONDS,
            },
        ),
        CC_DELAY_FEEDBACK => Some(
            CcParam::Slot {
                word: WORD_DELAY_FEEDBACK,
                slot: SLOT_DELAY_FEEDBACK,
                lo: 0,
                hi: 1_0000,
            },
        ),
        CC_DELAY_MIX => Some(
            CcParam::Slot { word: WORD_DELAY_MIX, slot: SLOT_DELAY_MIX, lo: 0, hi: 1_0000 },
        ),
        CC_REVERB_SIZE => Some(
            CcParam::Slot { word: WORD_REVERB_SIZE, slot: SLOT_REVERB_SIZE, lo: 0, hi: 1_0000 },
        ),
        CC_REVERB_DAMPING => Some(
            CcParam::Slot {
                word: WORD_REVERB_DAMPING,
                slot: SLOT_REVERB_DAMPING,
                lo: 0,
                hi: 1_0000,
            },
        ),
        CC_REVERB_MIX => Some(
            CcParam::Slot { word: WORD_REVERB_MIX, slot: SLOT_REVERB_MIX, lo: 0, hi: 1_0000 },
        ),
        CC_LFO_FREQ => Some(
            CcParam::Slot { word: WORD_LFO_FREQUENCY, slot: SLOT_LFO_FREQ, lo: 0, hi: 20_0000 },
        ),
        CC_LFO_VIB_AMT => Some(
            CcParam::Slot {
                word: WORD_LFO_VIBRATO_AMOUNT,
                slot: SLOT_LFO_VIB_AMT,
                lo: 0,
                hi: 20_0000,
            },
        ),
        CC_LFO_FILT_AMT => Some(
            CcParam::Slot {
                word: WORD_LFO_FILTER_AMOUNT,
                slot: SLOT_LFO_FILT_AMT,
                lo: 0,
                hi: 5000_0000,
            },
        ),
        CC_OSC1_WAVEFORM => Some(CcParam::Choice { word: WORD_OSC1_WAVEFORM, top: 4 }),
        CC_OSC1_VIBRATO => Some(CcParam::Switch { word: WORD_OSC1_VIBRATO }),
        CC_OSC2_WAVEFORM => Some(CcParam::Choice { word: WORD_OSC2_WAVEFORM, top: 4 }),
        CC_OSC2_VIBRATO => Some(CcParam::Switch { word: WORD_OSC2_VIBRATO }),
        CC_OSC3_WAVEFORM => Some(CcParam::Choice { word: WORD_OSC3_WAVEFORM, top: 4 }),
        CC_OSC3_VIBRATO => Some(CcParam::Switch { word: WORD_OSC3_VIBRATO }),
        CC_DELAY_ENABLED => Some(CcParam::Switch { word: WORD_DELAY_ENABLED }),
        CC_REVERB_ENABLED => Some(CcParam::Switch { word: WORD_REVERB_ENABLED }),
        CC_LFO_ENABLED => Some(CcParam::Switch { word: WORD_LFO_ENABLED }),
        CC_LFO_WAVEFORM => Some(CcParam::Choice { word: WORD_LFO_WAVEFORM, top: 3 }),
        _ => None,
    }
}

/// The word of the preset that a controller changes.
pub open spec fn word_of(param: CcParam) -> int {
    match param {
        CcParam::Portamento => WORD_PORTAMENTO as int,
        CcParam::Resonance => WORD_FILTER_RESONANCE as int,
        CcParam::Cutoff => WORD_FILTER_CUTOFF as int,
        CcParam::Slot { word, slot, lo, hi } => word as int,
        CcParam::Octave { word, slot } => word as int,
        CcParam::Choice { word, top } => word as int,
        CcParam::Switch { word } => word as int,
    }
}

/// A change of the parameter needs the voice to be rebuilt.
pub open spec fn is_structural(param: CcParam) -> bool {
    param is Choice || param is Switch
}

/// The ends of the range on which a controller moves, in ten-thousandths. The cutoff moves between
/// 0 and 1; its frequency goes by a table.
pub open spec fn range_of(param: CcParam) -> (int, int) {
    match param {
        CcParam::Slot { word, slot, lo, hi } => (lo as int, hi as int),
        CcParam::Octave { word, slot } => (MIN_OCTAVE as int, MAX_OCTAVE as int),
        _ => (0, 1_0000),
    }
}

/// The place that `value` stands for on the controller's range.
pub open spec fn place_of(param: CcParam, value: u8) -> u32 {
    scaled_bits(value as nat, range_of(param).0, range_of(param).1)
}

/// What the preset holds after the change: the place on the range, or the cutoff's frequency.
pub open spec fn word_value(param: CcParam, value: u8, t: PowerTables) -> u32 {
    match param {
        CcParam::Choice { word, top } => if value < top {
            value as u32
        } else {
            top as u32
        },
        CcParam::Switch { word } => if value >= 64 {
            1
        } else {
            0
        },
        CcParam::Cutoff => t.cutoff_hz@[value as int],
        _ => place_of(param, value),
    }
}

/// What is live after the change: the place on the range, or an octave's pitch factor.
pub open spec fn live_value(param: CcParam, value: u8, t: PowerTables) -> u32 {
    match param {
        CcParam::Octave { word, slot } => t.octave_factor@[value as int],
        _ => place_of(param, value),
    }
}

/// `after` is the preset `before` with one of its words changed.
pub open spec fn word_changed(before: Preset, after: Preset, word: int, value: u32) -> bool {
    &&& preset_words(after) == preset_words(before).update(word, value)
    &&& after.name == before.name
    &&& after._padding == before._padding
}

/// `after` is the live controls `before` with the change made.
pub open spec fn live_changed(
    before: MidiControl,
    after: MidiControl,
    param: CcParam,
    value: u8,
    t: PowerTables,
) -> bool {
    match param {
        CcParam::Portamento => after == (MidiControl {
            portamento_amount_bits: live_value(param, value, t),
            ..before
        }),
        CcParam::Resonance => after == (MidiControl {
            parameter_2_bits: live_value(param, value, t),
            ..before
        }),
        CcParam::Cutoff => after == (MidiControl {
            parameter_1_bits: live_value(param, value, t),
            ..before
        }),
        CcParam::Slot { word, slot, lo, hi } => {
            &&& after.cont@ == before.cont@.update(slot as int, live_value(param, value, t))
            &&& after == (MidiControl { cont: after.cont, ..before })
        },
        CcParam::Octave { word, slot } => {
            &&& after.cont@ == before.cont@.update(slot as int, live_value(param, value, t))
            &&& after == (MidiControl { cont: after.cont, ..before })
        },
        _ => after == before,
    }
}

/// What controller `cc` changes, if it changes a parameter of the sound.
pub fn cc_param(cc: u8) -> (param: Option<CcParam>)
    ensures
        param == param_of(cc),
{
    match cc {
        CC_PORTAMENTO => Some(CcParam::Portamento),
        CC_RESONANCE => Some(CcParam::Resonance),
        CC_CUTOFF => Some(CcParam::Cutoff),
        CC_OSC1_LEVEL => Some(
            CcParam::Slot { word: WORD_OSC1_LEVEL, slot: SLOT_OSC1_LEVEL, lo: 0, hi: 1_0000 },
        ),
        CC_OSC1_OCTAVE => Some(CcParam::Octave { word: WORD_OSC1_OCTAVE, slot: SLOT_OSC1_OCTAVE }),
        CC_OSC1_DETUNE => Some(
            CcParam::Slot {
                word: WORD_OSC1_DETUNE,
                slot: SLOT_OSC1_DETUNE,
                lo: MIN_DETUNE,
                hi: MAX_DETUNE,
            },
        ),
        CC_OSC2_LEVEL => Some(
            CcParam::Slot { word: WORD_OSC2_LEVEL, slot: SLOT_OSC2_LEVEL, lo: 0, hi: 1_0000 },
        ),
        CC_OSC2_OCTAVE => Some(CcParam::Octave { word: WORD_OSC2_OCTAVE, slot: SLOT_OSC2_OCTAVE }),
        CC_OSC2_DETUNE => Some(
            CcParam::Slot {
                word: WORD_OSC2_DETUNE,
                slot: SLOT_OSC2_DETUNE,
                lo: MIN_DETUNE,
                hi: MAX_DETUNE,
            },
        ),
        CC_OSC3_LEVEL => Some(
            CcParam::Slot { word: WORD_OSC3_LEVEL, slot: SLOT_OSC3_LEVEL, lo: 0, hi: 1_0000 },
        ),
        CC_OSC3_OCTAVE => Some(CcParam::Octave { word: WORD_OSC3_OCTAVE, slot: SLOT_OSC3_OCTAVE }),
        CC_OSC3_DETUNE => Some(
            CcParam::Slot {
                word: WORD_OSC3_DETUNE,
                slot: SLOT_OSC3_DETUNE,
                lo: MIN_DETUNE,
                hi: MAX_DETUNE,
            },
        ),
        CC_NOISE => Some(CcParam::Slot { word: WORD_NOISE, slot: SLOT_NOISE, lo: 0, hi: 1_0000 }),
        CC_FILT_ENV_AMT => Some(
            CcParam::Slot {
                word: WORD_FILTER_ENV_AMOUNT,
                slot: SLOT_FILT_ENV_AMT,
                lo: MIN_ENV_AMOUNT,
                hi: MAX_ENV_AMOUNT,
            },
        ),
        CC_FILT_ATTACK => Some(
            CcParam::Slot { word: WORD_FILTER_ATTACK, slot: SLOT_FILT_ATTACK, lo: 0, hi: 5_0000 },
        ),
        CC_FILT_DECAY => Some(
            CcParam::Slot { word: WORD_FILTER_DECAY, slot: SLOT_FILT_DECAY, lo: 0, hi: 5_0000 },
        ),
        CC_FILT_SUSTAIN => Some(
            CcParam::Slot { word: WORD_FILTER_SUSTAIN, slot: SLOT_FILT_SUSTAIN, lo: 0, hi: 1_0000 },
        ),
        CC_FILT_RELEASE => Some(
            CcParam::Slot { word: WORD_FILTER_RELEASE, slot: SLOT_FILT_RELEASE, lo: 0, hi: 5_0000 },
        ),
        CC_AMP_ATTACK => Some(
            CcParam::Slot { word: WORD_AMP_ATTACK, slot: SLOT_AMP_ATTACK, lo: 0, hi: 5_0000 },
        ),
        CC_AMP_DECAY => Some(
            CcParam::Slot { word: WORD_AMP_DECAY, slot: SLOT_AMP_DECAY, lo: 0, hi: 5_0000 },
        ),
        CC_AMP_SUSTAIN => Some(
            CcParam::Slot { word: WORD_AMP_SUSTAIN, slot: SLOT_AMP_SUSTAIN, lo: 0, hi: 1_0000 },
        ),
        CC_AMP_RELEASE => Some(
            CcParam::Slot { word: WORD_AMP_RELEASE, slot: SLOT_AMP_RELEASE, lo: 0, hi: 5_0000 },
        ),
        CC_DELAY_TIME => Some(
            CcParam::Slot {
                word: WORD_DELAY_TIME,
                slot: SLOT_DELAY_TIME,
                lo: 0,
                hi: MAX_DELAY_SECONDS,
            },
        ),
        CC_DELAY_FEEDBACK => Some(
            CcParam::Slot {
                word: WORD_DELAY_FEEDBACK,
                slot: SLOT_DELAY_FEEDBACK,
                lo: 0,
                hi: 1_0000,
            },
        ),
        CC_DELAY_MIX => Some(
            CcParam::Slot { word: WORD_DELAY_MIX, slot: SLOT_DELAY_MIX, lo: 0, hi: 1_0000 },
        ),
        CC_REVERB_SIZE => Some(
            CcParam::Slot { word: WORD_REVERB_SIZE, slot: SLOT_REVERB_SIZE, lo: 0, hi: 1_0000 },
        ),
        CC_REVERB_DAMPING => Some(
            CcParam::Slot {
                word: WORD_REVERB_DAMPING,
                slot: SLOT_REVERB_DAMPING,
                lo: 0,
                hi: 1_0000,
            },
        ),
        CC_REVERB_MIX => Some(
            CcParam::Slot { word: WORD_REVERB_MIX, slot: SLOT_REVERB_MIX, lo: 0, hi: 1_0000 },
        ),
        CC_LFO_FREQ => Some(
            CcParam::Slot { word: WORD_LFO_FREQUENCY, slot: SLOT_LFO_FREQ, lo: 0, hi: 20_0000 },
        ),
        CC_LFO_VIB_AMT => Some(
            CcParam::Slot {
                word: WORD_LFO_VIBRATO_AMOUNT,
                slot: SLOT_LFO_VIB_AMT,
                lo: 0,
                hi: 20_0000,
            },
        ),
        CC_LFO_FILT_AMT => Some(
            CcParam::Slot {
                word: WORD_LFO_FILTER_AMOUNT,
                slot: SLOT_LFO_FILT_AMT,
                lo: 0,
                hi: 5000_0000,
            },
        ),
        CC_OSC1_WAVEFORM => Some(CcParam::Choice { word: WORD_OSC1_WAVEFORM, top: 4 }),
        CC_OSC1_VIBRATO => Some(CcParam::Switch { word: WORD_OSC1_VIBRATO }),
        CC_OSC2_WAVEFORM => Some(CcParam::Choice { word: WORD_OSC2_WAVEFORM, top: 4 }),
        CC_OSC2_VIBRATO => Some(CcParam::Switch { word: WORD_OSC2_VIBRATO }),
        CC_OSC3_WAVEFORM => Some(CcParam::Choice { word: WORD_OSC3_WAVEFORM, top: 4 }),
        CC_OSC3_VIBRATO => Some(CcParam::Switch { word: WORD_OSC3_VIBRATO }),
        CC_DELAY_ENABLED => Some(CcParam::Switch { word: WORD_DELAY_ENABLED }),
        CC_REVERB_ENABLED => Some(CcParam::Switch { word: WORD_REVERB_ENABLED }),
        CC_LFO_ENABLED => Some(CcParam::Switch { word: WORD_LFO_ENABLED }),
        CC_LFO_WAVEFORM => Some(CcParam::Choice { word: WORD_LFO_WAVEFORM, top: 3 }),
        _ => None,
    }
}

/// Makes the change that controller `cc` asks for, in the working preset `p` and in the live
/// controls. Says whether the voice must be rebuilt, or nothing if the controller changes no
/// parameter of the sound.
pub fn apply_cc(
    cc: u8,
    value: u8,
    tables: &PowerTables,
    p: &mut Preset,
    ctrl: &mut MidiControl,
) -> (structural: Option<bool>)
    ensures
        structural == match param_of(cc) {
            None => None::<bool>,
            Some(param) => Some(is_structural(param)),
        },
        match param_of(cc) {
            None => *final(p) == *old(p) && *final(ctrl) == *old(ctrl),
            Some(param) => {
                &&& word_changed(
                    *old(p),
                    *final(p),
                    word_of(param),
                    word_value(param, value, *tables),
                )
                &&& live_changed(*old(ctrl), *final(ctrl), param, value, *tables)
            },
        },
{
    let param = match cc_param(cc) {
        None => {
            return None;
        },
        Some(param) => param,
    };
    match param {
        CcParam::Portamento => {
            let amount: u32 = unit(value);
            p.set_word(WORD_PORTAMENTO, amount);
            ctrl.set_portamento(amount);
        },
        CcParam::Resonance => {
            let amount: u32 = unit(value);
            p.set_word(WORD_FILTER_RESONANCE, amount);
            ctrl.set_parameter_2(amount);
        },
        CcParam::Cutoff => {
            p.set_word(WORD_FILTER_CUTOFF, tables.cutoff_hz[value as usize]);
            ctrl.set_parameter_1(unit(value));
        },
        CcParam::Slot { word, slot, lo, hi } => {
            let place: u32 = scaled(value, lo, hi);
            p.set_word(word, place);
            ctrl.set_cont(slot, place);
        },
        CcParam::Octave { word, slot } => {
            p.set_word(word, scaled(value, MIN_OCTAVE, MAX_OCTAVE));
            ctrl.set_cont(slot, tables.octave_factor[value as usize]);
        },
        CcParam::Choice { word, top } => {
            let choice: u8 = if value < top {
                value
            } else {
                top
            };
            p.set_word(word, choice as u32);
            return Some(true);
        },
        CcParam::Switch { word } => {
            p.set_word(
                word,
                if value >= 64 {
                    1
                } else {
                    0
                },
            );
            return Some(true);
        },
    }
    Some(false)
}

/// What a voice computes from the preset after the change: only what was computed for the
/// controller itself differs.
pub open spec fn derived_changed(
    before: Derived,
    after: Derived,
    param: CcParam,
    value: u8,
    t: PowerTables,
) -> bool {
    match param {
        CcParam::Resonance => after == (Derived {
            resonance_norm: live_value(param, value, t),
            ..before
        }),
        CcParam::Cutoff => after == (Derived {
            cutoff_norm: live_value(param, value, t),
            ..before
        }),
        CcParam::Octave { word, slot } => {
            &&& after.octave_factor@ == before.octave_factor@.update(
                slot - SLOT_OSC1_OCTAVE,
                live_value(param, value, t),
            )
            &&& after == (Derived { octave_factor: after.octave_factor, ..before })
        },
        _ => after == before,
    }
}

/// The working preset follows the live controls: if they agreed before a controller was moved they
/// agree after it, so that a voice rebuilt from the preset starts with what the player has set.
pub proof fn preset_follows_live(
    cc: u8,
    value: u8,
    t: PowerTables,
    p: Preset,
    p2: Preset,
    d: Derived,
    d2: Derived,
    c: MidiControl,
    c2: MidiControl,
)
    requires
        param_of(cc) is Some,
        in_sync(p, d, c),
        word_changed(
            p,
            p2,
            word_of(param_of(cc)->0),
            word_value(param_of(cc)->0, value, t),
        ),
        live_changed(c, c2, param_of(cc)->0, value, t),
        derived_changed(d, d2, param_of(cc)->0, value, t),
    ensures
        in_sync(p2, d2, c2),
{
    let u = preset_words(p);
    let v = preset_words(p2);
    slots_are_words(p, d);
    slots_are_words(p2, d2);
    assert(c2.cont@ =~= seeded_slots(p2, d2));
}

/// The ends of the range of what the preset holds, in ten-thousandths.
pub open spec fn word_range(param: CcParam) -> (int, int) {
    if param is Cutoff {
        (MIN_CUTOFF as int, MAX_CUTOFF as int)
    } else {
        range_of(param)
    }
}

/// The ends of the range of what is live, in ten-thousandths.
pub open spec fn live_range(param: CcParam) -> (int, int) {
    if param is Octave {
        (MIN_FACTOR as int, MAX_FACTOR as int)
    } else {
        range_of(param)
    }
}

/// A larger value of a continuous controller gives a larger parameter, in the preset and live, and
/// its lowest and highest values give the ends of the parameter's range.
pub proof fn controller_covers_its_range(cc: u8, v1: u8, v2: u8, t: PowerTables)
    requires
        param_of(cc) is Some,
        !is_structural(param_of(cc)->0),
        v1 < v2 <= 127,
        t.wf(),
    ensures
        ({
            let param = param_of(cc)->0;
            &&& order_key(word_value(param, v1, t)) < order_key(word_value(param, v2, t))
            &&& word_value(param, 0, t) == binary32_bits(word_range(param).0)
            &&& word_value(param, 127, t) == binary32_bits(word_range(param).1)
            &&& order_key(live_value(param, v1, t)) < order_key(live_value(param, v2, t))
            &&& live_value(param, 0, t) == binary32_bits(live_range(param).0)
            &&& live_value(param, 127, t) == binary32_bits(live_range(param).1)
        }),
{
    let (lo, hi) = range_of(param_of(cc)->0);
    assert(is_range(lo, hi));
    larger_value_is_larger(v1 as nat, v2 as nat, lo, hi);
    range_has_its_ends(lo, hi);
}

/// The word that fills each slot, but for the octave slots.
spec fn slot_word(k: int) -> int {
    if k < 3 {
        5 * k + 1
    } else if k == 3 {
        15
    } else if k < 7 {
        5 * (k - 4) + 2
    } else if k < 10 {
        5 * (k - 7) + 3
    } else if k < 19 {
        k + 9
    } else if k < 22 {
        k + 14
    } else if k < 25 {
        k + 15
    } else if k == 25 {
        29
    } else {
        k + 5
    }
}

proof fn slots_are_words(p: Preset, d: Derived)
    ensures
        seeded_slots(p, d).len() == 28,
        preset_words(p).len() == 41,
        p.portamento == preset_words(p)[16],
        forall|k: int|
            0 <= k < 28 ==> #[trigger] seeded_slots(p, d)[k] == if 4 <= k < 7 {
                d.octave_factor@[k - 4]
            } else {
                preset_words(p)[slot_word(k)]
            },
{
}

/// A preset is its name, its numbers and its padding.
proof fn same_preset(a: Preset, b: Preset)
    requires
        preset_words(a) == preset_words(b),
        a.name == b.name,
        a._padding == b._padding,
    ensures
        a == b,
{
    assert(preset_bytes(a) == preset_bytes(b));
    preset_bytes_injective(a, b);
}

/// The controllers that stand for parameters of the sound, and those among them that change how the
/// voice is built.
pub proof fn controllers_of_the_sound(cc: u8)
    ensures
        param_of(cc) is Some <==> cc == 5 || 16 <= cc <= 31 || cc == 71 || cc == 74 || 85 <= cc
            <= 89 || 102 <= cc <= 118,
        param_of(cc) matches Some(param) ==> (is_structural(param) <==> cc == 85 || cc == 87 || 111
            <= cc <= 118),
{
}

/// Which field each controller of oscillator 1 changes: that one takes the new number, and
/// everything else of the preset is kept.
pub proof fn osc1_controllers(cc: u8, x: u32, p: Preset, p2: Preset)
    requires
        cc == 16 || cc == 17 || cc == 18 || cc == 111 || cc == 112,
        word_changed(p, p2, word_of(param_of(cc)->0), x),
    ensures
        cc == 16 ==> p2 == (Preset { osc1: OscSettings { level: x, ..p.osc1 }, ..p }),
        cc == 17 ==> p2 == (Preset { osc1: OscSettings { octave: x, ..p.osc1 }, ..p }),
        cc == 18 ==> p2 == (Preset { osc1: OscSettings { detune: x, ..p.osc1 }, ..p }),
        cc == 111 ==> p2 == (Preset { osc1: OscSettings { waveform: x, ..p.osc1 }, ..p }),
        cc == 112 ==> p2 == (Preset { osc1: OscSettings { enable_vibrato: x, ..p.osc1 }, ..p }),
{
    if cc == 16 {
        let t = Preset { osc1: OscSettings { level: x, ..p.osc1 }, ..p };
        assert(preset_words(t) =~= preset_words(p2));
        same_preset(p2, t);
    } else if cc == 17 {
        let t = Preset { osc1: OscSettings { octave: x, ..p.osc1 }, ..p };
        assert(preset_words(t) =~= preset_words(p2));
        same_preset(p2, t);
    } else if cc == 18 {
        let t = Preset { osc1: OscSettings { detune: x, ..p.osc1 }, ..p };
        assert(preset_words(t) =~= preset_words(p2));
        same_preset(p2, t);
    } else if cc == 111 {
        let t = Preset { osc1: OscSettings { waveform: x, ..p.osc1 }, ..p };
        assert(preset_words(t) =~= preset_words(p2));
        same_preset(p2, t);
    } else if cc == 112 {
        let t = Preset { osc1: OscSettings { enable_vibrato: x, ..p.osc1 }, ..p };
        assert(preset_words(t) =~= preset_words(p2));
        same_preset(p2, t);
    }
}

/// Which field each controller of oscillator 2 changes: that one takes the new number, and
/// everything else of the preset is kept.
pub proof fn osc2_controllers(cc: u8, x: u32, p: Preset, p2: Preset)
    requires
        cc == 19 || cc == 20 || cc == 21 || cc == 113 || cc == 114,
        word_changed(p, p2, word_of(param_of(cc)->0), x),
    ensures
        cc == 19 ==> p2 == (Preset { osc2: OscSettings { level: x, ..p.osc2 }, ..p }),
        cc == 20 ==> p2 == (Preset { osc2: OscSettings { octave: x, ..p.osc2 }, ..p }),
        cc == 21 ==> p2 == (Preset { osc2: OscSettings { detune: x, ..p.osc2 }, ..p }),
        cc == 113 ==> p2 == (Preset { osc2: OscSettings { waveform: x, ..p.osc2 }, ..p }),
        cc == 114 ==> p2 == (Preset { osc2: OscSettings { enable_vibrato: x, ..p.osc2 }, ..p }),
{
    if cc == 19 {
        let t = Preset { osc2: OscSettings { level: x, ..p.osc2 }, ..p };
        assert(preset_words(t) =~= preset_words(p2));
        same_preset(p2, t);
    } else if cc == 20 {
        let t = Preset { osc2: OscSettings { octave: x, ..p.osc2 }, ..p };
        assert(preset_words(t) =~= preset_words(p2));
        same_preset(p2, t);
    } else if cc == 21 {
        let t = Preset { osc2: OscSettings { detune: x, ..p.osc2 }, ..p };
        assert(preset_words(t) =~= preset_words(p2));
        same_preset(p2, t);
    } else if cc == 113 {
        let t = Preset { osc2: OscSettings { waveform: x, ..p.osc2 }, ..p };
        assert(preset_words(t) =~= preset_words(p2));
        same_preset(p2, t);
    } else if cc == 114 {
        let t = Preset { osc2: OscSettings { enable_vibrato: x, ..p.osc2 }, ..p };
        assert(preset_words(t) =~= preset_words(p2));
        same_preset(p2, t);
    }
}

/// Which field each controller of oscillator 3 changes: that one takes the new number, and
/// everything else of the preset is kept.
pub proof fn osc3_controllers(cc: u8, x: u32, p: Preset, p2: Preset)
    requires
        cc == 22 || cc == 23 || cc == 24 || cc == 115 || cc == 116,
        word_changed(p, p2, word_of(param_of(cc)->0), x),
    ensures
        cc == 22 ==> p2 == (Preset { osc3: OscSettings { level: x, ..p.osc3 }, ..p }),
        cc == 23 ==> p2 == (Preset { osc3: OscSettings { octave: x, ..p.osc3 }, ..p }),
        cc == 24 ==> p2 == (Preset { osc3: OscSettings { detune: x, ..p.osc3 }, ..p }),
        cc == 115 ==> p2 == (Preset { osc3: OscSettings { waveform: x, ..p.osc3 }, ..p }),
        cc == 116 ==> p2 == (Preset { osc3: OscSettings { enable_vibrato: x, ..p.osc3 }, ..p }),
{
    if cc == 22 {
        let t = Preset { osc3: OscSettings { level: x, ..p.osc3 }, ..p };
        assert(preset_words(t) =~= preset_words(p2));
        same_preset(p2, t);
    } else if cc == 23 {
        let t = Preset { osc3: OscSettings { octave: x, ..p.osc3 }, ..p };
        assert(preset_words(t) =~= preset_words(p2));
        same_preset(p2, t);
    } else if cc == 24 {
        let t = Preset { osc3: OscSettings { detune: x, ..p.osc3 }, ..p };
        assert(preset_words(t) =~= preset_words(p2));
        same_preset(p2, t);
    } else if cc == 115 {
        let t = Preset { osc3: OscSettings { waveform: x, ..p.osc3 }, ..p };
        assert(preset_words(t) =~= preset_words(p2));
        same_preset(p2, t);
    } else if cc == 116 {
        let t = Preset { osc3: OscSettings { enable_vibrato: x, ..p.osc3 }, ..p };
        assert(preset_words(t) =~= preset_words(p2));
        same_preset(p2, t);
    }
}

/// Which field each controller of the filter changes: that one takes the new number, and
/// everything else of the preset is kept.
pub proof fn filter_controllers(cc: u8, x: u32, p: Preset, p2: Preset)
    requires
        cc == 74 || cc == 71 || cc == 26 || cc == 27 || cc == 28 || cc == 29 || cc == 30,
        word_changed(p, p2, word_of(param_of(cc)->0), x),
    ensures
        cc == 74 ==> p2 == (Preset { filter: FilterSettings { cutoff: x, ..p.filter }, ..p }),
        cc == 71 ==> p2 == (Preset { filter: FilterSettings { resonance: x, ..p.filter }, ..p }),
        cc == 26 ==> p2 == (Preset { filter: FilterSettings { env_amount: x, ..p.filter }, ..p }),
        cc == 27 ==> p2 == (Preset { filter: FilterSettings { attack: x, ..p.filter }, ..p }),
        cc == 28 ==> p2 == (Preset { filter: FilterSettings { decay: x, ..p.filter }, ..p }),
        cc == 29 ==> p2 == (Preset { filter: FilterSettings { sustain: x, ..p.filter }, ..p }),
        cc == 30 ==> p2 == (Preset { filter: FilterSettings { release: x, ..p.filter }, ..p }),
{
    if cc == 74 {
        let t = Preset { filter: FilterSettings { cutoff: x, ..p.filter }, ..p };
        assert(preset_words(t) =~= preset_words(p2));
        same_preset(p2, t);
    } else if cc == 71 {
        let t = Preset { filter: FilterSettings { resonance: x, ..p.filter }, ..p };
        assert(preset_words(t) =~= preset_words(p2));
        same_preset(p2, t);
    } else if cc == 26 {
        let t = Preset { filter: FilterSettings { env_amount: x, ..p.filter }, ..p };
        assert(preset_words(t) =~= preset_words(p2));
        same_preset(p2, t);
    } else if cc == 27 {
        let t = Preset { filter: FilterSettings { attack: x, ..p.filter }, ..p };
        assert(preset_words(t) =~= preset_words(p2));
        same_preset(p2, t);
    } else if cc == 28 {
        let t = Preset { filter: FilterSettings { decay: x, ..p.filter }, ..p };
        assert(preset_words(t) =~= preset_words(p2));
        same_preset(p2, t);
    } else if cc == 29 {
        let t = Preset { filter: FilterSettings { sustain: x, ..p.filter }, ..p };
        assert(preset_words(t) =~= preset_words(p2));
        same_preset(p2, t);
    } else if cc == 30 {
        let t = Preset { filter: FilterSettings { release: x, ..p.filter }, ..p };
        assert(preset_words(t) =~= preset_words(p2));
        same_preset(p2, t);
    }
}

/// Which field each controller of the amplitude, the glide and the noise changes: that one takes
/// the new number, and everything else of the preset is kept.
pub proof fn amplitude_controllers(cc: u8, x: u32, p: Preset, p2: Preset)
    requires
        cc == 31 || cc == 102 || cc == 103 || cc == 104 || cc == 5 || cc == 25,
        word_changed(p, p2, word_of(param_of(cc)->0), x),
    ensures
        cc == 31 ==> p2 == (Preset { amp: EnvelopeSettings { attack: x, ..p.amp }, ..p }),
        cc == 102 ==> p2 == (Preset { amp: EnvelopeSettings { decay: x, ..p.amp }, ..p }),
        cc == 103 ==> p2 == (Preset { amp: EnvelopeSettings { sustain: x, ..p.amp }, ..p }),
        cc == 104 ==> p2 == (Preset { amp: EnvelopeSettings { release: x, ..p.amp }, ..p }),
        cc == 5 ==> p2 == (Preset { portamento: x, ..p }),
        cc == 25 ==> p2 == (Preset { noise_level: x, ..p }),
{
    if cc == 31 {
        let t = Preset { amp: EnvelopeSettings { attack: x, ..p.amp }, ..p };
        assert(preset_words(t) =~= preset_words(p2));
        same_preset(p2, t);
    } else if cc == 102 {
        let t = Preset { amp: EnvelopeSettings { decay: x, ..p.amp }, ..p };
        assert(preset_words(t) =~= preset_words(p2));
        same_preset(p2, t);
    } else if cc == 103 {
        let t = Preset { amp: EnvelopeSettings { sustain: x, ..p.amp }, ..p };
        assert(preset_words(t) =~= preset_words(p2));
        same_preset(p2, t);
    } else if cc == 104 {
        let t = Preset { amp: EnvelopeSettings { release: x, ..p.amp }, ..p };
        assert(preset_words(t) =~= preset_words(p2));
        same_preset(p2, t);
    } else if cc == 5 {
        let t = Preset { portamento: x, ..p };
        assert(preset_words(t) =~= preset_words(p2));
        same_preset(p2, t);
    } else if cc == 25 {
        let t = Preset { noise_level: x, ..p };
        assert(preset_words(t) =~= preset_words(p2));
        same_preset(p2, t);
    }
}

/// Which field each controller of the modulation changes: that one takes the new number, and
/// everything else of the preset is kept.
pub proof fn modulation_controllers(cc: u8, x: u32, p: Preset, p2: Preset)
    requires
        cc == 85 || cc == 86 || cc == 87 || cc == 88 || cc == 89,
        word_changed(p, p2, word_of(param_of(cc)->0), x),
    ensures
        cc == 85 ==> p2 == (Preset { lfo_enabled: x, ..p }),
        cc == 86 ==> p2 == (Preset { lfo: LfoSettings { frequency: x, ..p.lfo }, ..p }),
        cc == 87 ==> p2 == (Preset { lfo: LfoSettings { waveform: x, ..p.lfo }, ..p }),
        cc == 88 ==> p2 == (Preset { lfo: LfoSettings { vibrato_amount: x, ..p.lfo }, ..p }),
        cc == 89 ==> p2 == (Preset { lfo: LfoSettings { filter_amount: x, ..p.lfo }, ..p }),
{
    if cc == 85 {
        let t = Preset { lfo_enabled: x, ..p };
        assert(preset_words(t) =~= preset_words(p2));
        same_preset(p2, t);
    } else if cc == 86 {
        let t = Preset { lfo: LfoSettings { frequency: x, ..p.lfo }, ..p };
        assert(preset_words(t) =~= preset_words(p2));
        same_preset(p2, t);
    } else if cc == 87 {
        let t = Preset { lfo: LfoSettings { waveform: x, ..p.lfo }, ..p };
        assert(preset_words(t) =~= preset_words(p2));
        same_preset(p2, t);
    } else if cc == 88 {
        let t = Preset { lfo: LfoSettings { vibrato_amount: x, ..p.lfo }, ..p };
        assert(preset_words(t) =~= preset_words(p2));
        same_preset(p2, t);
    } else if cc == 89 {
        let t = Preset { lfo: LfoSettings { filter_amount: x, ..p.lfo }, ..p };
        assert(preset_words(t) =~= preset_words(p2));
        same_preset(p2, t);
    }
}

/// Which field each controller of the effects changes: that one takes the new number, and
/// everything else of the preset is kept.
pub proof fn effect_controllers(cc: u8, x: u32, p: Preset, p2: Preset)
    requires
        105 <= cc <= 110 || cc == 117 || cc == 118,
        word_changed(p, p2, word_of(param_of(cc)->0), x),
    ensures
        cc == 105 ==> p2 == (Preset { delay: DelaySettings { time: x, ..p.delay }, ..p }),
        cc == 106 ==> p2 == (Preset { delay: DelaySettings { feedback: x, ..p.delay }, ..p }),
        cc == 107 ==> p2 == (Preset { delay: DelaySettings { mix: x, ..p.delay }, ..p }),
        cc == 117 ==> p2 == (Preset { delay: DelaySettings { enabled: x, ..p.delay }, ..p }),
        cc == 108 ==> p2 == (Preset { reverb: ReverbSettings { size: x, ..p.reverb }, ..p }),
        cc == 109 ==> p2 == (Preset { reverb: ReverbSettings { damping: x, ..p.reverb }, ..p }),
        cc == 110 ==> p2 == (Preset { reverb: ReverbSettings { mix: x, ..p.reverb }, ..p }),
        cc == 118 ==> p2 == (Preset { reverb: ReverbSettings { enabled: x, ..p.reverb }, ..p }),
{
    if cc == 105 {
        let t = Preset { delay: DelaySettings { time: x, ..p.delay }, ..p };
        assert(preset_words(t) =~= preset_words(p2));
        same_preset(p2, t);
    } else if cc == 106 {
        let t = Preset { delay: DelaySettings { feedback: x, ..p.delay }, ..p };
        assert(preset_words(t) =~= preset_words(p2));
        same_preset(p2, t);
    } else if cc == 107 {
        let t = Preset { delay: DelaySettings { mix: x, ..p.delay }, ..p };
        assert(preset_words(t) =~= preset_words(p2));
        same_preset(p2, t);
    } else if cc == 117 {
        let t = Preset { delay: DelaySettings { enabled: x, ..p.delay }, ..p };
        assert(preset_words(t) =~= preset_words(p2));
        same_preset(p2, t);
    } else if cc == 108 {
        let t = Preset { reverb: ReverbSettings { size: x, ..p.reverb }, ..p };
        assert(preset_words(t) =~= preset_words(p2));
        same_preset(p2, t);
    } else if cc == 109 {
        let t = Preset { reverb: ReverbSettings { damping: x, ..p.reverb }, ..p };
        assert(preset_words(t) =~= preset_words(p2));
        same_preset(p2, t);
    } else if cc == 110 {
        let t = Preset { reverb: ReverbSettings { mix: x, ..p.reverb }, ..p };
        assert(preset_words(t) =~= preset_words(p2));
        same_preset(p2, t);
    } else if cc == 118 {
        let t = Preset { reverb: ReverbSettings { enabled: x, ..p.reverb }, ..p };
        assert(preset_words(t) =~= preset_words(p2));
        same_preset(p2, t);
    }
}

/// Where each continuous controller is heard at once: three have a control of their own, the others
/// a slot; nothing else of the live controls changes. A structural one changes none of them.
pub proof fn controllers_are_live(
    cc: u8,
    value: u8,
    t: PowerTables,
    c: MidiControl,
    c2: MidiControl,
)
    requires
        param_of(cc) is Some,
        live_changed(c, c2, param_of(cc)->0, value, t),
    ensures
        ({
            let x = live_value(param_of(cc)->0, value, t);
            &&& cc == 5 ==> c2 == (MidiControl { portamento_amount_bits: x, ..c })
            &&& cc == 71 ==> c2 == (MidiControl { parameter_2_bits: x, ..c })
            &&& cc == 74 ==> c2 == (MidiControl { parameter_1_bits: x, ..c })
            &&& cc == 16 ==> c2.cont@ == c.cont@.update(SLOT_OSC1_LEVEL as int, x)
            &&& cc == 17 ==> c2.cont@ == c.cont@.update(SLOT_OSC1_OCTAVE as int, x)
            &&& cc == 18 ==> c2.cont@ == c.cont@.update(SLOT_OSC1_DETUNE as int, x)
            &&& cc == 19 ==> c2.cont@ == c.cont@.update(SLOT_OSC2_LEVEL as int, x)
            &&& cc == 20 ==> c2.cont@ == c.cont@.update(SLOT_OSC2_OCTAVE as int, x)
            &&& cc == 21 ==> c2.cont@ == c.cont@.update(SLOT_OSC2_DETUNE as int, x)
            &&& cc == 22 ==> c2.cont@ == c.cont@.update(SLOT_OSC3_LEVEL as int, x)
            &&& cc == 23 ==> c2.cont@ == c.cont@.update(SLOT_OSC3_OCTAVE as int, x)
            &&& cc == 24 ==> c2.cont@ == c.cont@.update(SLOT_OSC3_DETUNE as int, x)
            &&& cc == 25 ==> c2.cont@ == c.cont@.update(SLOT_NOISE as int, x)
            &&& cc == 26 ==> c2.cont@ == c.cont@.update(SLOT_FILT_ENV_AMT as int, x)
            &&& cc == 27 ==> c2.cont@ == c.cont@.update(SLOT_FILT_ATTACK as int, x)
            &&& cc == 28 ==> c2.cont@ == c.cont@.update(SLOT_FILT_DECAY as int, x)
            &&& cc == 29 ==> c2.cont@ == c.cont@.update(SLOT_FILT_SUSTAIN as int, x)
            &&& cc == 30 ==> c2.cont@ == c.cont@.update(SLOT_FILT_RELEASE as int, x)
            &&& cc == 31 ==> c2.cont@ == c.cont@.update(SLOT_AMP_ATTACK as int, x)
            &&& cc == 102 ==> c2.cont@ == c.cont@.update(SLOT_AMP_DECAY as int, x)
            &&& cc == 103 ==> c2.cont@ == c.cont@.update(SLOT_AMP_SUSTAIN as int, x)
            &&& cc == 104 ==> c2.cont@ == c.cont@.update(SLOT_AMP_RELEASE as int, x)
            &&& cc == 105 ==> c2.cont@ == c.cont@.update(SLOT_DELAY_TIME as int, x)
            &&& cc == 106 ==> c2.cont@ == c.cont@.update(SLOT_DELAY_FEEDBACK as int, x)
            &&& cc == 107 ==> c2.cont@ == c.cont@.update(SLOT_DELAY_MIX as int, x)
            &&& cc == 108 ==> c2.cont@ == c.cont@.update(SLOT_REVERB_SIZE as int, x)
            &&& cc == 109 ==> c2.cont@ == c.cont@.update(SLOT_REVERB_DAMPING as int, x)
            &&& cc == 110 ==> c2.cont@ == c.cont@.update(SLOT_REVERB_MIX as int, x)
            &&& cc == 86 ==> c2.cont@ == c.cont@.update(SLOT_LFO_FREQ as int, x)
            &&& cc == 88 ==> c2.cont@ == c.cont@.update(SLOT_LFO_VIB_AMT as int, x)
            &&& cc == 89 ==> c2.cont@ == c.cont@.update(SLOT_LFO_FILT_AMT as int, x)
            &&& cc != 5 && cc != 71 && cc != 74 ==> c2 == (MidiControl { cont: c2.cont, ..c })
            &&& cc == 85 || cc == 87 || 111 <= cc <= 118 ==> c2 == c
        }),
{
}

/// A controller that chooses a shape reaches each one: its values from zero on are the shapes'
/// numbers, and larger values choose the last one. There are five shapes of an oscillator and four
/// of the modulation.
pub proof fn every_shape_is_reached(cc: u8, v: u8, t: PowerTables)
    requires
        cc == 111 || cc == 113 || cc == 115 || cc == 87,
    ensures
        cc != 87 && v <= 4 ==> word_value(param_of(cc)->0, v, t) == v,
        cc != 87 && v > 4 ==> word_value(param_of(cc)->0, v, t) == 4,
        cc == 87 && v <= 3 ==> word_value(param_of(cc)->0, v, t) == v,
        cc == 87 && v > 3 ==> word_value(param_of(cc)->0, v, t) == 3,
{
}

/// A controller that switches something is off for its lower half and on for its upper half.
pub proof fn switches_turn_in_the_middle(cc: u8, v: u8, t: PowerTables)
    requires
        cc == 85 || cc == 112 || cc == 114 || cc == 116 || cc == 117 || cc == 118,
    ensures
        v <= 63 ==> word_value(param_of(cc)->0, v, t) == 0,
        v >= 64 ==> word_value(param_of(cc)->0, v, t) == 1,
{
}

/// The ends of the range of each continuous controller in the preset, in ten-thousandths: levels
/// and mixes between 0 and 1, times up to five seconds or three tenths, and so on.
pub proof fn controllers_have_their_ranges(cc: u8, lo: int, hi: int, t: PowerTables)
    requires
        t.wf(),
        ({
            ||| (cc == 5 || cc == 71 || cc == 16 || cc == 19 || cc == 22 || cc == 25 || cc == 29
                || cc == 103 || 106 <= cc <= 110) && lo == 0 && hi == 1_0000
            ||| (cc == 17 || cc == 20 || cc == 23) && lo == -2_0000 && hi == 2_0000
            ||| (cc == 18 || cc == 21 || cc == 24) && lo == -100_0000 && hi == 100_0000
            ||| cc == 26 && lo == -10000_0000 && hi == 10000_0000
            ||| (cc == 27 || cc == 28 || cc == 30 || cc == 31 || cc == 102 || cc == 104) && lo == 0
                && hi == 5_0000
            ||| cc == 105 && lo == 0 && hi == 3000
            ||| (cc == 86 || cc == 88) && lo == 0 && hi == 20_0000
            ||| cc == 89 && lo == 0 && hi == 5000_0000
            ||| cc == 74 && lo == 20_0000 && hi == 20000_0000
        }),
    ensures
        word_value(param_of(cc)->0, 0, t) == binary32_bits(lo),
        word_value(param_of(cc)->0, 127, t) == binary32_bits(hi),
{
    controller_covers_its_range(cc, 0, 127, t);
}

/// A continuous parameter is live as the preset holds it, but for the octave, whose pitch factor is
/// live, and the cutoff, whose place between 0 and 1 is.
pub proof fn live_is_what_the_preset_holds(cc: u8, v: u8, t: PowerTables)
    requires
        param_of(cc) is Some,
    ensures
        cc == 5 || cc == 16 || cc == 18 || cc == 19 || cc == 21 || cc == 22 || 24 <= cc <= 31 || cc
            == 71 || cc == 86 || cc == 88 || cc == 89 || 102 <= cc <= 110 ==> live_value(
            param_of(cc)->0,
            v,
            t,
        ) == word_value(param_of(cc)->0, v, t),
        cc == 17 || cc == 20 || cc == 23 ==> live_value(param_of(cc)->0, v, t)
            == t.octave_factor@[v as int],
        cc == 74 ==> word_value(param_of(cc)->0, v, t) == t.cutoff_hz@[v as int],
        cc == 74 && v > 0 ==> live_value(param_of(cc)->0, v, t) == ratio_bits(v as nat, 127),
{
    if v > 0 {
        unit_is_nearest(v as nat);
    }
}

/// Tables are accepted exactly if they rise over all values of a controller, the cutoff's from 20
/// to 20000 hertz and the octaves' from a quarter to four.
pub proof fn tables_rise_between_their_ends(t: PowerTables)
    ensures
        t.wf() <==> {
            &&& t.cutoff_hz@[0] == 0x41A0_0000
            &&& t.cutoff_hz@[127] == 0x469C_4000
            &&& t.octave_factor@[0] == 0x3E80_0000
            &&& t.octave_factor@[127] == 0x4080_0000
            &&& forall|i: int, j: int|
                0 <= i < j <= 127 ==> order_key(#[trigger] t.cutoff_hz@[i]) < order_key(
                    #[trigger] t.cutoff_hz@[j],
                )
            &&& forall|i: int, j: int|
                0 <= i < j <= 127 ==> order_key(#[trigger] t.octave_factor@[i]) < order_key(
                    #[trigger] t.octave_factor@[j],
                )
        },
{
    vstd::arithmetic::power2::lemma2_to64();
    decimal_bits(20_0000, 19, 0xA0_0000);
    decimal_bits(20000_0000, 9, 0x9C_4000);
    decimal_bits(2500, 25, 0x80_0000);
    decimal_bits(4_0000, 21, 0x80_0000);
}

} // verus!
