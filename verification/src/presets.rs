//! Presets: what one sound is made of, and its image in flash.
//!
//! Every level, time and frequency is held as the 32 bits of a single-precision number.

use crate::binary32::{binary32, binary32_bits, decimal_bits};
use crate::bytes::{
    bytes_of_their_word, le32, le32_bytes, push_le32, read_le32, word_of_its_bytes, words_bytes,
    words_bytes_injective,
};
use vstd::array::array_as_slice;
use vstd::prelude::*;
use vstd::slice::slice_subrange;
use vstd::utf8::{decode_utf8, encode_utf8, valid_utf8};

verus! {

/// The size of a preset's image.
pub const PRESET_SIZE: usize = 200;

/// The shape of an oscillator's wave.
#[derive(Clone, Copy, Debug, PartialEq, Eq, Structural)]
pub enum Waveform {
    Sine,
    Triangle,
    Saw,
    Square,
    WhiteNoise,
}

/// The shape of the modulation oscillator's wave.
#[derive(Clone, Copy, Debug, PartialEq, Eq, Structural)]
pub enum LfoWaveform {
    Sine,
    Triangle,
    Saw,
    Square,
}

#[derive(Clone, Copy, Debug, PartialEq, Eq)]
pub struct Preset {
    pub name: [u8; 32],
    pub osc1: OscSettings,
    pub osc2: OscSettings,
    pub osc3: OscSettings,
    pub noise_level: u32,
    pub portamento: u32,
    pub filter: FilterSettings,
    pub amp: EnvelopeSettings,
    pub lfo_enabled: u32,
    pub lfo: LfoSettings,
    pub delay: DelaySettings,
    pub reverb: ReverbSettings,
    pub _padding: [u8; 4],
}

#[derive(Clone, Copy, Debug, PartialEq, Eq, Structural)]
pub struct OscSettings {
    pub waveform: u32,
    pub level: u32,
    pub octave: u32,
    pub detune: u32,
    pub enable_vibrato: u32,
}

#[derive(Clone, Copy, Debug, PartialEq, Eq, Structural)]
pub struct FilterSettings {
    pub cutoff: u32,
    pub resonance: u32,
    pub env_amount: u32,
    pub attack: u32,
    pub decay: u32,
    pub sustain: u32,
    pub release: u32,
}

#[derive(Clone, Copy, Debug, PartialEq, Eq, Structural)]
pub struct EnvelopeSettings {
    pub attack: u32,
    pub decay: u32,
    pub sustain: u32,
    pub release: u32,
}

#[derive(Clone, Copy, Debug, PartialEq, Eq, Structural)]
pub struct LfoSettings {
    pub frequency: u32,
    pub waveform: u32,
    pub vibrato_amount: u32,
    pub filter_amount: u32,
}

#[derive(Clone, Copy, Debug, PartialEq, Eq, Structural)]
pub struct DelaySettings {
    pub time: u32,
    pub feedback: u32,
    pub mix: u32,
    pub enabled: u32,
}

#[derive(Clone, Copy, Debug, PartialEq, Eq, Structural)]
pub struct ReverbSettings {
    pub size: u32,
    pub damping: u32,
    pub mix: u32,
    pub enabled: u32,
}

/// The places of a preset's numbers among its words.
pub const WORD_OSC1_WAVEFORM: usize = 0;

pub const WORD_OSC1_LEVEL: usize = 1;

pub const WORD_OSC1_OCTAVE: usize = 2;

pub const WORD_OSC1_DETUNE: usize = 3;

pub const WORD_OSC1_VIBRATO: usize = 4;

pub const WORD_OSC2_WAVEFORM: usize = 5;

pub const WORD_OSC2_LEVEL: usize = 6;

pub const WORD_OSC2_OCTAVE: usize = 7;

pub const WORD_OSC2_DETUNE: usize = 8;

pub const WORD_OSC2_VIBRATO: usize = 9;

pub const WORD_OSC3_WAVEFORM: usize = 10;

pub const WORD_OSC3_LEVEL: usize = 11;

pub const WORD_OSC3_OCTAVE: usize = 12;

pub const WORD_OSC3_DETUNE: usize = 13;

pub const WORD_OSC3_VIBRATO: usize = 14;

pub const WORD_NOISE: usize = 15;

pub const WORD_PORTAMENTO: usize = 16;

pub const WORD_FILTER_CUTOFF: usize = 17;

pub const WORD_FILTER_RESONANCE: usize = 18;

pub const WORD_FILTER_ENV_AMOUNT: usize = 19;

pub const WORD_FILTER_ATTACK: usize = 20;

pub const WORD_FILTER_DECAY: usize = 21;

pub const WORD_FILTER_SUSTAIN: usize = 22;

pub const WORD_FILTER_RELEASE: usize = 23;

pub const WORD_AMP_ATTACK: usize = 24;

pub const WORD_AMP_DECAY: usize = 25;

pub const WORD_AMP_SUSTAIN: usize = 26;

pub const WORD_AMP_RELEASE: usize = 27;

pub const WORD_LFO_ENABLED: usize = 28;

pub const WORD_LFO_FREQUENCY: usize = 29;

pub const WORD_LFO_WAVEFORM: usize = 30;

pub const WORD_LFO_VIBRATO_AMOUNT: usize = 31;

pub const WORD_LFO_FILTER_AMOUNT: usize = 32;

pub const WORD_DELAY_TIME: usize = 33;

pub const WORD_DELAY_FEEDBACK: usize = 34;

pub const WORD_DELAY_MIX: usize = 35;

pub const WORD_DELAY_ENABLED: usize = 36;

pub const WORD_REVERB_SIZE: usize = 37;

pub const WORD_REVERB_DAMPING: usize = 38;

pub const WORD_REVERB_MIX: usize = 39;

pub const WORD_REVERB_ENABLED: usize = 40;

/// The numbers of a preset in the order in which its image holds them.
pub open spec fn preset_words(p: Preset) -> Seq<u32> {
    osc_words(p.osc1) + osc_words(p.osc2) + osc_words(p.osc3) + seq![p.noise_level, p.portamento]
        + seq![
        p.filter.cutoff,
        p.filter.resonance,
        p.filter.env_amount,
        p.filter.attack,
        p.filter.decay,
        p.filter.sustain,
        p.filter.release,
    ] + seq![p.amp.attack, p.amp.decay, p.amp.sustain, p.amp.release] + seq![p.lfo_enabled] + seq![
        p.lfo.frequency,
        p.lfo.waveform,
        p.lfo.vibrato_amount,
        p.lfo.filter_amount,
    ] + seq![p.delay.time, p.delay.feedback, p.delay.mix, p.delay.enabled] + seq![
        p.reverb.size,
        p.reverb.damping,
        p.reverb.mix,
        p.reverb.enabled,
    ]
}

pub open spec fn osc_words(o: OscSettings) -> Seq<u32> {
    seq![o.waveform, o.level, o.octave, o.detune, o.enable_vibrato]
}

/// A preset's image: its name, its numbers and the padding.
pub open spec fn preset_bytes(p: Preset) -> Seq<u8> {
    p.name@ + words_bytes(preset_words(p)) + p._padding@
}

/// The bytes of `name` in front of its first zero.
pub open spec fn name_text(name: Seq<u8>) -> Seq<u8>
    decreases name.len(),
{
    if name.len() == 0 || name[0] == 0 {
        Seq::empty()
    } else {
        seq![name[0]] + name_text(name.skip(1))
    }
}

/// A name field as text.
pub open spec fn shown_name(name: Seq<u8>) -> Seq<char> {
    if valid_utf8(name_text(name)) {
        decode_utf8(name_text(name))
    } else {
        "Invalid"@
    }
}

/// `text`, cut to 32 bytes or filled up with zeros.
pub open spec fn padded_name(text: Seq<u8>) -> Seq<u8> {
    Seq::new(
        32,
        |i: int|
            if i < text.len() {
                text[i]
            } else {
                0
            },
    )
}

/// The number that stands for a shape in a preset's image.
pub open spec fn waveform_code(wf: Waveform) -> u32 {
    match wf {
        Waveform::Sine => 0,
        Waveform::Triangle => 1,
        Waveform::Saw => 2,
        Waveform::Square => 3,
        Waveform::WhiteNoise => 4,
    }
}

/// The number that stands for a modulation shape in a preset's image.
pub open spec fn lfo_waveform_code(wf: LfoWaveform) -> u32 {
    match wf {
        LfoWaveform::Sine => 0,
        LfoWaveform::Triangle => 1,
        LfoWaveform::Saw => 2,
        LfoWaveform::Square => 3,
    }
}

pub open spec fn flag(on: bool) -> u32 {
    if on {
        1
    } else {
        0
    }
}

/// `core::str::from_utf8`, with the error dropped: the text whose UTF-8 bytes `bytes` are, if
/// they are well-formed UTF-8.
#[verifier::external_body]
fn utf8_text(bytes: &[u8]) -> (text: Option<&str>)
    ensures
        text is Some <==> valid_utf8(bytes@),
        text matches Some(t) ==> t@ == decode_utf8(bytes@),
{
    core::str::from_utf8(bytes).ok()
}

impl Preset {
    /// The preset's name, without the zeros that fill it up; `"Invalid"` where it is not text.
    pub fn get_name(&self) -> (name: &str)
        ensures
            name@ == if valid_utf8(name_text(self.name@)) {
                decode_utf8(name_text(self.name@))
            } else {
                "Invalid"@
            },
            name@ == shown_name(self.name@),
    {
        let mut len: usize = 0;
        assert(self.name@.take(0) + name_text(self.name@.skip(0)) =~= name_text(self.name@)) by {
            assert(self.name@.skip(0) =~= self.name@);
        }
        while len < 32 && self.name[len] != 0
            invariant
                len <= 32,
                name_text(self.name@) == self.name@.take(len as int) + name_text(
                    self.name@.skip(len as int),
                ),
            decreases 32 - len,
        {
            proof {
                let rest = self.name@.skip(len as int);
                assert(rest.skip(1) =~= self.name@.skip(len + 1));
                assert(self.name@.take(len as int) + (seq![rest[0]] + name_text(rest.skip(1)))
                    =~= self.name@.take(len + 1) + name_text(rest.skip(1)));
            }
            len += 1;
        }
        let bytes = slice_subrange(array_as_slice(&self.name), 0, len);
        assert(name_text(self.name@) =~= bytes@);
        match utf8_text(bytes) {
            Some(text) => text,
            None => "Invalid",
        }
    }

    /// The preset's numbers in the order in which its image holds them.
    fn to_words(&self) -> (words: [u32; 41])
        ensures
            words@ == preset_words(*self),
    {
        let words: [u32; 41] = [
            self.osc1.waveform,
            self.osc1.level,
            self.osc1.octave,
            self.osc1.detune,
            self.osc1.enable_vibrato,
            self.osc2.waveform,
            self.osc2.level,
            self.osc2.octave,
            self.osc2.detune,
            self.osc2.enable_vibrato,
            self.osc3.waveform,
            self.osc3.level,
            self.osc3.octave,
            self.osc3.detune,
            self.osc3.enable_vibrato,
            self.noise_level,
            self.portamento,
            self.filter.cutoff,
            self.filter.resonance,
            self.filter.env_amount,
            self.filter.attack,
            self.filter.decay,
            self.filter.sustain,
            self.filter.release,
            self.amp.attack,
            self.amp.decay,
            self.amp.sustain,
            self.amp.release,
            self.lfo_enabled,
            self.lfo.frequency,
            self.lfo.waveform,
            self.lfo.vibrato_amount,
            self.lfo.filter_amount,
            self.delay.time,
            self.delay.feedback,
            self.delay.mix,
            self.delay.enabled,
            self.reverb.size,
            self.reverb.damping,
            self.reverb.mix,
            self.reverb.enabled,
        ];
        assert(words@ =~= preset_words(*self));
        words
    }

    /// Replaces one of the preset's numbers.
    pub fn set_word(&mut self, word: usize, value: u32)
        requires
            word < 41,
        ensures
            preset_words(*final(self)) == preset_words(*old(self)).update(word as int, value),
            final(self).name == old(self).name,
            final(self)._padding == old(self)._padding,
    {
        let mut words = self.to_words();
        words[word] = value;
        *self = Self::from_words(self.name, &words, self._padding);
    }

    /// Appends the preset's image to `out`.
    pub fn encode(&self, out: &mut Vec<u8>)
        ensures
            final(out)@ == old(out)@ + preset_bytes(*self),
    {
        let words = self.to_words();
        let mut i: usize = 0;
        while i < 32
            invariant
                i <= 32,
                out@ == old(out)@ + self.name@.take(i as int),
            decreases 32 - i,
        {
            out.push(self.name[i]);
            i += 1;
        }
        let ghost named = old(out)@ + self.name@;
        assert(out@ =~= named);
        let mut w: usize = 0;
        while w < 41
            invariant
                w <= 41,
                words@ == preset_words(*self),
                words@.len() == 41,
                out@ == named + words_bytes(words@.take(w as int)),
            decreases 41 - w,
        {
            push_le32(out, words[w]);
            assert(words_bytes(words@.take(w + 1)) =~= words_bytes(words@.take(w as int))
                + le32_bytes(words@[w as int]));
            w += 1;
        }
        assert(words@.take(41) =~= words@);
        let ghost body = out@;
        let mut k: usize = 0;
        while k < 4
            invariant
                k <= 4,
                out@ == body + self._padding@.take(k as int),
            decreases 4 - k,
        {
            out.push(self._padding[k]);
            k += 1;
        }
        assert(out@ =~= old(out)@ + preset_bytes(*self));
    }

    /// The preset whose image is the front of `bytes`.
    pub fn decode(bytes: &[u8]) -> (preset: Preset)
        requires
            bytes@.len() >= PRESET_SIZE,
        ensures
            preset_bytes(preset) == bytes@.take(PRESET_SIZE as int),
    {
        let mut name: [u8; 32] = [0; 32];
        let mut i: usize = 0;
        while i < 32
            invariant
                i <= 32,
                bytes@.len() >= PRESET_SIZE,
                forall|j: int| 0 <= j < i ==> name@[j] == bytes@[j],
            decreases 32 - i,
        {
            name[i] = bytes[i];
            i += 1;
        }
        let mut words: [u32; 41] = [0; 41];
        let mut w: usize = 0;
        while w < 41
            invariant
                w <= 41,
                bytes@.len() >= PRESET_SIZE,
                forall|k: int| 0 <= k < w ==> words@[k] == le32(bytes@, 32 + 4 * k),
            decreases 41 - w,
        {
            words[w] = read_le32(bytes, 32 + 4 * w);
            w += 1;
        }
        let preset = Self::from_words(
            name,
            &words,
            [bytes[196], bytes[197], bytes[198], bytes[199]],
        );
        proof {
            assert forall|k: int| 0 <= k < 41 implies le32_bytes(words@[k]) == bytes@.subrange(
                32 + 4 * k,
                36 + 4 * k,
            ) by {
                bytes_of_their_word(bytes@, 32 + 4 * k);
            }
            assert forall|i: int| 0 <= i < 164 implies words_bytes(words@)[i] == bytes@[32 + i] by {
                assert(le32_bytes(words@[i / 4])[i % 4] == bytes@.subrange(
                    32 + 4 * (i / 4),
                    36 + 4 * (i / 4),
                )[i % 4]);
            }
            assert(preset_bytes(preset) =~= bytes@.take(PRESET_SIZE as int));
        }
        preset
    }

    /// The preset with the given name, numbers and padding.
    fn from_words(name: [u8; 32], words: &[u32; 41], padding: [u8; 4]) -> (preset: Preset)
        ensures
            preset.name == name,
            preset_words(preset) == words@,
            preset._padding == padding,
    {
        let preset = Preset {
            name,
            osc1: OscSettings {
                waveform: words[0],
                level: words[1],
                octave: words[2],
                detune: words[3],
                enable_vibrato: words[4],
            },
            osc2: OscSettings {
                waveform: words[5],
                level: words[6],
                octave: words[7],
                detune: words[8],
                enable_vibrato: words[9],
            },
            osc3: OscSettings {
                waveform: words[10],
                level: words[11],
                octave: words[12],
                detune: words[13],
                enable_vibrato: words[14],
            },
            noise_level: words[15],
            portamento: words[16],
            filter: FilterSettings {
                cutoff: words[17],
                resonance: words[18],
                env_amount: words[19],
                attack: words[20],
                decay: words[21],
                sustain: words[22],
                release: words[23],
            },
            amp: EnvelopeSettings {
                attack: words[24],
                decay: words[25],
                sustain: words[26],
                release: words[27],
            },
            lfo_enabled: words[28],
            lfo: LfoSettings {
                frequency: words[29],
                waveform: words[30],
                vibrato_amount: words[31],
                filter_amount: words[32],
            },
            delay: DelaySettings {
                time: words[33],
                feedback: words[34],
                mix: words[35],
                enabled: words[36],
            },
            reverb: ReverbSettings {
                size: words[37],
                damping: words[38],
                mix: words[39],
                enabled: words[40],
            },
            _padding: padding,
        };
        assert(preset_words(preset) =~= words@);
        preset
    }
}

impl OscSettings {
    /// The oscillator's shape; a number that stands for none is taken as a saw.
    pub fn get_waveform(&self) -> (wf: Waveform)
        ensures
            self.waveform <= 4 ==> waveform_code(wf) == self.waveform,
            self.waveform > 4 ==> wf == Waveform::Saw,
    {
        match self.waveform {
            0 => Waveform::Sine,
            1 => Waveform::Triangle,
            2 => Waveform::Saw,
            3 => Waveform::Square,
            4 => Waveform::WhiteNoise,
            _ => Waveform::Saw,
        }
    }

    pub fn is_vibrato_enabled(&self) -> (on: bool)
        ensures
            on == (self.enable_vibrato != 0),
    {
        self.enable_vibrato != 0
    }
}

impl LfoSettings {
    /// The modulation shape; a number that stands for none is taken as a sine.
    pub fn get_waveform(&self) -> (wf: LfoWaveform)
        ensures
            self.waveform <= 3 ==> lfo_waveform_code(wf) == self.waveform,
            self.waveform > 3 ==> wf == LfoWaveform::Sine,
    {
        match self.waveform {
            0 => LfoWaveform::Sine,
            1 => LfoWaveform::Triangle,
            2 => LfoWaveform::Saw,
            3 => LfoWaveform::Square,
            _ => LfoWaveform::Sine,
        }
    }
}

/// `s` as the name field of a preset: its first 32 bytes, filled up with zeros.
pub fn make_name(s: &str) -> (name: [u8; 32])
    ensures
        name@ == padded_name(encode_utf8(s@)),
{
    let mut name: [u8; 32] = [0; 32];
    let bytes = s.as_bytes();
    let len: usize = if bytes.len() < 32 {
        bytes.len()
    } else {
        32
    };
    let mut i: usize = 0;
    while i < len
        invariant
            i <= len <= 32,
            len <= bytes@.len(),
            forall|j: int| 0 <= j < i ==> name@[j] == bytes@[j],
            forall|j: int| i <= j < 32 ==> name@[j] == 0,
        decreases len - i,
    {
        name[i] = bytes[i];
        i += 1;
    }
    assert(name@ =~= padded_name(encode_utf8(s@)));
    name
}

/// Different presets have different images.
pub proof fn preset_bytes_injective(a: Preset, b: Preset)
    requires
        preset_bytes(a) == preset_bytes(b),
    ensures
        a == b,
{
    let wa = words_bytes(preset_words(a));
    let wb = words_bytes(preset_words(b));
    assert(preset_words(a).len() == 41 && preset_words(b).len() == 41);
    assert(a.name@ =~= preset_bytes(a).subrange(0, 32));
    assert(b.name@ =~= preset_bytes(b).subrange(0, 32));
    assert(a.name =~= b.name);
    assert(wa =~= preset_bytes(a).subrange(32, 196));
    assert(wb =~= preset_bytes(b).subrange(32, 196));
    assert(a._padding@ =~= preset_bytes(a).subrange(196, 200));
    assert(b._padding@ =~= preset_bytes(b).subrange(196, 200));
    assert(a._padding =~= b._padding);
    words_bytes_injective(preset_words(a), preset_words(b));
    let u = preset_words(a);
    let v = preset_words(b);
    assert(forall|i: int| 0 <= i < 41 ==> u[i] == v[i]);
    assert(u[0] == v[0] && u[1] == v[1] && u[2] == v[2] && u[3] == v[3] && u[4] == v[4]);
    assert(a.osc1 == b.osc1);
    assert(u[5] == v[5] && u[6] == v[6] && u[7] == v[7] && u[8] == v[8] && u[9] == v[9]);
    assert(a.osc2 == b.osc2);
    assert(u[10] == v[10] && u[11] == v[11] && u[12] == v[12] && u[13] == v[13] && u[14] == v[14]);
    assert(a.osc3 == b.osc3);
    assert(u[15] == v[15] && u[16] == v[16] && u[17] == v[17] && u[18] == v[18] && u[19] == v[19]);
    assert(u[20] == v[20] && u[21] == v[21] && u[22] == v[22] && u[23] == v[23]);
    assert(a.filter == b.filter);
    assert(u[24] == v[24] && u[25] == v[25] && u[26] == v[26] && u[27] == v[27] && u[28] == v[28]);
    assert(a.amp == b.amp);
    assert(u[29] == v[29] && u[30] == v[30] && u[31] == v[31] && u[32] == v[32]);
    assert(a.lfo == b.lfo);
    assert(u[33] == v[33] && u[34] == v[34] && u[35] == v[35] && u[36] == v[36]);
    assert(a.delay == b.delay);
    assert(u[37] == v[37] && u[38] == v[38] && u[39] == v[39] && u[40] == v[40]);
    assert(a.reverb == b.reverb);
}

/// A name that fits and holds no zero is read back as it was written.
pub proof fn name_round_trip(text: Seq<char>)
    requires
        encode_utf8(text).len() <= 32,
        !encode_utf8(text).contains(0),
    ensures
        ({
            let stored = name_text(padded_name(encode_utf8(text)));
            valid_utf8(stored) && decode_utf8(stored) == text
        }),
        shown_name(padded_name(encode_utf8(text))) == text,
{
    let bytes = encode_utf8(text);
    let name = padded_name(bytes);
    assert(name =~= bytes + Seq::new((32 - bytes.len()) as nat, |i: int| 0u8));
    text_before_zeros(bytes, (32 - bytes.len()) as nat);
    vstd::utf8::encode_utf8_valid_utf8(text);
    vstd::utf8::encode_utf8_decode_utf8(text);
}

proof fn text_before_zeros(bytes: Seq<u8>, zeros: nat)
    requires
        !bytes.contains(0),
    ensures
        name_text(bytes + Seq::new(zeros, |i: int| 0u8)) == bytes,
    decreases bytes.len(),
{
    let name = bytes + Seq::new(zeros, |i: int| 0u8);
    if bytes.len() == 0 {
        assert(name_text(name) =~= bytes);
    } else {
        assert(bytes.contains(bytes[0]));
        let rest = bytes.skip(1);
        assert forall|b: u8| rest.contains(b) implies bytes.contains(b) by {
            let i = choose|i: int| 0 <= i < rest.len() && rest[i] == b;
            assert(bytes[i + 1] == b);
        }
        text_before_zeros(rest, zeros);
        assert(name.skip(1) =~= rest + Seq::new(zeros, |i: int| 0u8));
        assert(name_text(name) =~= bytes);
    }
}

/// An oscillator's settings, its numbers given as bits.
pub fn osc(wf: Waveform, level: u32, octave: u32, detune: u32, vib: bool) -> (o: OscSettings)
    ensures
        o == (OscSettings {
            waveform: waveform_code(wf),
            level,
            octave,
            detune,
            enable_vibrato: flag(vib),
        }),
{
    OscSettings {
        waveform: match wf {
            Waveform::Sine => 0,
            Waveform::Triangle => 1,
            Waveform::Saw => 2,
            Waveform::Square => 3,
            Waveform::WhiteNoise => 4,
        },
        level,
        octave,
        detune,
        enable_vibrato: if vib {
            1
        } else {
            0
        },
    }
}

/// The modulation oscillator's settings, its numbers given as bits.
pub fn lfo(freq: u32, wf: LfoWaveform, vib: u32, filt: u32) -> (l: LfoSettings)
    ensures
        l == (LfoSettings {
            frequency: freq,
            waveform: lfo_waveform_code(wf),
            vibrato_amount: vib,
            filter_amount: filt,
        }),
{
    LfoSettings {
        frequency: freq,
        waveform: match wf {
            LfoWaveform::Sine => 0,
            LfoWaveform::Triangle => 1,
            LfoWaveform::Saw => 2,
            LfoWaveform::Square => 3,
        },
        vibrato_amount: vib,
        filter_amount: filt,
    }
}

/// The delay's settings, its numbers given as bits.
pub fn delay_set(time: u32, feedback: u32, mix: u32, enabled: bool) -> (d: DelaySettings)
    ensures
        d == (DelaySettings { time, feedback, mix, enabled: flag(enabled) }),
{
    DelaySettings {
        time,
        feedback,
        mix,
        enabled: if enabled {
            1
        } else {
            0
        },
    }
}

/// The reverb's settings, its numbers given as bits.
pub fn reverb_set(size: u32, damping: u32, mix: u32, enabled: bool) -> (r: ReverbSettings)
    ensures
        r == (ReverbSettings { size, damping, mix, enabled: flag(enabled) }),
{
    ReverbSettings {
        size,
        damping,
        mix,
        enabled: if enabled {
            1
        } else {
            0
        },
    }
}

/// The filter's settings, given as bits.
pub fn filt(
    cutoff: u32,
    resonance: u32,
    env_amount: u32,
    attack: u32,
    decay: u32,
    sustain: u32,
    release: u32,
) -> (f: FilterSettings)
    ensures
        f == (FilterSettings { cutoff, resonance, env_amount, attack, decay, sustain, release }),
{
    FilterSettings { cutoff, resonance, env_amount, attack, decay, sustain, release }
}

/// The amplitude envelope, given as bits.
pub fn env(attack: u32, decay: u32, sustain: u32, release: u32) -> (e: EnvelopeSettings)
    ensures
        e == (EnvelopeSettings { attack, decay, sustain, release }),
{
    EnvelopeSettings { attack, decay, sustain, release }
}

/// One sound as it is written down: its numbers in ten-thousandths. An oscillator is its shape,
/// level, octave, detuning and vibrato; the filter is its cutoff, resonance, envelope amount and
/// envelope; the modulation is its frequency, shape, vibrato and filter amounts.
pub type Row = (
    &'static str,
    [(Waveform, i32, i32, i32, bool); 3],
    (i32, i32),
    [i32; 7],
    [i32; 4],
    (bool, i32, LfoWaveform, i32, i32),
    (i32, i32, i32, bool),
    (i32, i32, i32, bool),
);

/// The settings of one written-down oscillator.
pub open spec fn osc_of(o: (Waveform, i32, i32, i32, bool)) -> OscSettings {
    OscSettings {
        waveform: waveform_code(o.0),
        level: binary32_bits(o.1 as int),
        octave: binary32_bits(o.2 as int),
        detune: binary32_bits(o.3 as int),
        enable_vibrato: flag(o.4),
    }
}

/// `p` is the preset that `row` writes down.
pub open spec fn is_row(p: Preset, row: Row) -> bool {
    &&& p.name@ == padded_name(encode_utf8(row.0@))
    &&& p.osc1 == osc_of(row.1@[0])
    &&& p.osc2 == osc_of(row.1@[1])
    &&& p.osc3 == osc_of(row.1@[2])
    &&& p.noise_level == binary32_bits(row.2.0 as int)
    &&& p.portamento == binary32_bits(row.2.1 as int)
    &&& p.filter == (FilterSettings {
        cutoff: binary32_bits(row.3@[0] as int),
        resonance: binary32_bits(row.3@[1] as int),
        env_amount: binary32_bits(row.3@[2] as int),
        attack: binary32_bits(row.3@[3] as int),
        decay: binary32_bits(row.3@[4] as int),
        sustain: binary32_bits(row.3@[5] as int),
        release: binary32_bits(row.3@[6] as int),
    })
    &&& p.amp == (EnvelopeSettings {
        attack: binary32_bits(row.4@[0] as int),
        decay: binary32_bits(row.4@[1] as int),
        sustain: binary32_bits(row.4@[2] as int),
        release: binary32_bits(row.4@[3] as int),
    })
    &&& p.lfo_enabled == flag(row.5.0)
    &&& p.lfo == (LfoSettings {
        frequency: binary32_bits(row.5.1 as int),
        waveform: lfo_waveform_code(row.5.2),
        vibrato_amount: binary32_bits(row.5.3 as int),
        filter_amount: binary32_bits(row.5.4 as int),
    })
    &&& p.delay == (DelaySettings {
        time: binary32_bits(row.6.0 as int),
        feedback: binary32_bits(row.6.1 as int),
        mix: binary32_bits(row.6.2 as int),
        enabled: flag(row.6.3),
    })
    &&& p.reverb == (ReverbSettings {
        size: binary32_bits(row.7.0 as int),
        damping: binary32_bits(row.7.1 as int),
        mix: binary32_bits(row.7.2 as int),
        enabled: flag(row.7.3),
    })
    &&& p._padding@ == seq![0u8, 0u8, 0u8, 0u8]
}

fn osc_from_row(o: (Waveform, i32, i32, i32, bool)) -> (settings: OscSettings)
    ensures
        settings == osc_of(o),
{
    osc(o.0, binary32(o.1), binary32(o.2), binary32(o.3), o.4)
}

/// The preset that `row` writes down.
pub fn preset_from_row(row: &Row) -> (p: Preset)
    ensures
        is_row(p, *row),
{
    let f = &row.3;
    let a = &row.4;
    let p = Preset {
        name: make_name(row.0),
        osc1: osc_from_row(row.1[0]),
        osc2: osc_from_row(row.1[1]),
        osc3: osc_from_row(row.1[2]),
        noise_level: binary32(row.2.0),
        portamento: binary32(row.2.1),
        filter: filt(
            binary32(f[0]),
            binary32(f[1]),
            binary32(f[2]),
            binary32(f[3]),
            binary32(f[4]),
            binary32(f[5]),
            binary32(f[6]),
        ),
        amp: env(binary32(a[0]), binary32(a[1]), binary32(a[2]), binary32(a[3])),
        lfo_enabled: if row.5.0 {
            1
        } else {
            0
        },
        lfo: lfo(binary32(row.5.1), row.5.2, binary32(row.5.3), binary32(row.5.4)),
        delay: delay_set(binary32(row.6.0), binary32(row.6.1), binary32(row.6.2), row.6.3),
        reverb: reverb_set(binary32(row.7.0), binary32(row.7.1), binary32(row.7.2), row.7.3),
        _padding: [0; 4],
    };
    assert(p._padding@ =~= seq![0u8, 0u8, 0u8, 0u8]);
    p
}

/// A single saw with the filter open and every effect off.
pub const INIT_PATCH: Row = (
    "Init Patch",
    [
        (Waveform::Saw, 1_0000, 0, 0, true),
        (Waveform::Saw, 0, 0, 0, true),
        (Waveform::Saw, 0, 0, 0, true),
    ],
    (0, 0),
    [20000_0000, 0, 0, 0, 0, 1_0000, 0],
    [100, 1000, 1_0000, 1000],
    (false, 1_0000, LfoWaveform::Sine, 0, 0),
    (2500, 3000, 3000, false),
    (5000, 5000, 1000, false),
);

impl Default for Preset {
    fn default() -> (p: Self)
        ensures
            is_row(p, INIT_PATCH),
    {
        let row: Row = INIT_PATCH;
        preset_from_row(&row)
    }
}

/// Where each number stands in a preset's image of 200 bytes: behind the 32 bytes of the name, four
/// bytes each, least significant first; the last four bytes are padding.
pub proof fn image_has_its_layout(p: Preset)
    ensures
        preset_bytes(p).len() == 200,
        preset_bytes(p).take(32) == p.name@,
        le32(preset_bytes(p), 32) == p.osc1.waveform,
        le32(preset_bytes(p), 36) == p.osc1.level,
        le32(preset_bytes(p), 40) == p.osc1.octave,
        le32(preset_bytes(p), 44) == p.osc1.detune,
        le32(preset_bytes(p), 48) == p.osc1.enable_vibrato,
        le32(preset_bytes(p), 52) == p.osc2.waveform,
        le32(preset_bytes(p), 56) == p.osc2.level,
        le32(preset_bytes(p), 60) == p.osc2.octave,
        le32(preset_bytes(p), 64) == p.osc2.detune,
        le32(preset_bytes(p), 68) == p.osc2.enable_vibrato,
        le32(preset_bytes(p), 72) == p.osc3.waveform,
        le32(preset_bytes(p), 76) == p.osc3.level,
        le32(preset_bytes(p), 80) == p.osc3.octave,
        le32(preset_bytes(p), 84) == p.osc3.detune,
        le32(preset_bytes(p), 88) == p.osc3.enable_vibrato,
        le32(preset_bytes(p), 92) == p.noise_level,
        le32(preset_bytes(p), 96) == p.portamento,
        le32(preset_bytes(p), 100) == p.filter.cutoff,
        le32(preset_bytes(p), 104) == p.filter.resonance,
        le32(preset_bytes(p), 108) == p.filter.env_amount,
        le32(preset_bytes(p), 112) == p.filter.attack,
        le32(preset_bytes(p), 116) == p.filter.decay,
        le32(preset_bytes(p), 120) == p.filter.sustain,
        le32(preset_bytes(p), 124) == p.filter.release,
        le32(preset_bytes(p), 128) == p.amp.attack,
        le32(preset_bytes(p), 132) == p.amp.decay,
        le32(preset_bytes(p), 136) == p.amp.sustain,
        le32(preset_bytes(p), 140) == p.amp.release,
        le32(preset_bytes(p), 144) == p.lfo_enabled,
        le32(preset_bytes(p), 148) == p.lfo.frequency,
        le32(preset_bytes(p), 152) == p.lfo.waveform,
        le32(preset_bytes(p), 156) == p.lfo.vibrato_amount,
        le32(preset_bytes(p), 160) == p.lfo.filter_amount,
        le32(preset_bytes(p), 164) == p.delay.time,
        le32(preset_bytes(p), 168) == p.delay.feedback,
        le32(preset_bytes(p), 172) == p.delay.mix,
        le32(preset_bytes(p), 176) == p.delay.enabled,
        le32(preset_bytes(p), 180) == p.reverb.size,
        le32(preset_bytes(p), 184) == p.reverb.damping,
        le32(preset_bytes(p), 188) == p.reverb.mix,
        le32(preset_bytes(p), 192) == p.reverb.enabled,
        preset_bytes(p).skip(196) == p._padding@,
{
    let b = preset_bytes(p);
    let words = preset_words(p);
    assert(b.take(32) =~= p.name@);
    assert(b.skip(196) =~= p._padding@);
    assert forall|k: int| 0 <= k < 41 implies le32(b, 32 + 4 * k) == #[trigger] words[k] by {
        assert forall|j: int| 0 <= j < 4 implies #[trigger] b[32 + 4 * k + j] == le32_bytes(
            words[k],
        )[j] by {
            let i = 4 * k + j;
            assert(i / 4 == k && i % 4 == j);
            assert(b[32 + i] == words_bytes(words)[i]);
        }
        assert(b[32 + 4 * k + 0] == le32_bytes(words[k])[0]);
        assert(b[32 + 4 * k + 1] == le32_bytes(words[k])[1]);
        assert(b[32 + 4 * k + 2] == le32_bytes(words[k])[2]);
        assert(b[32 + 4 * k + 3] == le32_bytes(words[k])[3]);
        word_of_its_bytes(words[k]);
    }
    assert(words[0] == p.osc1.waveform);
    assert(words[1] == p.osc1.level);
    assert(words[2] == p.osc1.octave);
    assert(words[3] == p.osc1.detune);
    assert(words[4] == p.osc1.enable_vibrato);
    assert(words[5] == p.osc2.waveform);
    assert(words[6] == p.osc2.level);
    assert(words[7] == p.osc2.octave);
    assert(words[8] == p.osc2.detune);
    assert(words[9] == p.osc2.enable_vibrato);
    assert(words[10] == p.osc3.waveform);
    assert(words[11] == p.osc3.level);
    assert(words[12] == p.osc3.octave);
    assert(words[13] == p.osc3.detune);
    assert(words[14] == p.osc3.enable_vibrato);
    assert(words[15] == p.noise_level);
    assert(words[16] == p.portamento);
    assert(words[17] == p.filter.cutoff);
    assert(words[18] == p.filter.resonance);
    assert(words[19] == p.filter.env_amount);
    assert(words[20] == p.filter.attack);
    assert(words[21] == p.filter.decay);
    assert(words[22] == p.filter.sustain);
    assert(words[23] == p.filter.release);
    assert(words[24] == p.amp.attack);
    assert(words[25] == p.amp.decay);
    assert(words[26] == p.amp.sustain);
    assert(words[27] == p.amp.release);
    assert(words[28] == p.lfo_enabled);
    assert(words[29] == p.lfo.frequency);
    assert(words[30] == p.lfo.waveform);
    assert(words[31] == p.lfo.vibrato_amount);
    assert(words[32] == p.lfo.filter_amount);
    assert(words[33] == p.delay.time);
    assert(words[34] == p.delay.feedback);
    assert(words[35] == p.delay.mix);
    assert(words[36] == p.delay.enabled);
    assert(words[37] == p.reverb.size);
    assert(words[38] == p.reverb.damping);
    assert(words[39] == p.reverb.mix);
    assert(words[40] == p.reverb.enabled);
}

/// The text of a name is its longest front without a zero.
pub proof fn name_ends_at_a_zero(name: Seq<u8>)
    ensures
        name_text(name).len() <= name.len(),
        name_text(name) == name.take(name_text(name).len() as int),
        forall|i: int| 0 <= i < name_text(name).len() ==> #[trigger] name[i] != 0,
        name_text(name).len() < name.len() ==> name[name_text(name).len() as int] == 0,
    decreases name.len(),
{
    if name.len() > 0 && name[0] != 0 {
        let rest = name.skip(1);
        name_ends_at_a_zero(rest);
        let text = name_text(name);
        assert(text.len() == 1 + name_text(rest).len());
        assert(text =~= name.take(text.len() as int));
        assert forall|i: int| 0 <= i < text.len() implies #[trigger] name[i] != 0 by {
            if i > 0 {
                assert(rest[i - 1] == name[i]);
            }
        }
        if text.len() < name.len() {
            assert(rest[name_text(rest).len() as int] == name[text.len() as int]);
        }
    } else {
        assert(name_text(name) =~= name.take(0));
    }
}

/// A name field is always 32 bytes: the front of the text, and zeros where it is shorter.
pub proof fn name_fills_its_field(text: Seq<u8>)
    ensures
        padded_name(text).len() == 32,
        forall|i: int|
            0 <= i < 32 && i < text.len() ==> #[trigger] padded_name(text)[i] == text[i],
        forall|i: int| 0 <= i < 32 && i >= text.len() ==> #[trigger] padded_name(text)[i] == 0,
{
}

/// The numbers of the shapes are those from 0 on, in the order sine, triangle, saw, square and, for
/// an oscillator, noise.
pub proof fn shapes_have_their_numbers()
    ensures
        waveform_code(Waveform::Sine) == 0 && waveform_code(Waveform::Triangle) == 1,
        waveform_code(Waveform::Saw) == 2 && waveform_code(Waveform::Square) == 3,
        waveform_code(Waveform::WhiteNoise) == 4,
        lfo_waveform_code(LfoWaveform::Sine) == 0 && lfo_waveform_code(LfoWaveform::Triangle) == 1,
        lfo_waveform_code(LfoWaveform::Saw) == 2 && lfo_waveform_code(LfoWaveform::Square) == 3,
        flag(false) == 0 && flag(true) == 1,
{
}

/// A name field is shown as the text whose bytes its front is, or as "Invalid" if there is none.
pub proof fn names_are_shown(name: Seq<u8>, text: Seq<char>)
    ensures
        name_text(name) == encode_utf8(text) ==> shown_name(name) == text,
        (forall|t: Seq<char>| #[trigger] encode_utf8(t) != name_text(name)) ==> shown_name(name)
            == "Invalid"@,
{
    if name_text(name) == encode_utf8(text) {
        vstd::utf8::encode_utf8_valid_utf8(text);
        vstd::utf8::encode_utf8_decode_utf8(text);
    }
    if valid_utf8(name_text(name)) {
        vstd::utf8::decode_utf8_encode_utf8(name_text(name));
        assert(encode_utf8(decode_utf8(name_text(name))) == name_text(name));
    }
}

/// The preset that stands where none was made: one saw at full level, the filter wide open, a
/// short attack and release, and every effect off. The numbers are 1, 20000, 0.01, 0.1, 0.25, 0.3
/// and 0.5.
pub proof fn init_patch_is_plain(p: Preset)
    requires
        is_row(p, INIT_PATCH),
    ensures
        p.osc1 == (OscSettings {
            waveform: 2,
            level: 0x3F80_0000,
            octave: 0,
            detune: 0,
            enable_vibrato: 1,
        }),
        p.osc2 == (OscSettings { level: 0, ..p.osc1 }),
        p.osc3 == p.osc2,
        p.noise_level == 0,
        p.portamento == 0,
        p.filter == (FilterSettings {
            cutoff: 0x469C_4000,
            resonance: 0,
            env_amount: 0,
            attack: 0,
            decay: 0,
            sustain: 0x3F80_0000,
            release: 0,
        }),
        p.amp == (EnvelopeSettings {
            attack: 0x3C23_D70A,
            decay: 0x3DCC_CCCD,
            sustain: 0x3F80_0000,
            release: 0x3DCC_CCCD,
        }),
        p.lfo_enabled == 0,
        p.lfo == (LfoSettings {
            frequency: 0x3F80_0000,
            waveform: 0,
            vibrato_amount: 0,
            filter_amount: 0,
        }),
        p.delay == (DelaySettings {
            time: 0x3E80_0000,
            feedback: 0x3E99_999A,
            mix: 0x3E99_999A,
            enabled: 0,
        }),
        p.reverb == (ReverbSettings {
            size: 0x3F00_0000,
            damping: 0x3F00_0000,
            mix: 0x3DCC_CCCD,
            enabled: 0,
        }),
{
    vstd::arithmetic::power2::lemma2_to64();
    decimal_bits(1_0000, 23, 0x80_0000);
    decimal_bits(20000_0000, 9, 0x9C_4000);
    decimal_bits(100, 30, 0xA3_D70A);
    decimal_bits(1000, 27, 0xCC_CCCD);
    decimal_bits(2500, 25, 0x80_0000);
    decimal_bits(3000, 25, 0x99_999A);
    decimal_bits(5000, 24, 0x80_0000);
}

} // verus!
