use picodsp_ble::binary32::{binary32, BITS_CONCERT_A, BITS_HALF, BITS_ONE};
use picodsp_ble::bytes::{push_le32, read_le32};
use picodsp_ble::presets::{make_name, osc, LfoWaveform, Preset, Waveform, PRESET_SIZE};

#[test]
fn decimals_become_the_nearest_single() {
    for k in [
        0,
        1,
        3,
        7,
        10,
        99,
        707 * 10,
        1000,
        3333,
        5000,
        9999,
        10_000,
        93_000,
        -1,
        -30_000,
        200_000_000,
        i32::MAX,
        i32::MIN,
    ] {
        let expected = (k as f64 / 10_000.0) as f32;
        assert_eq!(binary32(k), expected.to_bits(), "{}", k);
    }
    let mut k: i64 = -60_000;
    while k <= 60_000 {
        let expected = (k as f64 / 10_000.0) as f32;
        assert_eq!(binary32(k as i32), expected.to_bits(), "{}", k);
        k += 13;
    }
}

#[test]
fn opposite_numbers_differ_in_the_sign() {
    assert_eq!(binary32(-15_000), binary32(15_000) | 0x8000_0000);
}

#[test]
fn named_bits() {
    assert_eq!(BITS_ONE, 1.0f32.to_bits());
    assert_eq!(BITS_HALF, 0.5f32.to_bits());
    assert_eq!(BITS_CONCERT_A, 440.0f32.to_bits());
}

#[test]
fn words_round_trip() {
    let mut bytes = vec![9];
    push_le32(&mut bytes, 0x5044_5350);
    assert_eq!(bytes, vec![9, 0x50, 0x53, 0x44, 0x50]);
    assert_eq!(read_le32(&bytes, 1), 0x5044_5350);
}

#[test]
fn names_are_padded_and_cut() {
    let name = make_name("Moog Bass");
    assert_eq!(&name[..9], b"Moog Bass");
    assert!(name[9..].iter().all(|b| *b == 0));
    let long = make_name("0123456789012345678901234567890123456789");
    assert_eq!(&long[..], &b"01234567890123456789012345678901"[..]);
    assert_eq!(make_name(""), [0; 32]);
}

#[test]
fn names_are_read_back() {
    let mut p = Preset::default();
    assert_eq!(p.get_name(), "Init Patch");
    p.name = make_name("Glöckchen");
    assert_eq!(p.get_name(), "Glöckchen");
    p.name = [b'x'; 32];
    assert_eq!(p.get_name(), "xxxxxxxxxxxxxxxxxxxxxxxxxxxxxxxx");
    p.name = make_name("");
    assert_eq!(p.get_name(), "");
    p.name[0] = 0xFF;
    assert_eq!(p.get_name(), "Invalid");
    // a character cut in two by the end of the field
    p.name = make_name("0123456789012345678901234567890ö");
    assert_eq!(p.get_name(), "Invalid");
}

#[test]
fn default_preset() {
    let p = Preset::default();
    assert_eq!(p.osc1, osc(Waveform::Saw, 1.0f32.to_bits(), 0, 0, true));
    assert_eq!(p.osc2, osc(Waveform::Saw, 0, 0, 0, true));
    assert_eq!(p.filter.cutoff, 20000.0f32.to_bits());
    assert_eq!(p.filter.sustain, 1.0f32.to_bits());
    assert_eq!(p.amp.attack, 0.01f32.to_bits());
    assert_eq!(p.amp.decay, 0.1f32.to_bits());
    assert_eq!(p.lfo.frequency, 1.0f32.to_bits());
    assert_eq!(p.delay.time, 0.25f32.to_bits());
    assert_eq!(p.reverb.mix, 0.1f32.to_bits());
    assert_eq!(p.lfo_enabled, 0);
    assert_eq!(p.delay.enabled, 0);
    assert_eq!(p.reverb.enabled, 0);
}

#[test]
fn shapes_and_their_numbers() {
    let shapes = [
        Waveform::Sine,
        Waveform::Triangle,
        Waveform::Saw,
        Waveform::Square,
        Waveform::WhiteNoise,
    ];
    for (i, wf) in shapes.iter().enumerate() {
        let o = osc(*wf, 0, 0, 0, false);
        assert_eq!(o.waveform, i as u32);
        assert_eq!(o.get_waveform(), *wf);
        assert!(!o.is_vibrato_enabled());
    }
    let mut o = osc(Waveform::Sine, 0, 0, 0, true);
    assert!(o.is_vibrato_enabled());
    o.waveform = 5;
    assert_eq!(o.get_waveform(), Waveform::Saw);
    let mut l = picodsp_ble::presets::lfo(0, LfoWaveform::Square, 0, 0);
    assert_eq!(l.waveform, 3);
    assert_eq!(l.get_waveform(), LfoWaveform::Square);
    l.waveform = 4;
    assert_eq!(l.get_waveform(), LfoWaveform::Sine);
}

#[test]
fn images_round_trip() {
    let bytes: Vec<u8> = (0..250u32).map(|i| (i * 37 % 251) as u8).collect();
    let p = Preset::decode(&bytes);
    let mut again = Vec::new();
    p.encode(&mut again);
    assert_eq!(again.len(), PRESET_SIZE);
    assert_eq!(again[..], bytes[..PRESET_SIZE]);
    assert_eq!(Preset::decode(&again), p);
}

#[test]
fn image_layout() {
    let p = Preset::default();
    let mut bytes = Vec::new();
    p.encode(&mut bytes);
    assert_eq!(&bytes[..10], b"Init Patch");
    // the first oscillator: shape, level
    assert_eq!(read_le32(&bytes, 32), 2);
    assert_eq!(read_le32(&bytes, 36), 1.0f32.to_bits());
    // the filter's cutoff
    assert_eq!(read_le32(&bytes, 100), 20000.0f32.to_bits());
    // the delay's time and the reverb's mix
    assert_eq!(read_le32(&bytes, 164), 0.25f32.to_bits());
    assert_eq!(read_le32(&bytes, 188), 0.1f32.to_bits());
}

#[test]
fn one_word_is_replaced() {
    let mut p = Preset::default();
    p.set_word(picodsp_ble::presets::WORD_DELAY_MIX, 77);
    let mut expected = Preset::default();
    expected.delay.mix = 77;
    assert_eq!(p, expected);
}
