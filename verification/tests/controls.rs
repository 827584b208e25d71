use picodsp_ble::cc_map::{apply_cc, cc_param, CcParam, PowerTables};
use picodsp_ble::midi_control::{
    Derived, MidiControl, MidiFilterCutoff, MidiFilterResonance, MidiGate, MidiVelocity, SLOTS,
    SLOT_NOISE, SLOT_OSC2_OCTAVE,
};
use picodsp_ble::presets::{LfoWaveform, Preset, Waveform};
use picodsp_ble::scaling::{clamp_unit, scaled, unit};
use picodsp_ble::voice::{audible_sources, voice_plan, OscPlan};

const ONE: u32 = 0x3F80_0000;

#[test]
fn controls_at_the_start() {
    let c = MidiControl::new();
    assert_eq!(c.get_target_freq(), 440.0f32.to_bits());
    assert_eq!(c.get_pitch_bend(), 1.0f32.to_bits());
    assert_eq!(c.get_velocity(), 1.0f32.to_bits());
    assert_eq!(c.get_parameter_1(), 0.5f32.to_bits());
    assert_eq!(c.get_parameter_2(), 0);
    assert_eq!(c.get_portamento_amount(), 0);
    assert_eq!(c.get_mod_wheel(), 0);
    assert_eq!(c.get_gate(), 0);
    for slot in 0..SLOTS {
        assert_eq!(c.get_cont(slot), 0);
    }
}

#[test]
fn gate_is_reset_once() {
    let mut c = MidiControl::new();
    c.set_gate(true);
    assert!(!c.take_gate_reset());
    c.set_gate(false);
    c.set_gate(true);
    assert_eq!(c.get_gate(), ONE);
    assert!(c.take_gate_reset());
    assert!(!c.take_gate_reset());
}

#[test]
fn gate_signal_shows_a_retrigger() {
    let mut c = MidiControl::new();
    c.set_gate(false);
    c.set_gate(true);
    let mut buffer = [7; 6];
    MidiGate::process(&mut c, &mut buffer);
    assert_eq!(buffer, [0, 0, 0, 0, ONE, ONE]);
    MidiGate::process(&mut c, &mut buffer);
    assert_eq!(buffer, [ONE; 6]);
    c.set_gate(false);
    MidiGate::process(&mut c, &mut buffer);
    MidiGate::process(&mut c, &mut buffer);
    assert_eq!(buffer, [0; 6]);
}

#[test]
fn reset_takes_bend_and_wheel_back() {
    let mut c = MidiControl::new();
    c.set_freq(1);
    c.set_gate(true);
    c.set_pitch_bend(2);
    c.set_mod_wheel(3);
    c.set_velocity(4);
    c.set_portamento(5);
    c.set_gate(false);
    c.reset();
    assert_eq!(c.get_gate(), 0);
    assert!(!c.take_gate_reset());
    assert_eq!(c.get_pitch_bend(), ONE);
    assert_eq!(c.get_mod_wheel(), 0);
    assert_eq!(c.get_target_freq(), 1);
    assert_eq!(c.get_velocity(), 4);
    assert_eq!(c.get_portamento_amount(), 5);
}

#[test]
fn constant_signals() {
    let mut c = MidiControl::new();
    c.set_velocity(9);
    let mut buffer = [0; 3];
    MidiVelocity::process(&c, &mut buffer);
    assert_eq!(buffer, [9; 3]);
    MidiFilterCutoff::process(5, &mut buffer);
    assert_eq!(buffer, [5; 3]);
    MidiFilterResonance::process(6, &mut buffer);
    assert_eq!(buffer, [6; 3]);
}

fn numbered_preset() -> Preset {
    let mut p = Preset::default();
    for w in 0..41 {
        p.set_word(w, 1000 + w as u32);
    }
    p
}

#[test]
fn seeding_fills_every_slot() {
    let p = numbered_preset();
    let d = Derived {
        cutoff_norm: 1,
        resonance_norm: 2,
        octave_factor: [3, 4, 5],
    };
    let mut c = MidiControl::new();
    c.set_freq(77);
    c.seed_from_preset(&p, &d);
    let expected = [
        p.osc1.level,
        p.osc2.level,
        p.osc3.level,
        p.noise_level,
        3,
        4,
        5,
        p.osc1.detune,
        p.osc2.detune,
        p.osc3.detune,
        p.filter.env_amount,
        p.filter.attack,
        p.filter.decay,
        p.filter.sustain,
        p.filter.release,
        p.amp.attack,
        p.amp.decay,
        p.amp.sustain,
        p.amp.release,
        p.delay.time,
        p.delay.feedback,
        p.delay.mix,
        p.reverb.size,
        p.reverb.damping,
        p.reverb.mix,
        p.lfo.frequency,
        p.lfo.vibrato_amount,
        p.lfo.filter_amount,
    ];
    for slot in 0..SLOTS {
        assert_eq!(c.get_cont(slot), expected[slot]);
    }
    assert_eq!(c.get_parameter_1(), 1);
    assert_eq!(c.get_parameter_2(), 2);
    assert_eq!(c.get_portamento_amount(), p.portamento);
    assert_eq!(c.get_target_freq(), 77);
}

/// Tables that show which value was looked up.
fn tables() -> PowerTables {
    let mut t = PowerTables {
        cutoff_hz: [0; 256],
        octave_factor: [0; 256],
    };
    for v in 0..256 {
        t.cutoff_hz[v] = 20.0f32.to_bits() + v as u32;
        t.octave_factor[v] = 0.25f32.to_bits() + v as u32;
    }
    t.cutoff_hz[127] = 20000.0f32.to_bits();
    t.octave_factor[127] = 4.0f32.to_bits();
    t
}

/// The tables of a device.
fn real_tables() -> PowerTables {
    let mut t = tables();
    for v in 0..256 {
        let n = v as f32 / 127.0;
        t.cutoff_hz[v] = (20.0 * libm::powf(1000.0, n)).to_bits();
        t.octave_factor[v] = libm::powf(2.0, -2.0 + n * 4.0).to_bits();
    }
    t
}

#[test]
fn tables_are_checked() {
    assert!(real_tables().check());
    assert!(tables().check());
    let mut t = real_tables();
    t.cutoff_hz[5] = t.cutoff_hz[6];
    assert!(!t.check());
    let mut t = real_tables();
    t.octave_factor[127] = 4.5f32.to_bits();
    assert!(!t.check());
    let mut t = real_tables();
    t.cutoff_hz[0] = 0;
    assert!(!t.check());
}

#[test]
fn cutoff_covers_its_range() {
    let t = real_tables();
    let mut last = 0.0;
    for v in 0..=127 {
        let mut p = Preset::default();
        let mut c = MidiControl::new();
        apply_cc(74, v, &t, &mut p, &mut c);
        let now = f32::from_bits(p.filter.cutoff);
        assert!(last < now);
        last = now;
        if v == 0 {
            assert_eq!(now, 20.0);
        }
    }
    assert_eq!(last, 20000.0);
}

fn field(p: &mut Preset, cc: u8) -> Option<&mut u32> {
    Some(match cc {
        5 => &mut p.portamento,
        71 => &mut p.filter.resonance,
        74 => &mut p.filter.cutoff,
        16 => &mut p.osc1.level,
        17 => &mut p.osc1.octave,
        18 => &mut p.osc1.detune,
        19 => &mut p.osc2.level,
        20 => &mut p.osc2.octave,
        21 => &mut p.osc2.detune,
        22 => &mut p.osc3.level,
        23 => &mut p.osc3.octave,
        24 => &mut p.osc3.detune,
        25 => &mut p.noise_level,
        26 => &mut p.filter.env_amount,
        27 => &mut p.filter.attack,
        28 => &mut p.filter.decay,
        29 => &mut p.filter.sustain,
        30 => &mut p.filter.release,
        31 => &mut p.amp.attack,
        102 => &mut p.amp.decay,
        103 => &mut p.amp.sustain,
        104 => &mut p.amp.release,
        105 => &mut p.delay.time,
        106 => &mut p.delay.feedback,
        107 => &mut p.delay.mix,
        108 => &mut p.reverb.size,
        109 => &mut p.reverb.damping,
        110 => &mut p.reverb.mix,
        86 => &mut p.lfo.frequency,
        88 => &mut p.lfo.vibrato_amount,
        89 => &mut p.lfo.filter_amount,
        111 => &mut p.osc1.waveform,
        112 => &mut p.osc1.enable_vibrato,
        113 => &mut p.osc2.waveform,
        114 => &mut p.osc2.enable_vibrato,
        115 => &mut p.osc3.waveform,
        116 => &mut p.osc3.enable_vibrato,
        117 => &mut p.delay.enabled,
        118 => &mut p.reverb.enabled,
        85 => &mut p.lfo_enabled,
        87 => &mut p.lfo.waveform,
        _ => return None,
    })
}

#[test]
fn every_controller_changes_its_field() {
    for cc in 0..=255u8 {
        let mut p = numbered_preset();
        let mut c = MidiControl::new();
        let result = apply_cc(cc, 100, &tables(), &mut p, &mut c);
        let mut expected = numbered_preset();
        let structural = cc == 85 || cc == 87 || (111..=118).contains(&cc);
        match field(&mut expected, cc) {
            Some(f) => {
                assert_eq!(result, Some(structural), "cc {}", cc);
                *f = match cc {
                    111 | 113 | 115 => 4,
                    87 => 3,
                    _ if structural => 1,
                    74 => 20.0f32.to_bits() + 100,
                    _ => on_range(cc, 100).to_bits(),
                };
            }
            None => assert_eq!(result, None, "cc {}", cc),
        }
        assert_eq!(p, expected, "cc {}", cc);
    }
}

/// The parameter that a value of a controller stands for, in single-precision arithmetic.
fn on_range(cc: u8, value: u8) -> f32 {
    let n = value as f32 / 127.0;
    let lin = |lo: f32, hi: f32| lo + n * (hi - lo);
    match cc {
        17 | 20 | 23 => lin(-2.0, 2.0),
        18 | 21 | 24 => lin(-100.0, 100.0),
        26 => lin(-10000.0, 10000.0),
        27 | 28 | 30 | 31 | 102 | 104 => lin(0.0, 5.0),
        105 => lin(0.0, 0.3),
        86 | 88 => lin(0.0, 20.0),
        89 => lin(0.0, 5000.0),
        _ => n,
    }
}

#[test]
fn every_value_on_every_range() {
    for cc in 0..=127u8 {
        for value in 0..=255u8 {
            let mut p = numbered_preset();
            let mut c = MidiControl::new();
            if apply_cc(cc, value, &tables(), &mut p, &mut c) == Some(false) && cc != 74 {
                let f = field(&mut p, cc).unwrap();
                assert_eq!(*f, on_range(cc, value).to_bits(), "cc {} value {}", cc, value);
            }
        }
    }
}

#[test]
fn larger_values_are_larger_and_reach_the_ends() {
    for (lo, hi) in [
        (0, 10_000),
        (0, 50_000),
        (0, 3_000),
        (0, 200_000),
        (0, 50_000_000),
        (-20_000, 20_000),
        (-1_000_000, 1_000_000),
        (-100_000_000, 100_000_000),
    ] {
        let at = |v| f32::from_bits(scaled(v, lo, hi));
        assert_eq!(at(0), (lo as f64 / 10_000.0) as f32);
        assert_eq!(at(127), (hi as f64 / 10_000.0) as f32);
        for v in 0..127 {
            assert!(at(v) < at(v + 1));
        }
    }
    for v in 0..=255u8 {
        assert_eq!(unit(v), (v as f32 / 127.0).to_bits());
    }
}

#[test]
fn numbers_are_held_between_zero_and_one() {
    for x in [
        0.0f32,
        -0.0,
        1.0,
        0.5,
        1.0e-40,
        -1.0e-40,
        1.0000001,
        7.5,
        -3.0,
        f32::INFINITY,
        f32::NEG_INFINITY,
        f32::MAX,
        f32::NAN,
        -f32::NAN,
    ] {
        assert_eq!(clamp_unit(x.to_bits()), x.clamp(0.0, 1.0).to_bits(), "{}", x);
    }
}

#[test]
fn live_values_of_controllers() {
    let half = (64.0f32 / 127.0).to_bits();
    let mut p = Preset::default();
    let mut c = MidiControl::new();
    apply_cc(74, 64, &tables(), &mut p, &mut c);
    assert_eq!(p.filter.cutoff, 20.0f32.to_bits() + 64);
    assert_eq!(c.get_parameter_1(), half);
    apply_cc(71, 64, &tables(), &mut p, &mut c);
    assert_eq!((p.filter.resonance, c.get_parameter_2()), (half, half));
    apply_cc(5, 64, &tables(), &mut p, &mut c);
    assert_eq!((p.portamento, c.get_portamento_amount()), (half, half));
    apply_cc(20, 64, &tables(), &mut p, &mut c);
    assert_eq!(p.osc2.octave, on_range(20, 64).to_bits());
    assert_eq!(c.get_cont(SLOT_OSC2_OCTAVE), 0.25f32.to_bits() + 64);
    apply_cc(25, 64, &tables(), &mut p, &mut c);
    assert_eq!((p.noise_level, c.get_cont(SLOT_NOISE)), (half, half));
}

#[test]
fn switches_and_choices() {
    let mut p = Preset::default();
    let mut c = MidiControl::new();
    apply_cc(117, 63, &tables(), &mut p, &mut c);
    assert_eq!(p.delay.enabled, 0);
    apply_cc(117, 64, &tables(), &mut p, &mut c);
    assert_eq!(p.delay.enabled, 1);
    apply_cc(111, 3, &tables(), &mut p, &mut c);
    assert_eq!(p.osc1.waveform, 3);
    apply_cc(111, 127, &tables(), &mut p, &mut c);
    assert_eq!(p.osc1.waveform, 4);
    apply_cc(87, 2, &tables(), &mut p, &mut c);
    assert_eq!(p.lfo.waveform, 2);
    apply_cc(87, 9, &tables(), &mut p, &mut c);
    assert_eq!(p.lfo.waveform, 3);
}

#[test]
fn ranges_of_controllers() {
    let range = |cc| match cc_param(cc) {
        Some(CcParam::Slot { lo, hi, .. }) => (lo, hi),
        _ => panic!("not a range"),
    };
    assert_eq!(range(16), (0, 10_000));
    assert_eq!(range(18), (-1_000_000, 1_000_000));
    assert_eq!(range(26), (-100_000_000, 100_000_000));
    assert_eq!(range(27), (0, 50_000));
    assert_eq!(range(105), (0, 3_000));
    assert_eq!(range(86), (0, 200_000));
    assert_eq!(range(89), (0, 50_000_000));
    assert!(matches!(cc_param(17), Some(CcParam::Octave { .. })));
    assert_eq!(cc_param(1), None);
    assert_eq!(cc_param(64), None);
    assert_eq!(cc_param(67), None);
}

#[test]
fn preset_follows_the_live_controls() {
    let mut p = numbered_preset();
    let mut d = Derived {
        cutoff_norm: 1,
        resonance_norm: 2,
        octave_factor: [3, 4, 5],
    };
    let mut c = MidiControl::new();
    c.seed_from_preset(&p, &d);
    for cc in [16, 20, 71, 74, 105, 89, 5].iter() {
        assert_eq!(apply_cc(*cc, 33, &tables(), &mut p, &mut c), Some(false));
        match cc {
            20 => d.octave_factor[1] = 0.25f32.to_bits() + 33,
            71 => d.resonance_norm = unit(33),
            74 => d.cutoff_norm = unit(33),
            _ => {}
        }
    }
    // a voice is rebuilt: what it would compute is taken from the live controls
    assert_eq!(c.live_derived(), d);
    let mut fresh = MidiControl::new();
    fresh.seed_from_preset(&p, &c.live_derived());
    assert_eq!(fresh.cont, c.cont);
    assert_eq!(fresh.get_parameter_1(), c.get_parameter_1());
    assert_eq!(fresh.get_parameter_2(), c.get_parameter_2());
    assert_eq!(fresh.get_portamento_amount(), c.get_portamento_amount());
}

#[test]
fn voice_follows_the_preset() {
    let mut p = Preset::default();
    p.osc1.waveform = 0;
    p.osc2.waveform = 9;
    p.osc3.enable_vibrato = 0;
    let plan = voice_plan(&p);
    assert_eq!(
        plan.oscs[0],
        OscPlan {
            waveform: Waveform::Sine,
            vibrato: false
        }
    );
    assert_eq!(plan.oscs[1].waveform, Waveform::Saw);
    assert!(!plan.filter_lfo);
    p.lfo_enabled = 1;
    p.lfo.waveform = 1;
    p.reverb.enabled = 1;
    let plan = voice_plan(&p);
    assert!(plan.oscs[0].vibrato);
    assert!(!plan.oscs[2].vibrato);
    assert!(plan.filter_lfo);
    assert_eq!(plan.lfo_waveform, LfoWaveform::Triangle);
    assert!(plan.reverb);
    assert!(!plan.delay);
}

#[test]
fn quiet_sources_are_left_out() {
    let mut c = MidiControl::new();
    for (slot, level) in [(0, 0.5f32), (1, 0.0001), (2, -0.5), (3, 0.00011)] {
        c.set_cont(slot, level.to_bits());
    }
    assert_eq!(audible_sources(&c), [true, false, false, true]);
    for (slot, level) in [(0, f32::NAN), (1, f32::INFINITY), (2, -0.0), (3, 1.0)] {
        c.set_cont(slot, level.to_bits());
    }
    assert_eq!(audible_sources(&c), [false, true, false, true]);
}
