use picodsp_ble::factory::get_default_presets;
use picodsp_ble::presets::Preset;

fn words(p: &Preset) -> Vec<u32> {
    let mut bytes = Vec::new();
    p.encode(&mut bytes);
    bytes[32..196]
        .chunks(4)
        .map(|c| u32::from_le_bytes([c[0], c[1], c[2], c[3]]))
        .collect()
}

fn check(p: &Preset, name: &str, shapes: [u32; 4], switches: [u32; 6], numbers: [f32; 31]) {
    assert_eq!(p.get_name(), name);
    assert_eq!(
        [p.osc1.waveform, p.osc2.waveform, p.osc3.waveform, p.lfo.waveform],
        shapes
    );
    assert_eq!(
        [
            p.osc1.enable_vibrato,
            p.osc2.enable_vibrato,
            p.osc3.enable_vibrato,
            p.lfo_enabled,
            p.delay.enabled,
            p.reverb.enabled
        ],
        switches
    );
    let w = words(p);
    let places = [
        1, 2, 3, 6, 7, 8, 11, 12, 13, 15, 16, 17, 18, 19, 20, 21, 22, 23, 24, 25, 26, 27, 29, 31,
        32, 33, 34, 35, 37, 38, 39,
    ];
    for (place, number) in places.iter().zip(numbers.iter()) {
        assert_eq!(w[*place], number.to_bits(), "{} word {}", name, place);
    }
    assert_eq!(p._padding, [0; 4]);
}

#[test]
fn factory_names_in_order() {
    let names = [
        "Moog Bass",
        "Deep Sub",
        "Reese Bass",
        "Acid Bass",
        "Rubber Bass",
        "Wobble Bass",
        "Square Sub",
        "Growl Bass",
        "Pluck Bass",
        "FM Bass",
        "Detuned Bass",
        "808 Boom",
        "Hoover Bass",
        "Dub Bass",
        "Talking Bass",
        "Synth Bass 1",
        "Saw Bass",
        "Mini Bass",
        "Lucky Man",
        "Tom Sawyer",
        "Moog Scream",
        "Octavarium Lead",
        "Super Saw Lead",
        "Square Lead",
        "Mini Lead",
        "Sync Lead",
        "Whistle Lead",
        "Portamento Lead",
        "Bright Saw Lead",
        "Soft Lead",
        "Fifth Lead",
        "Trance Lead",
        "Screaming Lead",
        "Pulse Lead",
        "Vintage Lead",
        "Octave Lead",
        "Glass Pad",
        "Warm Pad",
        "String Pad",
        "Choir Pad",
        "Sweep Pad",
        "Dark Pad",
        "Shimmer Pad",
        "Analog Pad",
        "Soft Pad",
        "Evolving Pad",
        "Octave Pad",
        "Detuned Pad",
        "Ambient Pad",
        "Voltage Pad",
        "Halo Pad",
        "Wide Pad",
        "Aurora Pad",
        "Mystic Pad",
        "Drawbar Organ",
        "Rock Organ",
        "Full Organ",
        "Electric Piano",
        "Soft Clav",
        "Pipe Organ",
        "Church Organ",
        "Jazz Organ",
        "Percussive Organ",
        "Combo Organ",
        "Reed Organ",
        "Tonewheel",
        "Bell Piano",
        "Synth Clav",
        "Snappy Pluck",
        "Nylon Pluck",
        "Synth Pluck",
        "Glass Pluck",
        "Square Pluck",
        "Koto Pluck",
        "Harp Pluck",
        "Muted Pluck",
        "Bright Pluck",
        "Bass Pluck",
        "Fat Brass",
        "PWM Strings",
        "Synth Brass",
        "Brass Section",
        "Soft Strings",
        "Saw Strings",
        "Octave Brass",
        "Trumpet Lead",
        "Horn Section",
        "String Ensemble",
        "Cinematic Strings",
        "Brass Stab",
        "Crystal Bell",
        "Glass Bell",
        "Tubular Bell",
        "Music Box",
        "Marimba",
        "Vibraphone",
        "Kalimba",
        "Glockenspiel",
        "Temple Bell",
        "Celesta",
        "Acid Line",
        "Sequence Saw",
        "Pluck Arp",
        "Square Arp",
        "Octave Arp",
        "Digital Arp",
        "Soft Arp",
        "Chase Sequence",
        "Sci-Fi Drone",
        "Deep Drone",
        "Ocean Drone",
        "Metallic Drone",
        "Dark Atmosphere",
        "Space Wind",
        "Tension Drone",
        "Underwater",
        "Cosmic Wash",
        "Cinematic Pad",
        "Riser FX",
        "Down Sweep",
        "Laser Zap",
        "Alarm",
        "Wind Noise",
        "UFO",
        "Synth Kick",
        "Synth Tom",
        "Zap Snare",
        "Noise Hat",
    ];
    let bank = get_default_presets();
    assert_eq!(bank.len(), names.len());
    for (p, name) in bank.iter().zip(names.iter()) {
        assert_eq!(p.get_name(), *name);
    }
}

#[test]
fn factory_numbers() {
    let bank = get_default_presets();
    check(
        &bank[0],
        "Moog Bass",
        [2, 2, 3, 0],
        [0, 0, 0, 0, 0, 0],
        [
            1.0, -3.0, 0.0, 0.4, -3.0, 0.3, 0.5, -4.0, 0.0, 0.0, 0.0, 80.0, 0.6, 3000.0, 0.001,
            0.25, 0.0, 0.1, 0.001, 0.2, 0.8, 0.1, 1.0, 0.0, 0.0, 0.25, 0.3, 0.3, 0.5, 0.5, 0.1,
        ],
    );
    check(
        &bank[1],
        "Deep Sub",
        [0, 0, 2, 0],
        [0, 0, 0, 0, 0, 0],
        [
            1.0, -2.0, 0.0, 0.3, -1.0, 0.0, 0.0, 0.0, 0.0, 0.0, 0.0, 800.0, 0.1, 0.0, 0.001, 0.1,
            1.0, 0.1, 0.002, 0.15, 0.9, 0.12, 1.0, 0.0, 0.0, 0.25, 0.3, 0.3, 0.5, 0.5, 0.1,
        ],
    );
    check(
        &bank[2],
        "Reese Bass",
        [2, 2, 2, 1],
        [0, 0, 0, 1, 0, 0],
        [
            1.0, -2.0, 1.5, 1.0, -2.0, -1.5, 0.6, -1.0, 0.4, 0.0, 0.0, 400.0, 1.5, 1500.0, 0.005,
            0.4, 0.7, 0.2, 0.005, 0.3, 0.9, 0.2, 0.4, 0.0, 300.0, 0.25, 0.3, 0.2, 0.4, 0.5, 0.1,
        ],
    );
    check(
        &bank[3],
        "Acid Bass",
        [2, 2, 2, 0],
        [0, 0, 0, 0, 1, 0],
        [
            1.0, -1.0, 0.0, 0.0, 0.0, 0.0, 0.0, 0.0, 0.0, 0.0, 0.55, 120.0, 6.0, 4500.0, 0.003,
            0.2, 0.1, 0.1, 0.003, 0.2, 0.9, 0.1, 1.0, 0.0, 0.0, 0.18, 0.35, 0.22, 0.4, 0.5, 0.08,
        ],
    );
    check(
        &bank[4],
        "Rubber Bass",
        [3, 2, 2, 0],
        [0, 0, 0, 0, 0, 0],
        [
            1.0, -2.0, 0.0, 0.5, -1.0, 0.2, 0.0, 0.0, 0.0, 0.0, 0.0, 180.0, 3.0, 2500.0, 0.002,
            0.18, 0.2, 0.12, 0.002, 0.2, 0.7, 0.1, 1.0, 0.0, 0.0, 0.25, 0.3, 0.2, 0.4, 0.5, 0.08,
        ],
    );
    check(
        &bank[5],
        "Wobble Bass",
        [2, 3, 2, 0],
        [0, 0, 0, 1, 0, 0],
        [
            1.0, -1.0, 0.0, 0.7, -1.0, 0.3, 0.5, -2.0, 0.0, 0.0, 0.0, 300.0, 4.0, 1000.0, 0.005,
            0.3, 0.7, 0.2, 0.005, 0.2, 0.9, 0.2, 3.0, 0.0, 1500.0, 0.25, 0.3, 0.3, 0.5, 0.5, 0.1,
        ],
    );
    check(
        &bank[6],
        "Square Sub",
        [3, 0, 2, 0],
        [0, 0, 0, 0, 0, 0],
        [
            1.0, -2.0, 0.0, 0.5, -3.0, 0.0, 0.0, 0.0, 0.0, 0.0, 0.0, 500.0, 0.5, 800.0, 0.002, 0.2,
            0.8, 0.1, 0.003, 0.15, 0.85, 0.1, 1.0, 0.0, 0.0, 0.25, 0.3, 0.2, 0.4, 0.5, 0.06,
        ],
    );
    check(
        &bank[7],
        "Growl Bass",
        [2, 2, 3, 0],
        [0, 0, 0, 1, 1, 0],
        [
            1.0, -2.0, 2.0, 0.8, -2.0, -2.0, 0.6, -1.0, 0.0, 0.1, 0.0, 160.0, 5.0, 3000.0, 0.004,
            0.3, 0.4, 0.15, 0.004, 0.25, 0.8, 0.15, 6.0, 0.0, 600.0, 0.2, 0.3, 0.2, 0.4, 0.5, 0.1,
        ],
    );
    check(
        &bank[8],
        "Pluck Bass",
        [2, 3, 2, 0],
        [0, 0, 0, 0, 1, 0],
        [
            1.0, -2.0, 0.0, 0.5, -1.0, 0.3, 0.0, 0.0, 0.0, 0.0, 0.0, 250.0, 3.5, 5000.0, 0.001,
            0.15, 0.0, 0.1, 0.001, 0.2, 0.0, 0.12, 1.0, 0.0, 0.0, 0.22, 0.3, 0.2, 0.4, 0.5, 0.08,
        ],
    );
    check(
        &bank[9],
        "FM Bass",
        [0, 3, 0, 0],
        [0, 0, 0, 0, 0, 0],
        [
            1.0, -2.0, 0.0, 0.4, 0.0, 0.5, 0.3, -1.0, 0.0, 0.0, 0.0, 600.0, 2.0, 1200.0, 0.001,
            0.2, 0.5, 0.12, 0.001, 0.18, 0.7, 0.1, 1.0, 0.0, 0.0, 0.25, 0.3, 0.15, 0.4, 0.5, 0.07,
        ],
    );
    check(
        &bank[10],
        "Detuned Bass",
        [2, 2, 0, 0],
        [0, 0, 0, 0, 0, 0],
        [
            1.0, -2.0, 3.0, 0.9, -2.0, -3.0, 0.5, -3.0, 0.0, 0.0, 0.0, 350.0, 2.0, 1500.0, 0.004,
            0.25, 0.6, 0.15, 0.004, 0.2, 0.85, 0.15, 1.0, 0.0, 0.0, 0.25, 0.3, 0.2, 0.4, 0.5, 0.1,
        ],
    );
    check(
        &bank[11],
        "808 Boom",
        [0, 0, 2, 0],
        [0, 0, 0, 0, 0, 0],
        [
            1.0, -3.0, 0.0, 0.2, -2.0, 0.0, 0.0, 0.0, 0.0, 0.0, 0.5, 1200.0, 0.3, 0.0, 0.001, 0.05,
            1.0, 0.1, 0.001, 1.2, 0.0, 0.6, 1.0, 0.0, 0.0, 0.25, 0.3, 0.1, 0.3, 0.5, 0.05,
        ],
    );
    check(
        &bank[12],
        "Hoover Bass",
        [2, 2, 3, 0],
        [0, 0, 1, 1, 1, 1],
        [
            1.0, -1.0, 4.0, 1.0, -1.0, -4.0, 0.7, -2.0, 0.0, 0.0, 0.3, 450.0, 3.0, 2000.0, 0.005,
            0.3, 0.6, 0.2, 0.005, 0.25, 0.85, 0.2, 0.3, 6.0, 500.0, 0.25, 0.35, 0.25, 0.5, 0.5,
            0.12,
        ],
    );
    check(
        &bank[13],
        "Dub Bass",
        [0, 1, 2, 0],
        [0, 0, 0, 0, 1, 1],
        [
            1.0, -2.0, 0.0, 0.4, -1.0, 0.0, 0.0, 0.0, 0.0, 0.0, 0.2, 220.0, 1.5, 600.0, 0.01, 0.3,
            0.6, 0.2, 0.01, 0.25, 0.7, 0.25, 1.0, 0.0, 0.0, 0.3, 0.45, 0.35, 0.6, 0.5, 0.18,
        ],
    );
    check(
        &bank[14],
        "Talking Bass",
        [2, 3, 2, 1],
        [0, 0, 0, 1, 0, 0],
        [
            1.0, -2.0, 0.0, 0.6, -1.0, 0.3, 0.0, 0.0, 0.0, 0.0, 0.0, 300.0, 5.0, 2500.0, 0.005,
            0.25, 0.5, 0.15, 0.005, 0.2, 0.8, 0.15, 2.5, 0.0, 1800.0, 0.25, 0.3, 0.2, 0.4, 0.5,
            0.1,
        ],
    );
    check(
        &bank[15],
        "Synth Bass 1",
        [2, 2, 3, 0],
        [0, 0, 0, 0, 0, 0],
        [
            1.0, -2.0, 0.0, 0.5, -2.0, 0.5, 0.4, -1.0, 0.0, 0.0, 0.0, 280.0, 2.5, 2200.0, 0.002,
            0.22, 0.4, 0.12, 0.002, 0.2, 0.75, 0.12, 1.0, 0.0, 0.0, 0.25, 0.3, 0.15, 0.4, 0.5,
            0.08,
        ],
    );
    check(
        &bank[16],
        "Saw Bass",
        [2, 2, 2, 0],
        [0, 0, 0, 0, 0, 0],
        [
            1.0, -2.0, 0.0, 0.6, -3.0, 0.0, 0.0, 0.0, 0.0, 0.0, 0.0, 220.0, 2.0, 1800.0, 0.002,
            0.2, 0.5, 0.12, 0.002, 0.18, 0.8, 0.12, 1.0, 0.0, 0.0, 0.25, 0.3, 0.12, 0.4, 0.5, 0.07,
        ],
    );
    check(
        &bank[17],
        "Mini Bass",
        [1, 3, 2, 0],
        [0, 0, 0, 0, 0, 0],
        [
            1.0, -2.0, 0.0, 0.6, -2.0, 0.4, 0.4, -1.0, 0.0, 0.0, 0.0, 260.0, 3.0, 2600.0, 0.001,
            0.2, 0.3, 0.1, 0.001, 0.2, 0.7, 0.1, 1.0, 0.0, 0.0, 0.25, 0.3, 0.12, 0.4, 0.5, 0.08,
        ],
    );
    check(
        &bank[18],
        "Lucky Man",
        [3, 3, 3, 0],
        [1, 1, 1, 1, 1, 0],
        [
            1.0, 0.0, 0.0, 0.7, 0.0, 2.0, 0.7, 0.0, -2.0, 0.0, 0.92, 200.0, 0.4, 3000.0, 0.1, 1.5,
            0.4, 0.5, 0.05, 0.2, 1.0, 0.5, 5.0, 2.0, 0.0, 0.3, 0.3, 0.3, 0.5, 0.5, 0.1,
        ],
    );
    check(
        &bank[19],
        "Tom Sawyer",
        [2, 2, 2, 0],
        [0, 0, 0, 0, 1, 0],
        [
            1.0, 0.0, 0.0, 0.5, 0.0, 1.5, 0.0, 0.0, 0.0, 0.0, 0.0, 80.0, 0.45, 5000.0, 0.03, 2.0,
            0.1, 0.1, 0.01, 0.1, 1.0, 0.2, 1.0, 0.0, 0.0, 0.15, 0.2, 0.2, 0.3, 0.5, 0.1,
        ],
    );
    check(
        &bank[20],
        "Moog Scream",
        [2, 2, 3, 0],
        [1, 1, 1, 1, 0, 1],
        [
            1.0, 0.0, 0.0, 0.6, 0.0, 2.5, 0.8, 0.0, -2.5, 0.15, 0.85, 100.0, 7.0, 6000.0, 0.005,
            0.3, 0.2, 0.2, 0.005, 0.2, 1.0, 0.2, 0.15, 8.0, 0.0, 0.25, 0.3, 0.3, 0.5, 0.5, 0.2,
        ],
    );
    check(
        &bank[21],
        "Octavarium Lead",
        [2, 2, 3, 0],
        [1, 0, 0, 1, 1, 1],
        [
            1.0, 0.0, 0.0, 0.5, 0.0, 2.0, 0.3, 0.0, 0.0, 0.0, 0.94, 500.0, 0.6, 4000.0, 0.01, 0.5,
            0.6, 0.2, 0.005, 0.1, 1.0, 0.2, 5.5, 1.5, 0.0, 0.25, 0.3, 0.3, 0.5, 0.5, 0.1,
        ],
    );
    check(
        &bank[22],
        "Super Saw Lead",
        [2, 2, 2, 0],
        [1, 1, 1, 1, 1, 1],
        [
            1.0, 0.0, 0.0, 0.7, 0.0, 4.0, 0.7, 0.0, -4.0, 0.0, 0.0, 3000.0, 0.3, 3000.0, 0.01, 0.5,
            0.7, 0.3, 0.01, 0.2, 1.0, 0.3, 5.5, 1.5, 0.0, 0.3, 0.3, 0.3, 0.4, 0.5, 0.1,
        ],
    );
    check(
        &bank[23],
        "Square Lead",
        [3, 3, 2, 0],
        [1, 0, 0, 1, 1, 1],
        [
            1.0, 0.0, 0.0, 0.4, 1.0, 0.0, 0.0, 0.0, 0.0, 0.0, 0.0, 2500.0, 0.5, 2000.0, 0.005, 0.3,
            0.8, 0.2, 0.005, 0.15, 1.0, 0.2, 5.0, 1.2, 0.0, 0.3, 0.3, 0.25, 0.4, 0.5, 0.1,
        ],
    );
    check(
        &bank[24],
        "Mini Lead",
        [2, 2, 1, 0],
        [1, 0, 0, 1, 1, 1],
        [
            1.0, 0.0, 0.0, 0.6, 0.0, 0.5, 0.4, 1.0, 0.0, 0.0, 0.4, 1800.0, 2.0, 2500.0, 0.005, 0.4,
            0.7, 0.2, 0.005, 0.2, 1.0, 0.2, 5.5, 1.5, 0.0, 0.3, 0.3, 0.2, 0.4, 0.5, 0.1,
        ],
    );
    check(
        &bank[25],
        "Sync Lead",
        [2, 3, 2, 0],
        [1, 0, 0, 1, 1, 1],
        [
            1.0, 0.0, 0.0, 0.7, 1.0, 7.0, 0.4, 0.0, -3.0, 0.0, 0.0, 1200.0, 4.0, 4000.0, 0.005,
            0.5, 0.6, 0.2, 0.005, 0.2, 1.0, 0.2, 5.0, 1.0, 1500.0, 0.28, 0.3, 0.25, 0.4, 0.5, 0.1,
        ],
    );
    check(
        &bank[26],
        "Whistle Lead",
        [0, 0, 2, 0],
        [1, 0, 0, 1, 1, 1],
        [
            1.0, 1.0, 0.0, 0.3, 2.0, 0.0, 0.0, 0.0, 0.0, 0.0, 0.3, 4000.0, 1.0, 1000.0, 0.02, 0.3,
            0.9, 0.2, 0.02, 0.2, 1.0, 0.25, 6.0, 2.5, 0.0, 0.3, 0.35, 0.3, 0.6, 0.4, 0.2,
        ],
    );
    check(
        &bank[27],
        "Portamento Lead",
        [2, 3, 2, 0],
        [1, 0, 0, 1, 1, 1],
        [
            1.0, 0.0, 0.0, 0.6, 0.0, 0.0, 0.0, 0.0, 0.0, 0.0, 0.95, 900.0, 3.0, 3500.0, 0.01, 0.5,
            0.7, 0.25, 0.01, 0.2, 1.0, 0.3, 5.0, 2.0, 0.0, 0.3, 0.35, 0.3, 0.5, 0.5, 0.15,
        ],
    );
    check(
        &bank[28],
        "Bright Saw Lead",
        [2, 2, 2, 0],
        [1, 1, 0, 1, 1, 1],
        [
            1.0, 0.0, 0.0, 0.5, 1.0, 2.0, 0.0, 0.0, 0.0, 0.0, 0.0, 5000.0, 1.0, 2000.0, 0.005, 0.3,
            0.8, 0.2, 0.005, 0.15, 1.0, 0.2, 5.5, 1.2, 0.0, 0.3, 0.3, 0.25, 0.4, 0.5, 0.1,
        ],
    );
    check(
        &bank[29],
        "Soft Lead",
        [1, 0, 2, 0],
        [1, 0, 0, 1, 1, 1],
        [
            1.0, 0.0, 0.0, 0.5, 1.0, 0.0, 0.0, 0.0, 0.0, 0.0, 0.2, 2500.0, 0.5, 1500.0, 0.03, 0.4,
            0.9, 0.3, 0.03, 0.2, 1.0, 0.35, 5.0, 1.0, 0.0, 0.3, 0.3, 0.25, 0.5, 0.4, 0.2,
        ],
    );
    check(
        &bank[30],
        "Fifth Lead",
        [2, 2, 3, 0],
        [1, 0, 0, 1, 1, 1],
        [
            1.0, 0.0, 0.0, 0.7, 0.585, 0.0, 0.4, 1.0, 0.0, 0.0, 0.0, 2200.0, 1.5, 2500.0, 0.008,
            0.4, 0.7, 0.2, 0.008, 0.2, 1.0, 0.25, 5.2, 1.5, 0.0, 0.3, 0.3, 0.25, 0.45, 0.5, 0.12,
        ],
    );
    check(
        &bank[31],
        "Trance Lead",
        [2, 2, 2, 0],
        [1, 1, 1, 1, 1, 1],
        [
            1.0, 0.0, 5.0, 1.0, 0.0, -5.0, 0.7, 1.0, 0.0, 0.0, 0.0, 2800.0, 2.0, 3500.0, 0.005,
            0.4, 0.8, 0.25, 0.005, 0.2, 1.0, 0.3, 6.0, 1.5, 800.0, 0.3, 0.4, 0.35, 0.6, 0.4, 0.2,
        ],
    );
    check(
        &bank[32],
        "Screaming Lead",
        [2, 2, 3, 0],
        [1, 1, 1, 1, 1, 1],
        [
            1.0, 0.0, 0.0, 0.8, 0.0, 3.0, 0.7, 1.0, -3.0, 0.05, 0.5, 700.0, 8.0, 6000.0, 0.004,
            0.4, 0.5, 0.2, 0.004, 0.2, 1.0, 0.25, 5.5, 3.0, 0.0, 0.3, 0.35, 0.3, 0.5, 0.5, 0.18,
        ],
    );
    check(
        &bank[33],
        "Pulse Lead",
        [3, 3, 3, 1],
        [1, 1, 0, 1, 1, 1],
        [
            1.0, 0.0, 0.3, 0.7, 0.0, -0.3, 0.5, 1.0, 0.0, 0.0, 0.0, 2000.0, 1.5, 2500.0, 0.006,
            0.35, 0.8, 0.2, 0.006, 0.18, 1.0, 0.22, 0.8, 0.0, 600.0, 0.3, 0.3, 0.25, 0.4, 0.5,
            0.12,
        ],
    );
    check(
        &bank[34],
        "Vintage Lead",
        [2, 1, 3, 0],
        [1, 0, 0, 1, 1, 1],
        [
            1.0, 0.0, 0.0, 0.6, 0.0, 1.0, 0.3, -1.0, 0.0, 0.0, 0.6, 1500.0, 2.5, 3000.0, 0.01, 0.5,
            0.6, 0.25, 0.01, 0.2, 1.0, 0.3, 4.8, 2.0, 0.0, 0.3, 0.32, 0.28, 0.5, 0.5, 0.15,
        ],
    );
    check(
        &bank[35],
        "Octave Lead",
        [2, 2, 2, 0],
        [1, 0, 0, 1, 1, 1],
        [
            1.0, 0.0, 0.0, 0.7, 1.0, 0.0, 0.4, -1.0, 0.0, 0.0, 0.0, 2600.0, 1.0, 2500.0, 0.006,
            0.35, 0.8, 0.2, 0.006, 0.18, 1.0, 0.22, 5.5, 1.3, 0.0, 0.3, 0.3, 0.25, 0.4, 0.5, 0.12,
        ],
    );
    check(
        &bank[36],
        "Glass Pad",
        [1, 0, 1, 0],
        [0, 0, 0, 1, 0, 1],
        [
            0.9, 0.0, 0.0, 0.7, 1.0, 0.2, 0.5, 0.0, -0.2, 0.0, 0.0, 1200.0, 0.2, 1500.0, 0.8, 1.0,
            0.8, 1.5, 0.9, 0.5, 1.0, 1.8, 0.3, 0.0, 400.0, 0.25, 0.3, 0.3, 0.7, 0.4, 0.3,
        ],
    );
    check(
        &bank[37],
        "Warm Pad",
        [2, 2, 1, 0],
        [0, 0, 0, 1, 0, 1],
        [
            0.8, 0.0, 0.3, 0.8, 0.0, -0.3, 0.5, -1.0, 0.0, 0.0, 0.0, 900.0, 1.0, 1200.0, 1.0, 1.2,
            0.85, 1.8, 1.0, 0.6, 1.0, 2.0, 0.25, 0.0, 300.0, 0.3, 0.3, 0.2, 0.8, 0.4, 0.3,
        ],
    );
    check(
        &bank[38],
        "String Pad",
        [2, 2, 2, 0],
        [0, 0, 0, 1, 0, 1],
        [
            0.9, 0.0, 0.5, 0.9, 0.0, -0.5, 0.6, 1.0, 0.2, 0.0, 0.0, 1600.0, 0.5, 1500.0, 0.6, 1.0,
            0.85, 1.2, 0.7, 0.5, 1.0, 1.4, 0.4, 0.3, 400.0, 0.3, 0.3, 0.2, 0.75, 0.45, 0.3,
        ],
    );
    check(
        &bank[39],
        "Choir Pad",
        [0, 1, 0, 0],
        [0, 0, 0, 1, 0, 1],
        [
            1.0, 0.0, 0.0, 0.6, 0.0, 0.4, 0.5, 1.0, -0.4, 0.05, 0.0, 2000.0, 1.5, 1000.0, 0.9, 1.0,
            0.9, 1.6, 0.9, 0.6, 1.0, 1.8, 5.0, 1.5, 200.0, 0.3, 0.3, 0.2, 0.85, 0.4, 0.35,
        ],
    );
    check(
        &bank[40],
        "Sweep Pad",
        [2, 2, 3, 0],
        [0, 0, 0, 1, 1, 1],
        [
            0.9, 0.0, 0.4, 0.7, 0.0, -0.4, 0.5, -1.0, 0.0, 0.0, 0.0, 400.0, 3.0, 4000.0, 2.0, 2.0,
            0.8, 2.0, 0.8, 1.0, 1.0, 2.0, 0.15, 0.0, 1500.0, 0.3, 0.35, 0.3, 0.8, 0.4, 0.3,
        ],
    );
    check(
        &bank[41],
        "Dark Pad",
        [2, 1, 0, 0],
        [0, 0, 0, 1, 1, 1],
        [
            0.9, -1.0, 0.3, 0.7, -1.0, -0.3, 0.5, -2.0, 0.0, 0.0, 0.0, 500.0, 1.5, 800.0, 1.2, 1.5,
            0.7, 2.0, 1.2, 0.8, 1.0, 2.5, 0.12, 0.0, 250.0, 0.3, 0.4, 0.3, 0.9, 0.35, 0.35,
        ],
    );
    check(
        &bank[42],
        "Shimmer Pad",
        [0, 0, 1, 0],
        [0, 0, 0, 1, 1, 1],
        [
            1.0, 0.0, 0.0, 0.6, 1.0, 0.3, 0.4, 2.0, 0.0, 0.0, 0.0, 3000.0, 0.5, 1500.0, 0.7, 1.0,
            0.85, 1.6, 0.8, 0.6, 1.0, 2.0, 0.2, 0.0, 800.0, 0.3, 0.45, 0.35, 0.9, 0.3, 0.4,
        ],
    );
    check(
        &bank[43],
        "Analog Pad",
        [2, 3, 2, 0],
        [0, 0, 0, 1, 0, 1],
        [
            0.9, 0.0, 0.6, 0.7, 0.0, -0.6, 0.5, -1.0, 0.0, 0.0, 0.0, 1100.0, 1.2, 1500.0, 0.7, 1.0,
            0.8, 1.4, 0.7, 0.6, 1.0, 1.6, 0.5, 0.4, 350.0, 0.3, 0.3, 0.2, 0.7, 0.45, 0.3,
        ],
    );
    check(
        &bank[44],
        "Soft Pad",
        [1, 0, 1, 0],
        [0, 0, 0, 1, 0, 1],
        [
            1.0, 0.0, 0.2, 0.7, 0.0, -0.2, 0.4, 1.0, 0.0, 0.0, 0.0, 1500.0, 0.3, 800.0, 1.0, 1.0,
            0.9, 1.8, 1.0, 0.6, 1.0, 2.0, 0.3, 0.0, 250.0, 0.3, 0.3, 0.2, 0.8, 0.4, 0.3,
        ],
    );
    check(
        &bank[45],
        "Evolving Pad",
        [2, 2, 1, 1],
        [0, 0, 0, 1, 1, 1],
        [
            0.8, 0.0, 0.7, 0.8, 0.0, -0.7, 0.6, 1.0, 0.3, 0.0, 0.0, 700.0, 2.0, 3000.0, 1.5, 2.0,
            0.75, 2.2, 1.0, 1.0, 1.0, 2.5, 0.08, 0.0, 2000.0, 0.3, 0.45, 0.3, 0.85, 0.4, 0.35,
        ],
    );
    check(
        &bank[46],
        "Octave Pad",
        [2, 2, 1, 0],
        [0, 0, 0, 1, 0, 1],
        [
            0.9, 0.0, 0.3, 0.6, 1.0, -0.3, 0.5, -1.0, 0.0, 0.0, 0.0, 1400.0, 0.7, 1500.0, 0.8, 1.0,
            0.85, 1.5, 0.8, 0.6, 1.0, 1.7, 0.4, 0.0, 400.0, 0.3, 0.3, 0.2, 0.75, 0.45, 0.3,
        ],
    );
    check(
        &bank[47],
        "Detuned Pad",
        [2, 2, 2, 0],
        [0, 0, 0, 1, 1, 1],
        [
            0.9, 0.0, 1.0, 0.9, 0.0, -1.0, 0.7, 0.0, 2.0, 0.0, 0.0, 1000.0, 1.0, 1500.0, 0.9, 1.0,
            0.85, 1.6, 0.9, 0.6, 1.0, 1.8, 0.3, 0.5, 350.0, 0.3, 0.35, 0.25, 0.8, 0.4, 0.3,
        ],
    );
    check(
        &bank[48],
        "Ambient Pad",
        [0, 1, 0, 0],
        [0, 0, 0, 1, 1, 1],
        [
            1.0, 0.0, 0.2, 0.6, 1.0, -0.2, 0.4, 2.0, 0.0, 0.0, 0.0, 2200.0, 0.5, 1200.0, 1.5, 1.5,
            0.85, 2.5, 1.5, 1.0, 1.0, 3.0, 0.1, 0.0, 500.0, 0.3, 0.5, 0.4, 0.95, 0.3, 0.45,
        ],
    );
    check(
        &bank[49],
        "Voltage Pad",
        [2, 3, 2, 0],
        [1, 1, 1, 1, 1, 1],
        [
            0.9, 0.0, 0.5, 0.7, 0.0, -0.5, 0.5, -1.0, 0.0, 0.0, 0.0, 800.0, 2.5, 2500.0, 1.0, 1.5,
            0.8, 2.0, 0.9, 0.8, 1.0, 2.2, 0.2, 0.8, 900.0, 0.3, 0.4, 0.3, 0.85, 0.4, 0.35,
        ],
    );
    check(
        &bank[50],
        "Halo Pad",
        [0, 0, 1, 0],
        [0, 0, 0, 1, 1, 1],
        [
            1.0, 1.0, 0.0, 0.6, 2.0, 0.3, 0.4, 0.0, 0.0, 0.0, 0.0, 3500.0, 0.4, 1000.0, 1.0, 1.2,
            0.85, 2.0, 1.0, 0.8, 1.0, 2.5, 0.15, 0.0, 700.0, 0.3, 0.45, 0.35, 0.95, 0.3, 0.45,
        ],
    );
    check(
        &bank[51],
        "Wide Pad",
        [2, 2, 1, 0],
        [0, 0, 0, 1, 1, 1],
        [
            0.9, 0.0, 2.0, 0.9, 0.0, -2.0, 0.6, 0.0, 4.0, 0.0, 0.0, 1300.0, 0.8, 1500.0, 0.8, 1.0,
            0.85, 1.6, 0.9, 0.6, 1.0, 1.8, 0.35, 0.5, 400.0, 0.3, 0.4, 0.3, 0.85, 0.4, 0.35,
        ],
    );
    check(
        &bank[52],
        "Aurora Pad",
        [1, 0, 2, 1],
        [0, 0, 0, 1, 1, 1],
        [
            0.9, 0.0, 0.3, 0.7, 1.0, -0.3, 0.4, 0.585, 0.0, 0.0, 0.0, 1800.0, 1.5, 2500.0, 1.3,
            1.5, 0.8, 2.2, 1.3, 0.9, 1.0, 2.5, 0.12, 0.0, 1200.0, 0.3, 0.45, 0.35, 0.9, 0.35, 0.4,
        ],
    );
    check(
        &bank[53],
        "Mystic Pad",
        [0, 1, 0, 0],
        [0, 0, 0, 1, 1, 1],
        [
            0.9, 0.0, 0.4, 0.7, 0.585, -0.4, 0.5, 1.585, 0.0, 0.0, 0.0, 1600.0, 1.0, 2000.0, 1.2,
            1.4, 0.8, 2.0, 1.2, 0.8, 1.0, 2.4, 0.18, 0.4, 800.0, 0.3, 0.45, 0.32, 0.9, 0.35, 0.4,
        ],
    );
    check(
        &bank[54],
        "Drawbar Organ",
        [0, 0, 0, 0],
        [0, 0, 0, 1, 0, 1],
        [
            1.0, 0.0, 0.0, 0.7, 1.0, 0.0, 0.5, 1.585, 0.0, 0.0, 0.0, 8000.0, 0.0, 0.0, 0.005, 0.0,
            1.0, 0.05, 0.005, 0.0, 1.0, 0.08, 6.0, 0.5, 0.0, 0.25, 0.3, 0.3, 0.4, 0.5, 0.15,
        ],
    );
    check(
        &bank[55],
        "Rock Organ",
        [0, 0, 3, 0],
        [0, 0, 0, 1, 0, 1],
        [
            1.0, 0.0, 0.0, 0.8, 1.0, 0.0, 0.5, 2.0, 0.0, 0.0, 0.0, 6000.0, 1.0, 0.0, 0.005, 0.0,
            1.0, 0.05, 0.005, 0.0, 1.0, 0.06, 6.5, 0.8, 300.0, 0.25, 0.3, 0.2, 0.4, 0.5, 0.15,
        ],
    );
    check(
        &bank[56],
        "Full Organ",
        [0, 0, 0, 0],
        [0, 0, 0, 1, 0, 1],
        [
            1.0, -1.0, 0.0, 0.8, 0.0, 0.0, 0.6, 1.0, 0.0, 0.0, 0.0, 9000.0, 0.0, 0.0, 0.003, 0.0,
            1.0, 0.04, 0.003, 0.0, 1.0, 0.05, 7.0, 0.6, 0.0, 0.25, 0.3, 0.15, 0.45, 0.5, 0.18,
        ],
    );
    check(
        &bank[57],
        "Electric Piano",
        [0, 0, 1, 0],
        [0, 0, 0, 0, 0, 1],
        [
            1.0, 0.0, 0.0, 0.5, 2.0, 0.0, 0.2, 0.0, 0.0, 0.0, 0.0, 4000.0, 0.3, 1500.0, 0.001, 0.6,
            0.3, 0.4, 0.001, 0.8, 0.3, 0.4, 1.0, 0.0, 0.0, 0.25, 0.25, 0.12, 0.5, 0.45, 0.15,
        ],
    );
    check(
        &bank[58],
        "Soft Clav",
        [3, 3, 2, 0],
        [0, 0, 0, 0, 1, 1],
        [
            1.0, 0.0, 0.0, 0.4, 1.0, 0.2, 0.0, 0.0, 0.0, 0.0, 0.0, 1200.0, 2.5, 3000.0, 0.001,
            0.25, 0.1, 0.15, 0.001, 0.3, 0.2, 0.15, 1.0, 0.0, 0.0, 0.22, 0.3, 0.15, 0.4, 0.5, 0.1,
        ],
    );
    check(
        &bank[59],
        "Pipe Organ",
        [0, 0, 0, 0],
        [0, 0, 0, 0, 0, 1],
        [
            1.0, 0.0, 0.0, 0.6, 1.0, 0.0, 0.4, 2.0, 0.0, 0.0, 0.0, 7000.0, 0.0, 0.0, 0.05, 0.0,
            1.0, 0.15, 0.05, 0.0, 1.0, 0.2, 1.0, 0.0, 0.0, 0.25, 0.3, 0.15, 0.9, 0.4, 0.4,
        ],
    );
    check(
        &bank[60],
        "Church Organ",
        [0, 0, 0, 0],
        [0, 0, 0, 0, 0, 1],
        [
            1.0, -1.0, 0.0, 0.7, 0.0, 0.0, 0.5, 1.585, 0.0, 0.0, 0.0, 6500.0, 0.0, 0.0, 0.08, 0.0,
            1.0, 0.2, 0.08, 0.0, 1.0, 0.25, 1.0, 0.0, 0.0, 0.3, 0.3, 0.15, 0.95, 0.35, 0.45,
        ],
    );
    check(
        &bank[61],
        "Jazz Organ",
        [0, 0, 0, 0],
        [0, 0, 0, 1, 0, 1],
        [
            1.0, 0.0, 0.0, 0.6, 1.0, 0.0, 0.7, 0.585, 0.0, 0.0, 0.0, 7500.0, 0.5, 0.0, 0.004, 0.0,
            1.0, 0.05, 0.004, 0.0, 1.0, 0.06, 6.5, 0.7, 150.0, 0.25, 0.3, 0.15, 0.5, 0.5, 0.18,
        ],
    );
    check(
        &bank[62],
        "Percussive Organ",
        [0, 0, 0, 0],
        [0, 0, 0, 1, 0, 1],
        [
            1.0, 0.0, 0.0, 0.5, 2.0, 0.0, 0.7, 1.0, 0.0, 0.0, 0.0, 8000.0, 0.5, 2000.0, 0.001,
            0.15, 1.0, 0.05, 0.001, 0.2, 0.8, 0.06, 6.0, 0.5, 0.0, 0.25, 0.3, 0.12, 0.4, 0.5, 0.12,
        ],
    );
    check(
        &bank[63],
        "Combo Organ",
        [3, 3, 2, 0],
        [0, 0, 0, 1, 0, 1],
        [
            1.0, 0.0, 0.0, 0.6, 1.0, 0.0, 0.3, 2.0, 0.0, 0.0, 0.0, 5000.0, 0.5, 0.0, 0.005, 0.0,
            1.0, 0.05, 0.005, 0.0, 1.0, 0.06, 6.5, 1.0, 200.0, 0.25, 0.3, 0.15, 0.4, 0.5, 0.12,
        ],
    );
    check(
        &bank[64],
        "Reed Organ",
        [2, 0, 1, 0],
        [0, 0, 0, 1, 0, 1],
        [
            0.8, 0.0, 0.0, 0.7, 1.0, 0.2, 0.4, 0.0, -0.2, 0.0, 0.0, 4500.0, 0.5, 500.0, 0.04, 0.0,
            1.0, 0.12, 0.04, 0.0, 1.0, 0.15, 5.0, 0.6, 0.0, 0.25, 0.3, 0.15, 0.6, 0.5, 0.2,
        ],
    );
    check(
        &bank[65],
        "Tonewheel",
        [0, 0, 0, 0],
        [0, 0, 0, 1, 0, 1],
        [
            1.0, 0.0, 0.0, 0.8, 1.0, 0.0, 0.6, 2.585, 0.0, 0.0, 0.0, 8500.0, 0.0, 0.0, 0.004, 0.0,
            1.0, 0.05, 0.004, 0.0, 1.0, 0.06, 7.2, 0.7, 250.0, 0.25, 0.3, 0.12, 0.45, 0.5, 0.15,
        ],
    );
    check(
        &bank[66],
        "Bell Piano",
        [0, 0, 1, 0],
        [0, 0, 0, 0, 1, 1],
        [
            1.0, 0.0, 0.0, 0.5, 2.0, 1.0, 0.3, 1.0, 0.0, 0.0, 0.0, 5000.0, 0.2, 1000.0, 0.001, 1.0,
            0.2, 0.6, 0.001, 1.0, 0.2, 0.8, 1.0, 0.0, 0.0, 0.3, 0.3, 0.2, 0.6, 0.4, 0.25,
        ],
    );
    check(
        &bank[67],
        "Synth Clav",
        [3, 2, 3, 0],
        [0, 0, 0, 0, 1, 1],
        [
            1.0, 0.0, 0.0, 0.5, 0.0, 0.3, 0.3, 1.0, 0.0, 0.0, 0.0, 1500.0, 3.0, 4000.0, 0.001, 0.2,
            0.0, 0.12, 0.001, 0.25, 0.0, 0.12, 1.0, 0.0, 0.0, 0.2, 0.3, 0.15, 0.4, 0.5, 0.1,
        ],
    );
    check(
        &bank[68],
        "Snappy Pluck",
        [2, 3, 2, 0],
        [0, 0, 0, 0, 1, 1],
        [
            1.0, 0.0, 0.0, 0.5, 0.0, 0.3, 0.0, 0.0, 0.0, 0.0, 0.0, 300.0, 3.0, 5000.0, 0.001, 0.18,
            0.0, 0.15, 0.001, 0.25, 0.0, 0.2, 1.0, 0.0, 0.0, 0.25, 0.35, 0.3, 0.4, 0.5, 0.1,
        ],
    );
    check(
        &bank[69],
        "Nylon Pluck",
        [1, 0, 2, 0],
        [0, 0, 0, 0, 1, 1],
        [
            1.0, 0.0, 0.0, 0.5, 1.0, 0.0, 0.0, 0.0, 0.0, 0.0, 0.0, 2500.0, 0.5, 2000.0, 0.001, 0.4,
            0.0, 0.3, 0.001, 0.5, 0.0, 0.3, 1.0, 0.0, 0.0, 0.25, 0.25, 0.15, 0.5, 0.45, 0.18,
        ],
    );
    check(
        &bank[70],
        "Synth Pluck",
        [2, 2, 3, 0],
        [0, 0, 0, 0, 1, 1],
        [
            1.0, 0.0, 0.0, 0.5, 0.0, 3.0, 0.3, 1.0, 0.0, 0.0, 0.0, 800.0, 2.0, 4000.0, 0.001, 0.25,
            0.0, 0.2, 0.001, 0.3, 0.0, 0.25, 1.0, 0.0, 0.0, 0.3, 0.35, 0.3, 0.5, 0.5, 0.15,
        ],
    );
    check(
        &bank[71],
        "Glass Pluck",
        [0, 0, 1, 0],
        [0, 0, 0, 0, 1, 1],
        [
            1.0, 0.0, 0.0, 0.5, 2.0, 0.0, 0.3, 1.0, 0.0, 0.0, 0.0, 5000.0, 0.5, 2000.0, 0.001, 0.3,
            0.0, 0.3, 0.001, 0.4, 0.0, 0.4, 1.0, 0.0, 0.0, 0.3, 0.35, 0.3, 0.65, 0.4, 0.25,
        ],
    );
    check(
        &bank[72],
        "Square Pluck",
        [3, 3, 2, 0],
        [0, 0, 0, 0, 1, 1],
        [
            1.0, 0.0, 0.0, 0.4, 1.0, 0.2, 0.0, 0.0, 0.0, 0.0, 0.0, 1000.0, 1.5, 3500.0, 0.001, 0.2,
            0.0, 0.18, 0.001, 0.25, 0.0, 0.2, 1.0, 0.0, 0.0, 0.28, 0.35, 0.28, 0.45, 0.5, 0.12,
        ],
    );
    check(
        &bank[73],
        "Koto Pluck",
        [1, 2, 0, 0],
        [0, 0, 0, 0, 1, 1],
        [
            1.0, 0.0, 0.0, 0.3, 0.0, 0.5, 0.3, 1.0, 0.0, 0.0, 0.0, 3000.0, 1.0, 3000.0, 0.001, 0.3,
            0.0, 0.25, 0.001, 0.4, 0.0, 0.3, 1.0, 0.0, 0.0, 0.3, 0.3, 0.2, 0.55, 0.45, 0.2,
        ],
    );
    check(
        &bank[74],
        "Harp Pluck",
        [0, 1, 0, 0],
        [0, 0, 0, 0, 1, 1],
        [
            1.0, 0.0, 0.0, 0.5, 1.0, 0.0, 0.3, 2.0, 0.0, 0.0, 0.0, 4000.0, 0.3, 2000.0, 0.001, 0.6,
            0.0, 0.5, 0.001, 0.7, 0.0, 0.6, 1.0, 0.0, 0.0, 0.3, 0.3, 0.2, 0.7, 0.4, 0.25,
        ],
    );
    check(
        &bank[75],
        "Muted Pluck",
        [1, 3, 2, 0],
        [0, 0, 0, 0, 1, 1],
        [
            1.0, 0.0, 0.0, 0.3, 0.0, 0.2, 0.0, 0.0, 0.0, 0.0, 0.0, 900.0, 1.5, 1500.0, 0.001, 0.12,
            0.0, 0.1, 0.001, 0.15, 0.0, 0.12, 1.0, 0.0, 0.0, 0.25, 0.3, 0.15, 0.4, 0.5, 0.08,
        ],
    );
    check(
        &bank[76],
        "Bright Pluck",
        [2, 2, 2, 0],
        [0, 0, 0, 0, 1, 1],
        [
            1.0, 0.0, 0.0, 0.6, 1.0, 2.0, 0.0, 0.0, 0.0, 0.0, 0.0, 6000.0, 1.0, 3000.0, 0.001, 0.2,
            0.0, 0.2, 0.001, 0.25, 0.0, 0.22, 1.0, 0.0, 0.0, 0.3, 0.35, 0.3, 0.5, 0.45, 0.15,
        ],
    );
    check(
        &bank[77],
        "Bass Pluck",
        [2, 3, 2, 0],
        [0, 0, 0, 0, 1, 1],
        [
            1.0, -1.0, 0.0, 0.5, -1.0, 0.3, 0.0, 0.0, 0.0, 0.0, 0.0, 500.0, 2.5, 4000.0, 0.001,
            0.2, 0.0, 0.15, 0.001, 0.25, 0.0, 0.18, 1.0, 0.0, 0.0, 0.25, 0.3, 0.2, 0.4, 0.5, 0.1,
        ],
    );
    check(
        &bank[78],
        "Fat Brass",
        [2, 2, 2, 0],
        [1, 1, 1, 1, 0, 1],
        [
            1.0, 0.0, 0.0, 0.8, 0.0, 3.0, 0.8, 0.0, -3.0, 0.0, 0.0, 400.0, 0.3, 4000.0, 0.08, 0.4,
            0.6, 0.3, 0.03, 0.2, 1.0, 0.3, 5.0, 1.0, 0.0, 0.25, 0.3, 0.3, 0.4, 0.5, 0.12,
        ],
    );
    check(
        &bank[79],
        "PWM Strings",
        [3, 3, 3, 0],
        [0, 0, 0, 1, 0, 1],
        [
            0.9, 0.0, 0.5, 0.9, 0.0, -0.5, 0.6, 1.0, 0.3, 0.0, 0.0, 2000.0, 0.2, 1200.0, 0.4, 0.8,
            0.8, 0.8, 0.5, 0.5, 1.0, 0.9, 0.5, 0.5, 300.0, 0.25, 0.3, 0.3, 0.6, 0.5, 0.2,
        ],
    );
    check(
        &bank[80],
        "Synth Brass",
        [2, 3, 2, 0],
        [1, 1, 0, 1, 0, 1],
        [
            1.0, 0.0, 0.0, 0.6, 0.0, 1.0, 0.5, 1.0, 0.0, 0.0, 0.0, 600.0, 1.5, 4500.0, 0.05, 0.3,
            0.7, 0.25, 0.04, 0.2, 1.0, 0.25, 5.0, 1.2, 0.0, 0.25, 0.3, 0.2, 0.45, 0.5, 0.15,
        ],
    );
    check(
        &bank[81],
        "Brass Section",
        [2, 2, 2, 0],
        [1, 1, 1, 1, 1, 1],
        [
            1.0, 0.0, 2.0, 0.9, 0.0, -2.0, 0.7, 1.0, 0.0, 0.0, 0.0, 700.0, 1.0, 4000.0, 0.07, 0.4,
            0.7, 0.3, 0.06, 0.25, 1.0, 0.3, 5.2, 1.5, 0.0, 0.25, 0.3, 0.2, 0.5, 0.5, 0.18,
        ],
    );
    check(
        &bank[82],
        "Soft Strings",
        [2, 2, 1, 0],
        [0, 0, 0, 1, 0, 1],
        [
            0.8, 0.0, 0.4, 0.8, 0.0, -0.4, 0.5, 1.0, 0.0, 0.0, 0.0, 1800.0, 0.5, 1200.0, 0.5, 0.8,
            0.85, 1.0, 0.6, 0.5, 1.0, 1.2, 0.4, 0.4, 300.0, 0.3, 0.3, 0.2, 0.75, 0.45, 0.3,
        ],
    );
    check(
        &bank[83],
        "Saw Strings",
        [2, 2, 2, 0],
        [0, 0, 0, 1, 0, 1],
        [
            0.9, 0.0, 0.6, 0.9, 0.0, -0.6, 0.6, 0.0, 1.5, 0.0, 0.0, 2200.0, 0.7, 1500.0, 0.4, 0.7,
            0.85, 0.9, 0.5, 0.5, 1.0, 1.0, 0.5, 0.5, 350.0, 0.3, 0.3, 0.2, 0.7, 0.45, 0.28,
        ],
    );
    check(
        &bank[84],
        "Octave Brass",
        [2, 2, 3, 0],
        [1, 1, 0, 1, 1, 1],
        [
            1.0, 0.0, 0.0, 0.7, 1.0, 2.0, 0.5, -1.0, 0.0, 0.0, 0.0, 650.0, 1.2, 4000.0, 0.06, 0.35,
            0.7, 0.3, 0.05, 0.25, 1.0, 0.3, 5.0, 1.2, 0.0, 0.25, 0.3, 0.2, 0.5, 0.5, 0.15,
        ],
    );
    check(
        &bank[85],
        "Trumpet Lead",
        [2, 3, 2, 0],
        [1, 1, 0, 1, 1, 1],
        [
            1.0, 0.0, 0.0, 0.5, 0.0, 0.5, 0.0, 0.0, 0.0, 0.0, 0.3, 800.0, 2.0, 4500.0, 0.04, 0.3,
            0.6, 0.2, 0.03, 0.2, 1.0, 0.2, 5.5, 2.0, 0.0, 0.28, 0.3, 0.2, 0.5, 0.5, 0.18,
        ],
    );
    check(
        &bank[86],
        "Horn Section",
        [2, 2, 1, 0],
        [1, 1, 1, 1, 1, 1],
        [
            1.0, 0.0, 1.0, 0.8, 0.0, -1.0, 0.5, -1.0, 0.0, 0.0, 0.0, 550.0, 0.8, 3500.0, 0.1, 0.5,
            0.7, 0.35, 0.08, 0.3, 1.0, 0.35, 4.8, 1.0, 0.0, 0.25, 0.3, 0.2, 0.55, 0.5, 0.2,
        ],
    );
    check(
        &bank[87],
        "String Ensemble",
        [2, 2, 2, 0],
        [0, 0, 0, 1, 1, 1],
        [
            0.9, 0.0, 0.7, 0.9, 0.0, -0.7, 0.7, 1.0, 0.4, 0.0, 0.0, 2000.0, 0.4, 1500.0, 0.6, 1.0,
            0.85, 1.2, 0.7, 0.6, 1.0, 1.4, 0.45, 0.6, 400.0, 0.3, 0.3, 0.25, 0.8, 0.4, 0.3,
        ],
    );
    check(
        &bank[88],
        "Cinematic Strings",
        [2, 2, 1, 0],
        [0, 0, 0, 1, 1, 1],
        [
            0.9, 0.0, 1.0, 0.9, -1.0, -1.0, 0.6, 0.0, 0.5, 0.0, 0.0, 1500.0, 0.6, 2500.0, 1.2, 1.2,
            0.85, 2.0, 1.0, 0.8, 1.0, 2.2, 0.2, 0.5, 600.0, 0.3, 0.45, 0.3, 0.9, 0.35, 0.4,
        ],
    );
    check(
        &bank[89],
        "Brass Stab",
        [2, 2, 3, 0],
        [1, 1, 0, 0, 1, 1],
        [
            1.0, 0.0, 1.5, 0.8, 0.0, -1.5, 0.6, 0.0, 0.0, 0.0, 0.0, 900.0, 1.5, 4000.0, 0.005, 0.2,
            0.0, 0.15, 0.005, 0.25, 0.0, 0.18, 1.0, 0.0, 0.0, 0.25, 0.3, 0.2, 0.5, 0.5, 0.15,
        ],
    );
    check(
        &bank[90],
        "Crystal Bell",
        [0, 0, 0, 0],
        [0, 0, 0, 0, 1, 1],
        [
            1.0, 0.0, 0.0, 0.5, 1.0, 1.0, 0.3, 2.0, 0.0, 0.0, 0.0, 6000.0, 0.1, 0.0, 0.001, 1.5,
            0.0, 1.5, 0.001, 1.5, 0.0, 1.8, 1.0, 0.0, 0.0, 0.3, 0.25, 0.2, 0.7, 0.4, 0.3,
        ],
    );
    check(
        &bank[91],
        "Glass Bell",
        [0, 0, 1, 0],
        [0, 0, 0, 0, 1, 1],
        [
            1.0, 0.0, 0.0, 0.4, 2.585, 0.0, 0.2, 1.0, 0.0, 0.0, 0.0, 7000.0, 0.2, 0.0, 0.001, 1.2,
            0.0, 1.2, 0.001, 1.2, 0.0, 1.5, 1.0, 0.0, 0.0, 0.3, 0.3, 0.25, 0.8, 0.35, 0.35,
        ],
    );
    check(
        &bank[92],
        "Tubular Bell",
        [0, 0, 0, 0],
        [0, 0, 0, 0, 1, 1],
        [
            1.0, 0.0, 0.0, 0.6, 1.585, 0.0, 0.3, 3.0, 0.0, 0.0, 0.0, 5500.0, 0.1, 0.0, 0.001, 2.5,
            0.1, 2.5, 0.001, 2.5, 0.1, 3.0, 1.0, 0.0, 0.0, 0.3, 0.3, 0.25, 0.9, 0.3, 0.4,
        ],
    );
    check(
        &bank[93],
        "Music Box",
        [0, 0, 1, 0],
        [0, 0, 0, 0, 1, 1],
        [
            1.0, 1.0, 0.0, 0.4, 2.0, 0.5, 0.2, 3.0, 0.0, 0.0, 0.0, 8000.0, 0.2, 0.0, 0.001, 0.8,
            0.0, 0.8, 0.001, 0.8, 0.0, 1.0, 1.0, 0.0, 0.0, 0.3, 0.3, 0.25, 0.75, 0.35, 0.3,
        ],
    );
    check(
        &bank[94],
        "Marimba",
        [0, 0, 1, 0],
        [0, 0, 0, 0, 1, 1],
        [
            1.0, 0.0, 0.0, 0.3, 1.585, 0.0, 0.2, 1.0, 0.0, 0.0, 0.0, 4000.0, 0.3, 1000.0, 0.001,
            0.4, 0.0, 0.3, 0.001, 0.45, 0.0, 0.35, 1.0, 0.0, 0.0, 0.25, 0.25, 0.15, 0.5, 0.45,
            0.18,
        ],
    );
    check(
        &bank[95],
        "Vibraphone",
        [0, 0, 1, 0],
        [1, 1, 0, 1, 1, 1],
        [
            1.0, 0.0, 0.0, 0.4, 2.0, 0.0, 0.2, 1.0, 0.0, 0.0, 0.0, 5000.0, 0.2, 500.0, 0.001, 1.2,
            0.3, 1.0, 0.001, 1.2, 0.3, 1.2, 5.0, 2.0, 0.0, 0.3, 0.3, 0.2, 0.7, 0.4, 0.28,
        ],
    );
    check(
        &bank[96],
        "Kalimba",
        [0, 1, 0, 0],
        [0, 0, 0, 0, 1, 1],
        [
            1.0, 0.0, 0.0, 0.3, 1.0, 0.0, 0.2, 2.585, 0.0, 0.0, 0.0, 3500.0, 0.5, 1500.0, 0.001,
            0.5, 0.0, 0.4, 0.001, 0.5, 0.0, 0.45, 1.0, 0.0, 0.0, 0.28, 0.3, 0.2, 0.55, 0.45, 0.22,
        ],
    );
    check(
        &bank[97],
        "Glockenspiel",
        [0, 0, 0, 0],
        [0, 0, 0, 0, 1, 1],
        [
            1.0, 1.0, 0.0, 0.5, 3.0, 0.0, 0.2, 2.0, 1.0, 0.0, 0.0, 9000.0, 0.1, 0.0, 0.001, 0.7,
            0.0, 0.6, 0.001, 0.7, 0.0, 0.7, 1.0, 0.0, 0.0, 0.3, 0.3, 0.2, 0.8, 0.35, 0.32,
        ],
    );
    check(
        &bank[98],
        "Temple Bell",
        [0, 0, 0, 0],
        [0, 0, 0, 0, 1, 1],
        [
            1.0, 0.0, 0.0, 0.6, 1.585, 2.0, 0.4, 2.585, 0.0, 0.0, 0.0, 4500.0, 0.2, 0.0, 0.001,
            3.0, 0.0, 3.0, 0.001, 3.0, 0.0, 3.5, 1.0, 0.0, 0.0, 0.3, 0.35, 0.3, 0.95, 0.3, 0.45,
        ],
    );
    check(
        &bank[99],
        "Celesta",
        [0, 0, 1, 0],
        [0, 0, 0, 0, 1, 1],
        [
            1.0, 1.0, 0.0, 0.4, 2.0, 0.0, 0.25, 0.0, 0.0, 0.0, 0.0, 7500.0, 0.2, 0.0, 0.001, 1.0,
            0.0, 0.9, 0.001, 1.0, 0.0, 1.0, 1.0, 0.0, 0.0, 0.3, 0.3, 0.2, 0.7, 0.4, 0.3,
        ],
    );
    check(
        &bank[100],
        "Acid Line",
        [2, 2, 2, 0],
        [0, 0, 0, 0, 1, 0],
        [
            1.0, 0.0, 0.0, 0.0, 0.0, 0.0, 0.0, 0.0, 0.0, 0.0, 0.6, 120.0, 6.0, 4000.0, 0.005, 0.25,
            0.2, 0.1, 0.005, 0.2, 1.0, 0.1, 1.0, 0.0, 0.0, 0.18, 0.35, 0.25, 0.5, 0.5, 0.1,
        ],
    );
    check(
        &bank[101],
        "Sequence Saw",
        [2, 2, 2, 0],
        [0, 0, 0, 0, 1, 1],
        [
            1.0, 0.0, 0.0, 0.4, 0.0, 0.4, 0.0, 0.0, 0.0, 0.0, 0.0, 700.0, 3.0, 4000.0, 0.001, 0.18,
            0.0, 0.12, 0.001, 0.2, 0.0, 0.12, 1.0, 0.0, 0.0, 0.1875, 0.4, 0.3, 0.4, 0.5, 0.12,
        ],
    );
    check(
        &bank[102],
        "Pluck Arp",
        [2, 3, 2, 0],
        [0, 0, 0, 0, 1, 1],
        [
            1.0, 0.0, 0.0, 0.4, 1.0, 0.0, 0.0, 0.0, 0.0, 0.0, 0.0, 900.0, 2.0, 4500.0, 0.001, 0.15,
            0.0, 0.1, 0.001, 0.18, 0.0, 0.12, 1.0, 0.0, 0.0, 0.1875, 0.45, 0.35, 0.45, 0.5, 0.15,
        ],
    );
    check(
        &bank[103],
        "Square Arp",
        [3, 3, 2, 0],
        [0, 0, 0, 0, 1, 1],
        [
            1.0, 0.0, 0.0, 0.4, 1.0, 0.2, 0.0, 0.0, 0.0, 0.0, 0.0, 1200.0, 1.5, 3500.0, 0.001,
            0.12, 0.0, 0.1, 0.001, 0.15, 0.0, 0.1, 1.0, 0.0, 0.0, 0.125, 0.45, 0.35, 0.4, 0.5,
            0.12,
        ],
    );
    check(
        &bank[104],
        "Octave Arp",
        [2, 2, 3, 0],
        [0, 0, 0, 0, 1, 1],
        [
            1.0, 0.0, 0.0, 0.5, 1.0, 0.0, 0.3, -1.0, 0.0, 0.0, 0.0, 1000.0, 2.0, 4000.0, 0.001,
            0.15, 0.0, 0.1, 0.001, 0.18, 0.0, 0.12, 1.0, 0.0, 0.0, 0.1875, 0.45, 0.35, 0.45, 0.5,
            0.15,
        ],
    );
    check(
        &bank[105],
        "Digital Arp",
        [3, 2, 0, 0],
        [0, 0, 0, 0, 1, 1],
        [
            1.0, 0.0, 0.0, 0.3, 2.0, 0.0, 0.3, 1.0, 0.0, 0.0, 0.0, 2500.0, 1.0, 3000.0, 0.001, 0.1,
            0.0, 0.08, 0.001, 0.12, 0.0, 0.1, 1.0, 0.0, 0.0, 0.125, 0.5, 0.4, 0.5, 0.45, 0.18,
        ],
    );
    check(
        &bank[106],
        "Soft Arp",
        [1, 0, 2, 0],
        [0, 0, 0, 0, 1, 1],
        [
            1.0, 0.0, 0.0, 0.5, 1.0, 0.0, 0.0, 0.0, 0.0, 0.0, 0.0, 1500.0, 0.5, 2000.0, 0.001,
            0.25, 0.0, 0.2, 0.001, 0.3, 0.0, 0.2, 1.0, 0.0, 0.0, 0.25, 0.4, 0.35, 0.6, 0.45, 0.22,
        ],
    );
    check(
        &bank[107],
        "Chase Sequence",
        [2, 2, 3, 3],
        [0, 0, 0, 1, 1, 1],
        [
            1.0, 0.0, 2.0, 0.7, 0.0, -2.0, 0.4, 1.0, 0.0, 0.0, 0.0, 800.0, 4.0, 4000.0, 0.001,
            0.12, 0.0, 0.1, 0.001, 0.15, 0.0, 0.1, 0.25, 0.0, 2000.0, 0.1875, 0.5, 0.4, 0.5, 0.45,
            0.18,
        ],
    );
    check(
        &bank[108],
        "Sci-Fi Drone",
        [2, 2, 1, 0],
        [1, 1, 1, 1, 1, 1],
        [
            0.9, 0.0, 0.5, 0.9, -1.0, -0.5, 0.6, 1.0, 1.0, 0.0, 0.0, 600.0, 0.4, 2000.0, 2.5, 2.0,
            0.7, 2.5, 2.0, 1.0, 1.0, 3.0, 0.1, 1.0, 800.0, 0.3, 0.45, 0.3, 0.9, 0.3, 0.35,
        ],
    );
    check(
        &bank[109],
        "Deep Drone",
        [2, 2, 0, 0],
        [0, 0, 0, 1, 1, 1],
        [
            1.0, -2.0, 0.5, 0.8, -2.0, -0.5, 0.6, -3.0, 0.0, 0.0, 0.0, 400.0, 1.0, 1000.0, 3.0,
            2.0, 0.8, 3.0, 2.5, 1.5, 1.0, 3.5, 0.05, 0.0, 400.0, 0.3, 0.5, 0.3, 0.95, 0.3, 0.4,
        ],
    );
    check(
        &bank[110],
        "Ocean Drone",
        [1, 0, 2, 0],
        [0, 0, 0, 1, 1, 1],
        [
            0.8, 0.0, 0.3, 0.7, -1.0, -0.3, 0.0, 0.0, 0.0, 0.3, 0.0, 800.0, 1.5, 1500.0, 3.0, 2.5,
            0.7, 3.5, 3.0, 2.0, 1.0, 4.0, 0.07, 0.0, 600.0, 0.3, 0.5, 0.35, 0.95, 0.3, 0.45,
        ],
    );
    check(
        &bank[111],
        "Metallic Drone",
        [3, 2, 3, 0],
        [0, 0, 0, 1, 1, 1],
        [
            0.8, 0.0, 1.0, 0.7, 0.585, -1.0, 0.5, 1.585, 0.0, 0.0, 0.0, 1200.0, 3.0, 2000.0, 2.0,
            2.0, 0.8, 3.0, 1.5, 1.0, 1.0, 3.0, 0.15, 0.0, 1000.0, 0.3, 0.5, 0.35, 0.9, 0.35, 0.4,
        ],
    );
    check(
        &bank[112],
        "Dark Atmosphere",
        [2, 1, 0, 1],
        [0, 0, 0, 1, 1, 1],
        [
            0.9, -1.0, 0.4, 0.7, -2.0, -0.4, 0.5, -1.0, 0.0, 0.1, 0.0, 350.0, 2.0, 1500.0, 3.0,
            2.5, 0.6, 4.0, 2.5, 2.0, 1.0, 4.0, 0.04, 0.0, 700.0, 0.3, 0.55, 0.35, 0.98, 0.25, 0.45,
        ],
    );
    check(
        &bank[113],
        "Space Wind",
        [2, 2, 2, 0],
        [0, 0, 0, 1, 1, 1],
        [
            0.0, 0.0, 0.0, 0.0, 0.0, 0.0, 0.0, 0.0, 0.0, 0.8, 0.0, 600.0, 4.0, 3000.0, 2.5, 2.5,
            0.7, 3.0, 2.5, 1.5, 1.0, 3.5, 0.08, 0.0, 2000.0, 0.3, 0.5, 0.35, 0.95, 0.3, 0.45,
        ],
    );
    check(
        &bank[114],
        "Tension Drone",
        [2, 2, 3, 0],
        [0, 0, 0, 1, 1, 1],
        [
            0.9, 0.0, 0.0, 0.9, 0.585, 6.0, 0.6, 1.0, -6.0, 0.0, 0.0, 700.0, 3.0, 2500.0, 2.0, 2.0,
            0.75, 3.0, 1.8, 1.2, 1.0, 3.0, 0.06, 0.0, 900.0, 0.3, 0.5, 0.3, 0.92, 0.3, 0.4,
        ],
    );
    check(
        &bank[115],
        "Underwater",
        [0, 1, 2, 0],
        [0, 0, 0, 1, 1, 1],
        [
            1.0, -1.0, 0.2, 0.6, 0.0, -0.2, 0.0, 0.0, 0.0, 0.1, 0.0, 500.0, 2.0, 1000.0, 2.0, 2.0,
            0.7, 3.0, 2.0, 1.5, 1.0, 3.0, 0.5, 0.0, 400.0, 0.3, 0.55, 0.4, 0.95, 0.3, 0.45,
        ],
    );
    check(
        &bank[116],
        "Cosmic Wash",
        [0, 0, 1, 0],
        [0, 0, 0, 1, 1, 1],
        [
            0.9, 0.0, 0.3, 0.7, 1.0, -0.3, 0.5, 2.0, 0.5, 0.0, 0.0, 2500.0, 0.5, 2000.0, 2.5, 2.0,
            0.8, 3.5, 2.5, 1.5, 1.0, 4.0, 0.05, 0.0, 1200.0, 0.3, 0.55, 0.4, 0.98, 0.25, 0.5,
        ],
    );
    check(
        &bank[117],
        "Cinematic Pad",
        [2, 2, 0, 0],
        [0, 0, 0, 1, 1, 1],
        [
            0.9, 0.0, 0.8, 0.9, -1.0, -0.8, 0.6, 1.0, 0.0, 0.0, 0.0, 1000.0, 1.0, 3000.0, 2.0, 2.0,
            0.8, 3.0, 1.8, 1.2, 1.0, 3.5, 0.06, 0.0, 1500.0, 0.3, 0.5, 0.35, 0.95, 0.3, 0.45,
        ],
    );
    check(
        &bank[118],
        "Riser FX",
        [2, 2, 2, 1],
        [0, 0, 0, 1, 1, 1],
        [
            0.7, 0.0, 0.0, 0.0, 0.0, 0.0, 0.0, 0.0, 0.0, 0.5, 0.0, 200.0, 4.0, 6000.0, 2.0, 2.0,
            1.0, 1.0, 1.5, 0.5, 1.0, 0.5, 0.2, 0.0, 2000.0, 0.3, 0.4, 0.3, 0.8, 0.4, 0.3,
        ],
    );
    check(
        &bank[119],
        "Down Sweep",
        [2, 3, 2, 2],
        [0, 0, 0, 1, 1, 1],
        [
            0.8, 1.0, 0.0, 0.5, 0.0, 0.0, 0.0, 0.0, 0.0, 0.2, 0.95, 8000.0, 3.0, -6000.0, 0.001,
            2.0, 0.0, 1.0, 0.001, 2.0, 0.0, 1.0, 0.3, 0.0, 3000.0, 0.3, 0.45, 0.35, 0.85, 0.4,
            0.35,
        ],
    );
    check(
        &bank[120],
        "Laser Zap",
        [3, 2, 2, 2],
        [0, 0, 0, 1, 1, 1],
        [
            1.0, 2.0, 0.0, 0.5, 1.0, 0.0, 0.0, 0.0, 0.0, 0.0, 0.9, 6000.0, 5.0, -4000.0, 0.001,
            0.3, 0.0, 0.2, 0.001, 0.35, 0.0, 0.2, 30.0, 0.0, 3000.0, 0.2, 0.5, 0.4, 0.6, 0.4, 0.25,
        ],
    );
    check(
        &bank[121],
        "Alarm",
        [3, 3, 2, 3],
        [0, 0, 0, 1, 1, 1],
        [
            1.0, 1.0, 0.0, 0.6, 2.0, 0.0, 0.0, 0.0, 0.0, 0.0, 0.0, 4000.0, 2.0, 0.0, 0.005, 0.0,
            1.0, 0.05, 0.005, 0.0, 1.0, 0.05, 4.0, 0.0, 3000.0, 0.25, 0.3, 0.2, 0.5, 0.5, 0.15,
        ],
    );
    check(
        &bank[122],
        "Wind Noise",
        [2, 2, 2, 0],
        [0, 0, 0, 1, 1, 1],
        [
            0.0, 0.0, 0.0, 0.0, 0.0, 0.0, 0.0, 0.0, 0.0, 1.0, 0.0, 800.0, 5.0, 4000.0, 1.0, 1.0,
            0.8, 1.5, 1.0, 0.5, 1.0, 1.5, 0.3, 0.0, 3000.0, 0.3, 0.4, 0.3, 0.9, 0.35, 0.4,
        ],
    );
    check(
        &bank[123],
        "UFO",
        [0, 0, 2, 0],
        [1, 1, 0, 1, 1, 1],
        [
            1.0, 0.0, 0.0, 0.6, 1.0, 0.0, 0.0, 0.0, 0.0, 0.0, 0.0, 3000.0, 4.0, 2000.0, 0.01, 0.5,
            1.0, 0.5, 0.05, 0.3, 1.0, 0.5, 7.0, 15.0, 1500.0, 0.3, 0.5, 0.4, 0.8, 0.4, 0.35,
        ],
    );
    check(
        &bank[124],
        "Synth Kick",
        [0, 0, 2, 0],
        [0, 0, 0, 0, 0, 0],
        [
            1.0, -2.0, 0.0, 0.3, -1.0, 0.0, 0.0, 0.0, 0.0, 0.0, 0.0, 2000.0, 1.0, 4000.0, 0.001,
            0.08, 0.0, 0.08, 0.001, 0.18, 0.0, 0.12, 1.0, 0.0, 0.0, 0.25, 0.3, 0.0, 0.3, 0.5, 0.05,
        ],
    );
    check(
        &bank[125],
        "Synth Tom",
        [0, 1, 2, 0],
        [0, 0, 0, 0, 0, 1],
        [
            1.0, -1.0, 0.0, 0.4, 0.0, 0.0, 0.0, 0.0, 0.0, 0.1, 0.0, 1500.0, 1.5, 3000.0, 0.001,
            0.2, 0.0, 0.15, 0.001, 0.25, 0.0, 0.18, 1.0, 0.0, 0.0, 0.25, 0.3, 0.1, 0.4, 0.5, 0.1,
        ],
    );
    check(
        &bank[126],
        "Zap Snare",
        [1, 2, 2, 0],
        [0, 0, 0, 0, 1, 1],
        [
            0.7, 0.0, 0.0, 0.0, 0.0, 0.0, 0.0, 0.0, 0.0, 0.8, 0.0, 2500.0, 2.0, 3000.0, 0.001,
            0.15, 0.0, 0.12, 0.001, 0.2, 0.0, 0.15, 1.0, 0.0, 0.0, 0.2, 0.3, 0.15, 0.5, 0.5, 0.12,
        ],
    );
    check(
        &bank[127],
        "Noise Hat",
        [2, 2, 2, 0],
        [0, 0, 0, 0, 1, 1],
        [
            0.0, 0.0, 0.0, 0.0, 0.0, 0.0, 0.0, 0.0, 0.0, 1.0, 0.0, 9000.0, 3.0, 0.0, 0.001, 0.05,
            0.0, 0.04, 0.001, 0.06, 0.0, 0.05, 1.0, 0.0, 0.0, 0.18, 0.25, 0.1, 0.4, 0.5, 0.08,
        ],
    );
}
