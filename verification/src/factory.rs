//! The factory bank: 128 presets grouped by category.

use crate::presets::{is_row, preset_from_row, LfoWaveform, Preset, Row, Waveform};
use vstd::array::array_as_slice;
use vstd::prelude::*;

verus! {

/// The bank as it is written down, category after category.
#[verifier::opaque]
pub open spec fn factory_rows() -> Seq<Row> {
    BASS@ + LEADS@ + PADS@ + KEYS@ + PLUCKS@ + BRASS@ + BELLS@ + ARPS@ + DRONES@ + FX@ + DRUMS@
}

/// Puts the presets that `rows` write down into `bank`, from `at` on.
fn fill(bank: &mut [Preset; 128], at: usize, rows: &[Row])
    requires
        at + rows@.len() <= 128,
    ensures
        forall|j: int|
            at <= j < at + rows@.len() ==> is_row(#[trigger] final(bank)@[j], rows@[j - at]),
        forall|j: int|
            0 <= j < 128 && !(at <= j < at + rows@.len()) ==> #[trigger] final(bank)@[j] == old(
                bank,
            )@[j],
{
    let mut i: usize = 0;
    while i < rows.len()
        invariant
            i <= rows@.len(),
            at + rows@.len() <= 128,
            forall|j: int| at <= j < at + i ==> is_row(#[trigger] bank@[j], rows@[j - at]),
            forall|j: int|
                0 <= j < 128 && !(at <= j < at + rows@.len()) ==> #[trigger] bank@[j] == old(
                    bank,
                )@[j],
        decreases rows@.len() - i,
    {
        bank[at + i] = preset_from_row(&rows[i]);
        i += 1;
    }
}

/// The presets that a device starts out with.
pub fn get_default_presets() -> (bank: [Preset; 128])
    ensures
        factory_rows().len() == 128,
        forall|i: int| 0 <= i < 128 ==> is_row(#[trigger] bank@[i], factory_rows()[i]),
{
    reveal(factory_rows);
    let mut bank: [Preset; 128] = [Preset::default(); 128];
    let rows: [Row; 18] = BASS;
    fill(&mut bank, 0, array_as_slice(&rows));
    let rows: [Row; 18] = LEADS;
    fill(&mut bank, 18, array_as_slice(&rows));
    let rows: [Row; 18] = PADS;
    fill(&mut bank, 36, array_as_slice(&rows));
    let rows: [Row; 14] = KEYS;
    fill(&mut bank, 54, array_as_slice(&rows));
    let rows: [Row; 10] = PLUCKS;
    fill(&mut bank, 68, array_as_slice(&rows));
    let rows: [Row; 12] = BRASS;
    fill(&mut bank, 78, array_as_slice(&rows));
    let rows: [Row; 10] = BELLS;
    fill(&mut bank, 90, array_as_slice(&rows));
    let rows: [Row; 8] = ARPS;
    fill(&mut bank, 100, array_as_slice(&rows));
    let rows: [Row; 10] = DRONES;
    fill(&mut bank, 108, array_as_slice(&rows));
    let rows: [Row; 6] = FX;
    fill(&mut bank, 118, array_as_slice(&rows));
    let rows: [Row; 4] = DRUMS;
    fill(&mut bank, 124, array_as_slice(&rows));
    bank
}

/// Basses.
pub const BASS: [Row; 18] = [
    (
        "Moog Bass",
        [
            (Waveform::Saw, 1_0000, -3_0000, 0, false),
            (Waveform::Saw, 4000, -3_0000, 3000, false),
            (Waveform::Square, 5000, -4_0000, 0, false),
        ],
        (0, 0),
        [80_0000, 6000, 3000_0000, 10, 2500, 0, 1000],
        [10, 2000, 8000, 1000],
        (false, 1_0000, LfoWaveform::Sine, 0, 0),
        (2500, 3000, 3000, false),
        (5000, 5000, 1000, false),
    ),
    (
        "Deep Sub",
        [
            (Waveform::Sine, 1_0000, -2_0000, 0, false),
            (Waveform::Sine, 3000, -1_0000, 0, false),
            (Waveform::Saw, 0, 0, 0, false),
        ],
        (0, 0),
        [800_0000, 1000, 0, 10, 1000, 1_0000, 1000],
        [20, 1500, 9000, 1200],
        (false, 1_0000, LfoWaveform::Sine, 0, 0),
        (2500, 3000, 3000, false),
        (5000, 5000, 1000, false),
    ),
    (
        "Reese Bass",
        [
            (Waveform::Saw, 1_0000, -2_0000, 1_5000, false),
            (Waveform::Saw, 1_0000, -2_0000, -1_5000, false),
            (Waveform::Saw, 6000, -1_0000, 4000, false),
        ],
        (0, 0),
        [400_0000, 1_5000, 1500_0000, 50, 4000, 7000, 2000],
        [50, 3000, 9000, 2000],
        (true, 4000, LfoWaveform::Triangle, 0, 300_0000),
        (2500, 3000, 2000, false),
        (4000, 5000, 1000, false),
    ),
    (
        "Acid Bass",
        [
            (Waveform::Saw, 1_0000, -1_0000, 0, false),
            (Waveform::Saw, 0, 0, 0, false),
            (Waveform::Saw, 0, 0, 0, false),
        ],
        (0, 5500),
        [120_0000, 6_0000, 4500_0000, 30, 2000, 1000, 1000],
        [30, 2000, 9000, 1000],
        (false, 1_0000, LfoWaveform::Sine, 0, 0),
        (1800, 3500, 2200, true),
        (4000, 5000, 800, false),
    ),
    (
        "Rubber Bass",
        [
            (Waveform::Square, 1_0000, -2_0000, 0, false),
            (Waveform::Saw, 5000, -1_0000, 2000, false),
            (Waveform::Saw, 0, 0, 0, false),
        ],
        (0, 0),
        [180_0000, 3_0000, 2500_0000, 20, 1800, 2000, 1200],
        [20, 2000, 7000, 1000],
        (false, 1_0000, LfoWaveform::Sine, 0, 0),
        (2500, 3000, 2000, false),
        (4000, 5000, 800, false),
    ),
    (
        "Wobble Bass",
        [
            (Waveform::Saw, 1_0000, -1_0000, 0, false),
            (Waveform::Square, 7000, -1_0000, 3000, false),
            (Waveform::Saw, 5000, -2_0000, 0, false),
        ],
        (0, 0),
        [300_0000, 4_0000, 1000_0000, 50, 3000, 7000, 2000],
        [50, 2000, 9000, 2000],
        (true, 3_0000, LfoWaveform::Sine, 0, 1500_0000),
        (2500, 3000, 3000, false),
        (5000, 5000, 1000, false),
    ),
    (
        "Square Sub",
        [
            (Waveform::Square, 1_0000, -2_0000, 0, false),
            (Waveform::Sine, 5000, -3_0000, 0, false),
            (Waveform::Saw, 0, 0, 0, false),
        ],
        (0, 0),
        [500_0000, 5000, 800_0000, 20, 2000, 8000, 1000],
        [30, 1500, 8500, 1000],
        (false, 1_0000, LfoWaveform::Sine, 0, 0),
        (2500, 3000, 2000, false),
        (4000, 5000, 600, false),
    ),
    (
        "Growl Bass",
        [
            (Waveform::Saw, 1_0000, -2_0000, 2_0000, false),
            (Waveform::Saw, 8000, -2_0000, -2_0000, false),
            (Waveform::Square, 6000, -1_0000, 0, false),
        ],
        (1000, 0),
        [160_0000, 5_0000, 3000_0000, 40, 3000, 4000, 1500],
        [40, 2500, 8000, 1500],
        (true, 6_0000, LfoWaveform::Sine, 0, 600_0000),
        (2000, 3000, 2000, true),
        (4000, 5000, 1000, false),
    ),
    (
        "Pluck Bass",
        [
            (Waveform::Saw, 1_0000, -2_0000, 0, false),
            (Waveform::Square, 5000, -1_0000, 3000, false),
            (Waveform::Saw, 0, 0, 0, false),
        ],
        (0, 0),
        [250_0000, 3_5000, 5000_0000, 10, 1500, 0, 1000],
        [10, 2000, 0, 1200],
        (false, 1_0000, LfoWaveform::Sine, 0, 0),
        (2200, 3000, 2000, true),
        (4000, 5000, 800, false),
    ),
    (
        "FM Bass",
        [
            (Waveform::Sine, 1_0000, -2_0000, 0, false),
            (Waveform::Square, 4000, 0, 5000, false),
            (Waveform::Sine, 3000, -1_0000, 0, false),
        ],
        (0, 0),
        [600_0000, 2_0000, 1200_0000, 10, 2000, 5000, 1200],
        [10, 1800, 7000, 1000],
        (false, 1_0000, LfoWaveform::Sine, 0, 0),
        (2500, 3000, 1500, false),
        (4000, 5000, 700, false),
    ),
    (
        "Detuned Bass",
        [
            (Waveform::Saw, 1_0000, -2_0000, 3_0000, false),
            (Waveform::Saw, 9000, -2_0000, -3_0000, false),
            (Waveform::Sine, 5000, -3_0000, 0, false),
        ],
        (0, 0),
        [350_0000, 2_0000, 1500_0000, 40, 2500, 6000, 1500],
        [40, 2000, 8500, 1500],
        (false, 1_0000, LfoWaveform::Sine, 0, 0),
        (2500, 3000, 2000, false),
        (4000, 5000, 1000, false),
    ),
    (
        "808 Boom",
        [
            (Waveform::Sine, 1_0000, -3_0000, 0, false),
            (Waveform::Sine, 2000, -2_0000, 0, false),
            (Waveform::Saw, 0, 0, 0, false),
        ],
        (0, 5000),
        [1200_0000, 3000, 0, 10, 500, 1_0000, 1000],
        [10, 1_2000, 0, 6000],
        (false, 1_0000, LfoWaveform::Sine, 0, 0),
        (2500, 3000, 1000, false),
        (3000, 5000, 500, false),
    ),
    (
        "Hoover Bass",
        [
            (Waveform::Saw, 1_0000, -1_0000, 4_0000, false),
            (Waveform::Saw, 1_0000, -1_0000, -4_0000, false),
            (Waveform::Square, 7000, -2_0000, 0, true),
        ],
        (0, 3000),
        [450_0000, 3_0000, 2000_0000, 50, 3000, 6000, 2000],
        [50, 2500, 8500, 2000],
        (true, 3000, LfoWaveform::Sine, 6_0000, 500_0000),
        (2500, 3500, 2500, true),
        (5000, 5000, 1200, true),
    ),
    (
        "Dub Bass",
        [
            (Waveform::Sine, 1_0000, -2_0000, 0, false),
            (Waveform::Triangle, 4000, -1_0000, 0, false),
            (Waveform::Saw, 0, 0, 0, false),
        ],
        (0, 2000),
        [220_0000, 1_5000, 600_0000, 100, 3000, 6000, 2000],
        [100, 2500, 7000, 2500],
        (false, 1_0000, LfoWaveform::Sine, 0, 0),
        (3000, 4500, 3500, true),
        (6000, 5000, 1800, true),
    ),
    (
        "Talking Bass",
        [
            (Waveform::Saw, 1_0000, -2_0000, 0, false),
            (Waveform::Square, 6000, -1_0000, 3000, false),
            (Waveform::Saw, 0, 0, 0, false),
        ],
        (0, 0),
        [300_0000, 5_0000, 2500_0000, 50, 2500, 5000, 1500],
        [50, 2000, 8000, 1500],
        (true, 2_5000, LfoWaveform::Triangle, 0, 1800_0000),
        (2500, 3000, 2000, false),
        (4000, 5000, 1000, false),
    ),
    (
        "Synth Bass 1",
        [
            (Waveform::Saw, 1_0000, -2_0000, 0, false),
            (Waveform::Saw, 5000, -2_0000, 5000, false),
            (Waveform::Square, 4000, -1_0000, 0, false),
        ],
        (0, 0),
        [280_0000, 2_5000, 2200_0000, 20, 2200, 4000, 1200],
        [20, 2000, 7500, 1200],
        (false, 1_0000, LfoWaveform::Sine, 0, 0),
        (2500, 3000, 1500, false),
        (4000, 5000, 800, false),
    ),
    (
        "Saw Bass",
        [
            (Waveform::Saw, 1_0000, -2_0000, 0, false),
            (Waveform::Saw, 6000, -3_0000, 0, false),
            (Waveform::Saw, 0, 0, 0, false),
        ],
        (0, 0),
        [220_0000, 2_0000, 1800_0000, 20, 2000, 5000, 1200],
        [20, 1800, 8000, 1200],
        (false, 1_0000, LfoWaveform::Sine, 0, 0),
        (2500, 3000, 1200, false),
        (4000, 5000, 700, false),
    ),
    (
        "Mini Bass",
        [
            (Waveform::Triangle, 1_0000, -2_0000, 0, false),
            (Waveform::Square, 6000, -2_0000, 4000, false),
            (Waveform::Saw, 4000, -1_0000, 0, false),
        ],
        (0, 0),
        [260_0000, 3_0000, 2600_0000, 10, 2000, 3000, 1000],
        [10, 2000, 7000, 1000],
        (false, 1_0000, LfoWaveform::Sine, 0, 0),
        (2500, 3000, 1200, false),
        (4000, 5000, 800, false),
    ),
];

/// Leads.
pub const LEADS: [Row; 18] = [
    (
        "Lucky Man",
        [
            (Waveform::Square, 1_0000, 0, 0, true),
            (Waveform::Square, 7000, 0, 2_0000, true),
            (Waveform::Square, 7000, 0, -2_0000, true),
        ],
        (0, 9200),
        [200_0000, 4000, 3000_0000, 1000, 1_5000, 4000, 5000],
        [500, 2000, 1_0000, 5000],
        (true, 5_0000, LfoWaveform::Sine, 2_0000, 0),
        (3000, 3000, 3000, true),
        (5000, 5000, 1000, false),
    ),
    (
        "Tom Sawyer",
        [
            (Waveform::Saw, 1_0000, 0, 0, false),
            (Waveform::Saw, 5000, 0, 1_5000, false),
            (Waveform::Saw, 0, 0, 0, false),
        ],
        (0, 0),
        [80_0000, 4500, 5000_0000, 300, 2_0000, 1000, 1000],
        [100, 1000, 1_0000, 2000],
        (false, 1_0000, LfoWaveform::Sine, 0, 0),
        (1500, 2000, 2000, true),
        (3000, 5000, 1000, false),
    ),
    (
        "Moog Scream",
        [
            (Waveform::Saw, 1_0000, 0, 0, true),
            (Waveform::Saw, 6000, 0, 2_5000, true),
            (Waveform::Square, 8000, 0, -2_5000, true),
        ],
        (1500, 8500),
        [100_0000, 7_0000, 6000_0000, 50, 3000, 2000, 2000],
        [50, 2000, 1_0000, 2000],
        (true, 1500, LfoWaveform::Sine, 8_0000, 0),
        (2500, 3000, 3000, false),
        (5000, 5000, 2000, true),
    ),
    (
        "Octavarium Lead",
        [
            (Waveform::Saw, 1_0000, 0, 0, true),
            (Waveform::Saw, 5000, 0, 2_0000, false),
            (Waveform::Square, 3000, 0, 0, false),
        ],
        (0, 9400),
        [500_0000, 6000, 4000_0000, 100, 5000, 6000, 2000],
        [50, 1000, 1_0000, 2000],
        (true, 5_5000, LfoWaveform::Sine, 1_5000, 0),
        (2500, 3000, 3000, true),
        (5000, 5000, 1000, true),
    ),
    (
        "Super Saw Lead",
        [
            (Waveform::Saw, 1_0000, 0, 0, true),
            (Waveform::Saw, 7000, 0, 4_0000, true),
            (Waveform::Saw, 7000, 0, -4_0000, true),
        ],
        (0, 0),
        [3000_0000, 3000, 3000_0000, 100, 5000, 7000, 3000],
        [100, 2000, 1_0000, 3000],
        (true, 5_5000, LfoWaveform::Sine, 1_5000, 0),
        (3000, 3000, 3000, true),
        (4000, 5000, 1000, true),
    ),
    (
        "Square Lead",
        [
            (Waveform::Square, 1_0000, 0, 0, true),
            (Waveform::Square, 4000, 1_0000, 0, false),
            (Waveform::Saw, 0, 0, 0, false),
        ],
        (0, 0),
        [2500_0000, 5000, 2000_0000, 50, 3000, 8000, 2000],
        [50, 1500, 1_0000, 2000],
        (true, 5_0000, LfoWaveform::Sine, 1_2000, 0),
        (3000, 3000, 2500, true),
        (4000, 5000, 1000, true),
    ),
    (
        "Mini Lead",
        [
            (Waveform::Saw, 1_0000, 0, 0, true),
            (Waveform::Saw, 6000, 0, 5000, false),
            (Waveform::Triangle, 4000, 1_0000, 0, false),
        ],
        (0, 4000),
        [1800_0000, 2_0000, 2500_0000, 50, 4000, 7000, 2000],
        [50, 2000, 1_0000, 2000],
        (true, 5_5000, LfoWaveform::Sine, 1_5000, 0),
        (3000, 3000, 2000, true),
        (4000, 5000, 1000, true),
    ),
    (
        "Sync Lead",
        [
            (Waveform::Saw, 1_0000, 0, 0, true),
            (Waveform::Square, 7000, 1_0000, 7_0000, false),
            (Waveform::Saw, 4000, 0, -3_0000, false),
        ],
        (0, 0),
        [1200_0000, 4_0000, 4000_0000, 50, 5000, 6000, 2000],
        [50, 2000, 1_0000, 2000],
        (true, 5_0000, LfoWaveform::Sine, 1_0000, 1500_0000),
        (2800, 3000, 2500, true),
        (4000, 5000, 1000, true),
    ),
    (
        "Whistle Lead",
        [
            (Waveform::Sine, 1_0000, 1_0000, 0, true),
            (Waveform::Sine, 3000, 2_0000, 0, false),
            (Waveform::Saw, 0, 0, 0, false),
        ],
        (0, 3000),
        [4000_0000, 1_0000, 1000_0000, 200, 3000, 9000, 2000],
        [200, 2000, 1_0000, 2500],
        (true, 6_0000, LfoWaveform::Sine, 2_5000, 0),
        (3000, 3500, 3000, true),
        (6000, 4000, 2000, true),
    ),
    (
        "Portamento Lead",
        [
            (Waveform::Saw, 1_0000, 0, 0, true),
            (Waveform::Square, 6000, 0, 0, false),
            (Waveform::Saw, 0, 0, 0, false),
        ],
        (0, 9500),
        [900_0000, 3_0000, 3500_0000, 100, 5000, 7000, 2500],
        [100, 2000, 1_0000, 3000],
        (true, 5_0000, LfoWaveform::Sine, 2_0000, 0),
        (3000, 3500, 3000, true),
        (5000, 5000, 1500, true),
    ),
    (
        "Bright Saw Lead",
        [
            (Waveform::Saw, 1_0000, 0, 0, true),
            (Waveform::Saw, 5000, 1_0000, 2_0000, true),
            (Waveform::Saw, 0, 0, 0, false),
        ],
        (0, 0),
        [5000_0000, 1_0000, 2000_0000, 50, 3000, 8000, 2000],
        [50, 1500, 1_0000, 2000],
        (true, 5_5000, LfoWaveform::Sine, 1_2000, 0),
        (3000, 3000, 2500, true),
        (4000, 5000, 1000, true),
    ),
    (
        "Soft Lead",
        [
            (Waveform::Triangle, 1_0000, 0, 0, true),
            (Waveform::Sine, 5000, 1_0000, 0, false),
            (Waveform::Saw, 0, 0, 0, false),
        ],
        (0, 2000),
        [2500_0000, 5000, 1500_0000, 300, 4000, 9000, 3000],
        [300, 2000, 1_0000, 3500],
        (true, 5_0000, LfoWaveform::Sine, 1_0000, 0),
        (3000, 3000, 2500, true),
        (5000, 4000, 2000, true),
    ),
    (
        "Fifth Lead",
        [
            (Waveform::Saw, 1_0000, 0, 0, true),
            (Waveform::Saw, 7000, 5850, 0, false),
            (Waveform::Square, 4000, 1_0000, 0, false),
        ],
        (0, 0),
        [2200_0000, 1_5000, 2500_0000, 80, 4000, 7000, 2000],
        [80, 2000, 1_0000, 2500],
        (true, 5_2000, LfoWaveform::Sine, 1_5000, 0),
        (3000, 3000, 2500, true),
        (4500, 5000, 1200, true),
    ),
    (
        "Trance Lead",
        [
            (Waveform::Saw, 1_0000, 0, 5_0000, true),
            (Waveform::Saw, 1_0000, 0, -5_0000, true),
            (Waveform::Saw, 7000, 1_0000, 0, true),
        ],
        (0, 0),
        [2800_0000, 2_0000, 3500_0000, 50, 4000, 8000, 2500],
        [50, 2000, 1_0000, 3000],
        (true, 6_0000, LfoWaveform::Sine, 1_5000, 800_0000),
        (3000, 4000, 3500, true),
        (6000, 4000, 2000, true),
    ),
    (
        "Screaming Lead",
        [
            (Waveform::Saw, 1_0000, 0, 0, true),
            (Waveform::Saw, 8000, 0, 3_0000, true),
            (Waveform::Square, 7000, 1_0000, -3_0000, true),
        ],
        (500, 5000),
        [700_0000, 8_0000, 6000_0000, 40, 4000, 5000, 2000],
        [40, 2000, 1_0000, 2500],
        (true, 5_5000, LfoWaveform::Sine, 3_0000, 0),
        (3000, 3500, 3000, true),
        (5000, 5000, 1800, true),
    ),
    (
        "Pulse Lead",
        [
            (Waveform::Square, 1_0000, 0, 3000, true),
            (Waveform::Square, 7000, 0, -3000, true),
            (Waveform::Square, 5000, 1_0000, 0, false),
        ],
        (0, 0),
        [2000_0000, 1_5000, 2500_0000, 60, 3500, 8000, 2000],
        [60, 1800, 1_0000, 2200],
        (true, 8000, LfoWaveform::Triangle, 0, 600_0000),
        (3000, 3000, 2500, true),
        (4000, 5000, 1200, true),
    ),
    (
        "Vintage Lead",
        [
            (Waveform::Saw, 1_0000, 0, 0, true),
            (Waveform::Triangle, 6000, 0, 1_0000, false),
            (Waveform::Square, 3000, -1_0000, 0, false),
        ],
        (0, 6000),
        [1500_0000, 2_5000, 3000_0000, 100, 5000, 6000, 2500],
        [100, 2000, 1_0000, 3000],
        (true, 4_8000, LfoWaveform::Sine, 2_0000, 0),
        (3000, 3200, 2800, true),
        (5000, 5000, 1500, true),
    ),
    (
        "Octave Lead",
        [
            (Waveform::Saw, 1_0000, 0, 0, true),
            (Waveform::Saw, 7000, 1_0000, 0, false),
            (Waveform::Saw, 4000, -1_0000, 0, false),
        ],
        (0, 0),
        [2600_0000, 1_0000, 2500_0000, 60, 3500, 8000, 2000],
        [60, 1800, 1_0000, 2200],
        (true, 5_5000, LfoWaveform::Sine, 1_3000, 0),
        (3000, 3000, 2500, true),
        (4000, 5000, 1200, true),
    ),
];

/// Pads.
pub const PADS: [Row; 18] = [
    (
        "Glass Pad",
        [
            (Waveform::Triangle, 9000, 0, 0, false),
            (Waveform::Sine, 7000, 1_0000, 2000, false),
            (Waveform::Triangle, 5000, 0, -2000, false),
        ],
        (0, 0),
        [1200_0000, 2000, 1500_0000, 8000, 1_0000, 8000, 1_5000],
        [9000, 5000, 1_0000, 1_8000],
        (true, 3000, LfoWaveform::Sine, 0, 400_0000),
        (2500, 3000, 3000, false),
        (7000, 4000, 3000, true),
    ),
    (
        "Warm Pad",
        [
            (Waveform::Saw, 8000, 0, 3000, false),
            (Waveform::Saw, 8000, 0, -3000, false),
            (Waveform::Triangle, 5000, -1_0000, 0, false),
        ],
        (0, 0),
        [900_0000, 1_0000, 1200_0000, 1_0000, 1_2000, 8500, 1_8000],
        [1_0000, 6000, 1_0000, 2_0000],
        (true, 2500, LfoWaveform::Sine, 0, 300_0000),
        (3000, 3000, 2000, false),
        (8000, 4000, 3000, true),
    ),
    (
        "String Pad",
        [
            (Waveform::Saw, 9000, 0, 5000, false),
            (Waveform::Saw, 9000, 0, -5000, false),
            (Waveform::Saw, 6000, 1_0000, 2000, false),
        ],
        (0, 0),
        [1600_0000, 5000, 1500_0000, 6000, 1_0000, 8500, 1_2000],
        [7000, 5000, 1_0000, 1_4000],
        (true, 4000, LfoWaveform::Sine, 3000, 400_0000),
        (3000, 3000, 2000, false),
        (7500, 4500, 3000, true),
    ),
    (
        "Choir Pad",
        [
            (Waveform::Sine, 1_0000, 0, 0, false),
            (Waveform::Triangle, 6000, 0, 4000, false),
            (Waveform::Sine, 5000, 1_0000, -4000, false),
        ],
        (500, 0),
        [2000_0000, 1_5000, 1000_0000, 9000, 1_0000, 9000, 1_6000],
        [9000, 6000, 1_0000, 1_8000],
        (true, 5_0000, LfoWaveform::Sine, 1_5000, 200_0000),
        (3000, 3000, 2000, false),
        (8500, 4000, 3500, true),
    ),
    (
        "Sweep Pad",
        [
            (Waveform::Saw, 9000, 0, 4000, false),
            (Waveform::Saw, 7000, 0, -4000, false),
            (Waveform::Square, 5000, -1_0000, 0, false),
        ],
        (0, 0),
        [400_0000, 3_0000, 4000_0000, 2_0000, 2_0000, 8000, 2_0000],
        [8000, 1_0000, 1_0000, 2_0000],
        (true, 1500, LfoWaveform::Sine, 0, 1500_0000),
        (3000, 3500, 3000, true),
        (8000, 4000, 3000, true),
    ),
    (
        "Dark Pad",
        [
            (Waveform::Saw, 9000, -1_0000, 3000, false),
            (Waveform::Triangle, 7000, -1_0000, -3000, false),
            (Waveform::Sine, 5000, -2_0000, 0, false),
        ],
        (0, 0),
        [500_0000, 1_5000, 800_0000, 1_2000, 1_5000, 7000, 2_0000],
        [1_2000, 8000, 1_0000, 2_5000],
        (true, 1200, LfoWaveform::Sine, 0, 250_0000),
        (3000, 4000, 3000, true),
        (9000, 3500, 3500, true),
    ),
    (
        "Shimmer Pad",
        [
            (Waveform::Sine, 1_0000, 0, 0, false),
            (Waveform::Sine, 6000, 1_0000, 3000, false),
            (Waveform::Triangle, 4000, 2_0000, 0, false),
        ],
        (0, 0),
        [3000_0000, 5000, 1500_0000, 7000, 1_0000, 8500, 1_6000],
        [8000, 6000, 1_0000, 2_0000],
        (true, 2000, LfoWaveform::Sine, 0, 800_0000),
        (3000, 4500, 3500, true),
        (9000, 3000, 4000, true),
    ),
    (
        "Analog Pad",
        [
            (Waveform::Saw, 9000, 0, 6000, false),
            (Waveform::Square, 7000, 0, -6000, false),
            (Waveform::Saw, 5000, -1_0000, 0, false),
        ],
        (0, 0),
        [1100_0000, 1_2000, 1500_0000, 7000, 1_0000, 8000, 1_4000],
        [7000, 6000, 1_0000, 1_6000],
        (true, 5000, LfoWaveform::Sine, 4000, 350_0000),
        (3000, 3000, 2000, false),
        (7000, 4500, 3000, true),
    ),
    (
        "Soft Pad",
        [
            (Waveform::Triangle, 1_0000, 0, 2000, false),
            (Waveform::Sine, 7000, 0, -2000, false),
            (Waveform::Triangle, 4000, 1_0000, 0, false),
        ],
        (0, 0),
        [1500_0000, 3000, 800_0000, 1_0000, 1_0000, 9000, 1_8000],
        [1_0000, 6000, 1_0000, 2_0000],
        (true, 3000, LfoWaveform::Sine, 0, 250_0000),
        (3000, 3000, 2000, false),
        (8000, 4000, 3000, true),
    ),
    (
        "Evolving Pad",
        [
            (Waveform::Saw, 8000, 0, 7000, false),
            (Waveform::Saw, 8000, 0, -7000, false),
            (Waveform::Triangle, 6000, 1_0000, 3000, false),
        ],
        (0, 0),
        [700_0000, 2_0000, 3000_0000, 1_5000, 2_0000, 7500, 2_2000],
        [1_0000, 1_0000, 1_0000, 2_5000],
        (true, 800, LfoWaveform::Triangle, 0, 2000_0000),
        (3000, 4500, 3000, true),
        (8500, 4000, 3500, true),
    ),
    (
        "Octave Pad",
        [
            (Waveform::Saw, 9000, 0, 3000, false),
            (Waveform::Saw, 6000, 1_0000, -3000, false),
            (Waveform::Triangle, 5000, -1_0000, 0, false),
        ],
        (0, 0),
        [1400_0000, 7000, 1500_0000, 8000, 1_0000, 8500, 1_5000],
        [8000, 6000, 1_0000, 1_7000],
        (true, 4000, LfoWaveform::Sine, 0, 400_0000),
        (3000, 3000, 2000, false),
        (7500, 4500, 3000, true),
    ),
    (
        "Detuned Pad",
        [
            (Waveform::Saw, 9000, 0, 1_0000, false),
            (Waveform::Saw, 9000, 0, -1_0000, false),
            (Waveform::Saw, 7000, 0, 2_0000, false),
        ],
        (0, 0),
        [1000_0000, 1_0000, 1500_0000, 9000, 1_0000, 8500, 1_6000],
        [9000, 6000, 1_0000, 1_8000],
        (true, 3000, LfoWaveform::Sine, 5000, 350_0000),
        (3000, 3500, 2500, true),
        (8000, 4000, 3000, true),
    ),
    (
        "Ambient Pad",
        [
            (Waveform::Sine, 1_0000, 0, 2000, false),
            (Waveform::Triangle, 6000, 1_0000, -2000, false),
            (Waveform::Sine, 4000, 2_0000, 0, false),
        ],
        (0, 0),
        [2200_0000, 5000, 1200_0000, 1_5000, 1_5000, 8500, 2_5000],
        [1_5000, 1_0000, 1_0000, 3_0000],
        (true, 1000, LfoWaveform::Sine, 0, 500_0000),
        (3000, 5000, 4000, true),
        (9500, 3000, 4500, true),
    ),
    (
        "Voltage Pad",
        [
            (Waveform::Saw, 9000, 0, 5000, true),
            (Waveform::Square, 7000, 0, -5000, true),
            (Waveform::Saw, 5000, -1_0000, 0, true),
        ],
        (0, 0),
        [800_0000, 2_5000, 2500_0000, 1_0000, 1_5000, 8000, 2_0000],
        [9000, 8000, 1_0000, 2_2000],
        (true, 2000, LfoWaveform::Sine, 8000, 900_0000),
        (3000, 4000, 3000, true),
        (8500, 4000, 3500, true),
    ),
    (
        "Halo Pad",
        [
            (Waveform::Sine, 1_0000, 1_0000, 0, false),
            (Waveform::Sine, 6000, 2_0000, 3000, false),
            (Waveform::Triangle, 4000, 0, 0, false),
        ],
        (0, 0),
        [3500_0000, 4000, 1000_0000, 1_0000, 1_2000, 8500, 2_0000],
        [1_0000, 8000, 1_0000, 2_5000],
        (true, 1500, LfoWaveform::Sine, 0, 700_0000),
        (3000, 4500, 3500, true),
        (9500, 3000, 4500, true),
    ),
    (
        "Wide Pad",
        [
            (Waveform::Saw, 9000, 0, 2_0000, false),
            (Waveform::Saw, 9000, 0, -2_0000, false),
            (Waveform::Triangle, 6000, 0, 4_0000, false),
        ],
        (0, 0),
        [1300_0000, 8000, 1500_0000, 8000, 1_0000, 8500, 1_6000],
        [9000, 6000, 1_0000, 1_8000],
        (true, 3500, LfoWaveform::Sine, 5000, 400_0000),
        (3000, 4000, 3000, true),
        (8500, 4000, 3500, true),
    ),
    (
        "Aurora Pad",
        [
            (Waveform::Triangle, 9000, 0, 3000, false),
            (Waveform::Sine, 7000, 1_0000, -3000, false),
            (Waveform::Saw, 4000, 5850, 0, false),
        ],
        (0, 0),
        [1800_0000, 1_5000, 2500_0000, 1_3000, 1_5000, 8000, 2_2000],
        [1_3000, 9000, 1_0000, 2_5000],
        (true, 1200, LfoWaveform::Triangle, 0, 1200_0000),
        (3000, 4500, 3500, true),
        (9000, 3500, 4000, true),
    ),
    (
        "Mystic Pad",
        [
            (Waveform::Sine, 9000, 0, 4000, false),
            (Waveform::Triangle, 7000, 5850, -4000, false),
            (Waveform::Sine, 5000, 1_5850, 0, false),
        ],
        (0, 0),
        [1600_0000, 1_0000, 2000_0000, 1_2000, 1_4000, 8000, 2_0000],
        [1_2000, 8000, 1_0000, 2_4000],
        (true, 1800, LfoWaveform::Sine, 4000, 800_0000),
        (3000, 4500, 3200, true),
        (9000, 3500, 4000, true),
    ),
];

/// Keys and organs.
pub const KEYS: [Row; 14] = [
    (
        "Drawbar Organ",
        [
            (Waveform::Sine, 1_0000, 0, 0, false),
            (Waveform::Sine, 7000, 1_0000, 0, false),
            (Waveform::Sine, 5000, 1_5850, 0, false),
        ],
        (0, 0),
        [8000_0000, 0, 0, 50, 0, 1_0000, 500],
        [50, 0, 1_0000, 800],
        (true, 6_0000, LfoWaveform::Sine, 5000, 0),
        (2500, 3000, 3000, false),
        (4000, 5000, 1500, true),
    ),
    (
        "Rock Organ",
        [
            (Waveform::Sine, 1_0000, 0, 0, false),
            (Waveform::Sine, 8000, 1_0000, 0, false),
            (Waveform::Square, 5000, 2_0000, 0, false),
        ],
        (0, 0),
        [6000_0000, 1_0000, 0, 50, 0, 1_0000, 500],
        [50, 0, 1_0000, 600],
        (true, 6_5000, LfoWaveform::Sine, 8000, 300_0000),
        (2500, 3000, 2000, false),
        (4000, 5000, 1500, true),
    ),
    (
        "Full Organ",
        [
            (Waveform::Sine, 1_0000, -1_0000, 0, false),
            (Waveform::Sine, 8000, 0, 0, false),
            (Waveform::Sine, 6000, 1_0000, 0, false),
        ],
        (0, 0),
        [9000_0000, 0, 0, 30, 0, 1_0000, 400],
        [30, 0, 1_0000, 500],
        (true, 7_0000, LfoWaveform::Sine, 6000, 0),
        (2500, 3000, 1500, false),
        (4500, 5000, 1800, true),
    ),
    (
        "Electric Piano",
        [
            (Waveform::Sine, 1_0000, 0, 0, false),
            (Waveform::Sine, 5000, 2_0000, 0, false),
            (Waveform::Triangle, 2000, 0, 0, false),
        ],
        (0, 0),
        [4000_0000, 3000, 1500_0000, 10, 6000, 3000, 4000],
        [10, 8000, 3000, 4000],
        (false, 1_0000, LfoWaveform::Sine, 0, 0),
        (2500, 2500, 1200, false),
        (5000, 4500, 1500, true),
    ),
    (
        "Soft Clav",
        [
            (Waveform::Square, 1_0000, 0, 0, false),
            (Waveform::Square, 4000, 1_0000, 2000, false),
            (Waveform::Saw, 0, 0, 0, false),
        ],
        (0, 0),
        [1200_0000, 2_5000, 3000_0000, 10, 2500, 1000, 1500],
        [10, 3000, 2000, 1500],
        (false, 1_0000, LfoWaveform::Sine, 0, 0),
        (2200, 3000, 1500, true),
        (4000, 5000, 1000, true),
    ),
    (
        "Pipe Organ",
        [
            (Waveform::Sine, 1_0000, 0, 0, false),
            (Waveform::Sine, 6000, 1_0000, 0, false),
            (Waveform::Sine, 4000, 2_0000, 0, false),
        ],
        (0, 0),
        [7000_0000, 0, 0, 500, 0, 1_0000, 1500],
        [500, 0, 1_0000, 2000],
        (false, 1_0000, LfoWaveform::Sine, 0, 0),
        (2500, 3000, 1500, false),
        (9000, 4000, 4000, true),
    ),
    (
        "Church Organ",
        [
            (Waveform::Sine, 1_0000, -1_0000, 0, false),
            (Waveform::Sine, 7000, 0, 0, false),
            (Waveform::Sine, 5000, 1_5850, 0, false),
        ],
        (0, 0),
        [6500_0000, 0, 0, 800, 0, 1_0000, 2000],
        [800, 0, 1_0000, 2500],
        (false, 1_0000, LfoWaveform::Sine, 0, 0),
        (3000, 3000, 1500, false),
        (9500, 3500, 4500, true),
    ),
    (
        "Jazz Organ",
        [
            (Waveform::Sine, 1_0000, 0, 0, false),
            (Waveform::Sine, 6000, 1_0000, 0, false),
            (Waveform::Sine, 7000, 5850, 0, false),
        ],
        (0, 0),
        [7500_0000, 5000, 0, 40, 0, 1_0000, 500],
        [40, 0, 1_0000, 600],
        (true, 6_5000, LfoWaveform::Sine, 7000, 150_0000),
        (2500, 3000, 1500, false),
        (5000, 5000, 1800, true),
    ),
    (
        "Percussive Organ",
        [
            (Waveform::Sine, 1_0000, 0, 0, false),
            (Waveform::Sine, 5000, 2_0000, 0, false),
            (Waveform::Sine, 7000, 1_0000, 0, false),
        ],
        (0, 0),
        [8000_0000, 5000, 2000_0000, 10, 1500, 1_0000, 500],
        [10, 2000, 8000, 600],
        (true, 6_0000, LfoWaveform::Sine, 5000, 0),
        (2500, 3000, 1200, false),
        (4000, 5000, 1200, true),
    ),
    (
        "Combo Organ",
        [
            (Waveform::Square, 1_0000, 0, 0, false),
            (Waveform::Square, 6000, 1_0000, 0, false),
            (Waveform::Saw, 3000, 2_0000, 0, false),
        ],
        (0, 0),
        [5000_0000, 5000, 0, 50, 0, 1_0000, 500],
        [50, 0, 1_0000, 600],
        (true, 6_5000, LfoWaveform::Sine, 1_0000, 200_0000),
        (2500, 3000, 1500, false),
        (4000, 5000, 1200, true),
    ),
    (
        "Reed Organ",
        [
            (Waveform::Saw, 8000, 0, 0, false),
            (Waveform::Sine, 7000, 1_0000, 2000, false),
            (Waveform::Triangle, 4000, 0, -2000, false),
        ],
        (0, 0),
        [4500_0000, 5000, 500_0000, 400, 0, 1_0000, 1200],
        [400, 0, 1_0000, 1500],
        (true, 5_0000, LfoWaveform::Sine, 6000, 0),
        (2500, 3000, 1500, false),
        (6000, 5000, 2000, true),
    ),
    (
        "Tonewheel",
        [
            (Waveform::Sine, 1_0000, 0, 0, false),
            (Waveform::Sine, 8000, 1_0000, 0, false),
            (Waveform::Sine, 6000, 2_5850, 0, false),
        ],
        (0, 0),
        [8500_0000, 0, 0, 40, 0, 1_0000, 500],
        [40, 0, 1_0000, 600],
        (true, 7_2000, LfoWaveform::Sine, 7000, 250_0000),
        (2500, 3000, 1200, false),
        (4500, 5000, 1500, true),
    ),
    (
        "Bell Piano",
        [
            (Waveform::Sine, 1_0000, 0, 0, false),
            (Waveform::Sine, 5000, 2_0000, 1_0000, false),
            (Waveform::Triangle, 3000, 1_0000, 0, false),
        ],
        (0, 0),
        [5000_0000, 2000, 1000_0000, 10, 1_0000, 2000, 6000],
        [10, 1_0000, 2000, 8000],
        (false, 1_0000, LfoWaveform::Sine, 0, 0),
        (3000, 3000, 2000, true),
        (6000, 4000, 2500, true),
    ),
    (
        "Synth Clav",
        [
            (Waveform::Square, 1_0000, 0, 0, false),
            (Waveform::Saw, 5000, 0, 3000, false),
            (Waveform::Square, 3000, 1_0000, 0, false),
        ],
        (0, 0),
        [1500_0000, 3_0000, 4000_0000, 10, 2000, 0, 1200],
        [10, 2500, 0, 1200],
        (false, 1_0000, LfoWaveform::Sine, 0, 0),
        (2000, 3000, 1500, true),
        (4000, 5000, 1000, true),
    ),
];

/// Plucked sounds.
pub const PLUCKS: [Row; 10] = [
    (
        "Snappy Pluck",
        [
            (Waveform::Saw, 1_0000, 0, 0, false),
            (Waveform::Square, 5000, 0, 3000, false),
            (Waveform::Saw, 0, 0, 0, false),
        ],
        (0, 0),
        [300_0000, 3_0000, 5000_0000, 10, 1800, 0, 1500],
        [10, 2500, 0, 2000],
        (false, 1_0000, LfoWaveform::Sine, 0, 0),
        (2500, 3500, 3000, true),
        (4000, 5000, 1000, true),
    ),
    (
        "Nylon Pluck",
        [
            (Waveform::Triangle, 1_0000, 0, 0, false),
            (Waveform::Sine, 5000, 1_0000, 0, false),
            (Waveform::Saw, 0, 0, 0, false),
        ],
        (0, 0),
        [2500_0000, 5000, 2000_0000, 10, 4000, 0, 3000],
        [10, 5000, 0, 3000],
        (false, 1_0000, LfoWaveform::Sine, 0, 0),
        (2500, 2500, 1500, true),
        (5000, 4500, 1800, true),
    ),
    (
        "Synth Pluck",
        [
            (Waveform::Saw, 1_0000, 0, 0, false),
            (Waveform::Saw, 5000, 0, 3_0000, false),
            (Waveform::Square, 3000, 1_0000, 0, false),
        ],
        (0, 0),
        [800_0000, 2_0000, 4000_0000, 10, 2500, 0, 2000],
        [10, 3000, 0, 2500],
        (false, 1_0000, LfoWaveform::Sine, 0, 0),
        (3000, 3500, 3000, true),
        (5000, 5000, 1500, true),
    ),
    (
        "Glass Pluck",
        [
            (Waveform::Sine, 1_0000, 0, 0, false),
            (Waveform::Sine, 5000, 2_0000, 0, false),
            (Waveform::Triangle, 3000, 1_0000, 0, false),
        ],
        (0, 0),
        [5000_0000, 5000, 2000_0000, 10, 3000, 0, 3000],
        [10, 4000, 0, 4000],
        (false, 1_0000, LfoWaveform::Sine, 0, 0),
        (3000, 3500, 3000, true),
        (6500, 4000, 2500, true),
    ),
    (
        "Square Pluck",
        [
            (Waveform::Square, 1_0000, 0, 0, false),
            (Waveform::Square, 4000, 1_0000, 2000, false),
            (Waveform::Saw, 0, 0, 0, false),
        ],
        (0, 0),
        [1000_0000, 1_5000, 3500_0000, 10, 2000, 0, 1800],
        [10, 2500, 0, 2000],
        (false, 1_0000, LfoWaveform::Sine, 0, 0),
        (2800, 3500, 2800, true),
        (4500, 5000, 1200, true),
    ),
    (
        "Koto Pluck",
        [
            (Waveform::Triangle, 1_0000, 0, 0, false),
            (Waveform::Saw, 3000, 0, 5000, false),
            (Waveform::Sine, 3000, 1_0000, 0, false),
        ],
        (0, 0),
        [3000_0000, 1_0000, 3000_0000, 10, 3000, 0, 2500],
        [10, 4000, 0, 3000],
        (false, 1_0000, LfoWaveform::Sine, 0, 0),
        (3000, 3000, 2000, true),
        (5500, 4500, 2000, true),
    ),
    (
        "Harp Pluck",
        [
            (Waveform::Sine, 1_0000, 0, 0, false),
            (Waveform::Triangle, 5000, 1_0000, 0, false),
            (Waveform::Sine, 3000, 2_0000, 0, false),
        ],
        (0, 0),
        [4000_0000, 3000, 2000_0000, 10, 6000, 0, 5000],
        [10, 7000, 0, 6000],
        (false, 1_0000, LfoWaveform::Sine, 0, 0),
        (3000, 3000, 2000, true),
        (7000, 4000, 2500, true),
    ),
    (
        "Muted Pluck",
        [
            (Waveform::Triangle, 1_0000, 0, 0, false),
            (Waveform::Square, 3000, 0, 2000, false),
            (Waveform::Saw, 0, 0, 0, false),
        ],
        (0, 0),
        [900_0000, 1_5000, 1500_0000, 10, 1200, 0, 1000],
        [10, 1500, 0, 1200],
        (false, 1_0000, LfoWaveform::Sine, 0, 0),
        (2500, 3000, 1500, true),
        (4000, 5000, 800, true),
    ),
    (
        "Bright Pluck",
        [
            (Waveform::Saw, 1_0000, 0, 0, false),
            (Waveform::Saw, 6000, 1_0000, 2_0000, false),
            (Waveform::Saw, 0, 0, 0, false),
        ],
        (0, 0),
        [6000_0000, 1_0000, 3000_0000, 10, 2000, 0, 2000],
        [10, 2500, 0, 2200],
        (false, 1_0000, LfoWaveform::Sine, 0, 0),
        (3000, 3500, 3000, true),
        (5000, 4500, 1500, true),
    ),
    (
        "Bass Pluck",
        [
            (Waveform::Saw, 1_0000, -1_0000, 0, false),
            (Waveform::Square, 5000, -1_0000, 3000, false),
            (Waveform::Saw, 0, 0, 0, false),
        ],
        (0, 0),
        [500_0000, 2_5000, 4000_0000, 10, 2000, 0, 1500],
        [10, 2500, 0, 1800],
        (false, 1_0000, LfoWaveform::Sine, 0, 0),
        (2500, 3000, 2000, true),
        (4000, 5000, 1000, true),
    ),
];

/// Brass and strings.
pub const BRASS: [Row; 12] = [
    (
        "Fat Brass",
        [
            (Waveform::Saw, 1_0000, 0, 0, true),
            (Waveform::Saw, 8000, 0, 3_0000, true),
            (Waveform::Saw, 8000, 0, -3_0000, true),
        ],
        (0, 0),
        [400_0000, 3000, 4000_0000, 800, 4000, 6000, 3000],
        [300, 2000, 1_0000, 3000],
        (true, 5_0000, LfoWaveform::Sine, 1_0000, 0),
        (2500, 3000, 3000, false),
        (4000, 5000, 1200, true),
    ),
    (
        "PWM Strings",
        [
            (Waveform::Square, 9000, 0, 5000, false),
            (Waveform::Square, 9000, 0, -5000, false),
            (Waveform::Square, 6000, 1_0000, 3000, false),
        ],
        (0, 0),
        [2000_0000, 2000, 1200_0000, 4000, 8000, 8000, 8000],
        [5000, 5000, 1_0000, 9000],
        (true, 5000, LfoWaveform::Sine, 5000, 300_0000),
        (2500, 3000, 3000, false),
        (6000, 5000, 2000, true),
    ),
    (
        "Synth Brass",
        [
            (Waveform::Saw, 1_0000, 0, 0, true),
            (Waveform::Square, 6000, 0, 1_0000, true),
            (Waveform::Saw, 5000, 1_0000, 0, false),
        ],
        (0, 0),
        [600_0000, 1_5000, 4500_0000, 500, 3000, 7000, 2500],
        [400, 2000, 1_0000, 2500],
        (true, 5_0000, LfoWaveform::Sine, 1_2000, 0),
        (2500, 3000, 2000, false),
        (4500, 5000, 1500, true),
    ),
    (
        "Brass Section",
        [
            (Waveform::Saw, 1_0000, 0, 2_0000, true),
            (Waveform::Saw, 9000, 0, -2_0000, true),
            (Waveform::Saw, 7000, 1_0000, 0, true),
        ],
        (0, 0),
        [700_0000, 1_0000, 4000_0000, 700, 4000, 7000, 3000],
        [600, 2500, 1_0000, 3000],
        (true, 5_2000, LfoWaveform::Sine, 1_5000, 0),
        (2500, 3000, 2000, true),
        (5000, 5000, 1800, true),
    ),
    (
        "Soft Strings",
        [
            (Waveform::Saw, 8000, 0, 4000, false),
            (Waveform::Saw, 8000, 0, -4000, false),
            (Waveform::Triangle, 5000, 1_0000, 0, false),
        ],
        (0, 0),
        [1800_0000, 5000, 1200_0000, 5000, 8000, 8500, 1_0000],
        [6000, 5000, 1_0000, 1_2000],
        (true, 4000, LfoWaveform::Sine, 4000, 300_0000),
        (3000, 3000, 2000, false),
        (7500, 4500, 3000, true),
    ),
    (
        "Saw Strings",
        [
            (Waveform::Saw, 9000, 0, 6000, false),
            (Waveform::Saw, 9000, 0, -6000, false),
            (Waveform::Saw, 6000, 0, 1_5000, false),
        ],
        (0, 0),
        [2200_0000, 7000, 1500_0000, 4000, 7000, 8500, 9000],
        [5000, 5000, 1_0000, 1_0000],
        (true, 5000, LfoWaveform::Sine, 5000, 350_0000),
        (3000, 3000, 2000, false),
        (7000, 4500, 2800, true),
    ),
    (
        "Octave Brass",
        [
            (Waveform::Saw, 1_0000, 0, 0, true),
            (Waveform::Saw, 7000, 1_0000, 2_0000, true),
            (Waveform::Square, 5000, -1_0000, 0, false),
        ],
        (0, 0),
        [650_0000, 1_2000, 4000_0000, 600, 3500, 7000, 3000],
        [500, 2500, 1_0000, 3000],
        (true, 5_0000, LfoWaveform::Sine, 1_2000, 0),
        (2500, 3000, 2000, true),
        (5000, 5000, 1500, true),
    ),
    (
        "Trumpet Lead",
        [
            (Waveform::Saw, 1_0000, 0, 0, true),
            (Waveform::Square, 5000, 0, 5000, true),
            (Waveform::Saw, 0, 0, 0, false),
        ],
        (0, 3000),
        [800_0000, 2_0000, 4500_0000, 400, 3000, 6000, 2000],
        [300, 2000, 1_0000, 2000],
        (true, 5_5000, LfoWaveform::Sine, 2_0000, 0),
        (2800, 3000, 2000, true),
        (5000, 5000, 1800, true),
    ),
    (
        "Horn Section",
        [
            (Waveform::Saw, 1_0000, 0, 1_0000, true),
            (Waveform::Saw, 8000, 0, -1_0000, true),
            (Waveform::Triangle, 5000, -1_0000, 0, true),
        ],
        (0, 0),
        [550_0000, 8000, 3500_0000, 1000, 5000, 7000, 3500],
        [800, 3000, 1_0000, 3500],
        (true, 4_8000, LfoWaveform::Sine, 1_0000, 0),
        (2500, 3000, 2000, true),
        (5500, 5000, 2000, true),
    ),
    (
        "String Ensemble",
        [
            (Waveform::Saw, 9000, 0, 7000, false),
            (Waveform::Saw, 9000, 0, -7000, false),
            (Waveform::Saw, 7000, 1_0000, 4000, false),
        ],
        (0, 0),
        [2000_0000, 4000, 1500_0000, 6000, 1_0000, 8500, 1_2000],
        [7000, 6000, 1_0000, 1_4000],
        (true, 4500, LfoWaveform::Sine, 6000, 400_0000),
        (3000, 3000, 2500, true),
        (8000, 4000, 3000, true),
    ),
    (
        "Cinematic Strings",
        [
            (Waveform::Saw, 9000, 0, 1_0000, false),
            (Waveform::Saw, 9000, -1_0000, -1_0000, false),
            (Waveform::Triangle, 6000, 0, 5000, false),
        ],
        (0, 0),
        [1500_0000, 6000, 2500_0000, 1_2000, 1_2000, 8500, 2_0000],
        [1_0000, 8000, 1_0000, 2_2000],
        (true, 2000, LfoWaveform::Sine, 5000, 600_0000),
        (3000, 4500, 3000, true),
        (9000, 3500, 4000, true),
    ),
    (
        "Brass Stab",
        [
            (Waveform::Saw, 1_0000, 0, 1_5000, true),
            (Waveform::Saw, 8000, 0, -1_5000, true),
            (Waveform::Square, 6000, 0, 0, false),
        ],
        (0, 0),
        [900_0000, 1_5000, 4000_0000, 50, 2000, 0, 1500],
        [50, 2500, 0, 1800],
        (false, 1_0000, LfoWaveform::Sine, 0, 0),
        (2500, 3000, 2000, true),
        (5000, 5000, 1500, true),
    ),
];

/// Bells and mallets.
pub const BELLS: [Row; 10] = [
    (
        "Crystal Bell",
        [
            (Waveform::Sine, 1_0000, 0, 0, false),
            (Waveform::Sine, 5000, 1_0000, 1_0000, false),
            (Waveform::Sine, 3000, 2_0000, 0, false),
        ],
        (0, 0),
        [6000_0000, 1000, 0, 10, 1_5000, 0, 1_5000],
        [10, 1_5000, 0, 1_8000],
        (false, 1_0000, LfoWaveform::Sine, 0, 0),
        (3000, 2500, 2000, true),
        (7000, 4000, 3000, true),
    ),
    (
        "Glass Bell",
        [
            (Waveform::Sine, 1_0000, 0, 0, false),
            (Waveform::Sine, 4000, 2_5850, 0, false),
            (Waveform::Triangle, 2000, 1_0000, 0, false),
        ],
        (0, 0),
        [7000_0000, 2000, 0, 10, 1_2000, 0, 1_2000],
        [10, 1_2000, 0, 1_5000],
        (false, 1_0000, LfoWaveform::Sine, 0, 0),
        (3000, 3000, 2500, true),
        (8000, 3500, 3500, true),
    ),
    (
        "Tubular Bell",
        [
            (Waveform::Sine, 1_0000, 0, 0, false),
            (Waveform::Sine, 6000, 1_5850, 0, false),
            (Waveform::Sine, 3000, 3_0000, 0, false),
        ],
        (0, 0),
        [5500_0000, 1000, 0, 10, 2_5000, 1000, 2_5000],
        [10, 2_5000, 1000, 3_0000],
        (false, 1_0000, LfoWaveform::Sine, 0, 0),
        (3000, 3000, 2500, true),
        (9000, 3000, 4000, true),
    ),
    (
        "Music Box",
        [
            (Waveform::Sine, 1_0000, 1_0000, 0, false),
            (Waveform::Sine, 4000, 2_0000, 5000, false),
            (Waveform::Triangle, 2000, 3_0000, 0, false),
        ],
        (0, 0),
        [8000_0000, 2000, 0, 10, 8000, 0, 8000],
        [10, 8000, 0, 1_0000],
        (false, 1_0000, LfoWaveform::Sine, 0, 0),
        (3000, 3000, 2500, true),
        (7500, 3500, 3000, true),
    ),
    (
        "Marimba",
        [
            (Waveform::Sine, 1_0000, 0, 0, false),
            (Waveform::Sine, 3000, 1_5850, 0, false),
            (Waveform::Triangle, 2000, 1_0000, 0, false),
        ],
        (0, 0),
        [4000_0000, 3000, 1000_0000, 10, 4000, 0, 3000],
        [10, 4500, 0, 3500],
        (false, 1_0000, LfoWaveform::Sine, 0, 0),
        (2500, 2500, 1500, true),
        (5000, 4500, 1800, true),
    ),
    (
        "Vibraphone",
        [
            (Waveform::Sine, 1_0000, 0, 0, true),
            (Waveform::Sine, 4000, 2_0000, 0, true),
            (Waveform::Triangle, 2000, 1_0000, 0, false),
        ],
        (0, 0),
        [5000_0000, 2000, 500_0000, 10, 1_2000, 3000, 1_0000],
        [10, 1_2000, 3000, 1_2000],
        (true, 5_0000, LfoWaveform::Sine, 2_0000, 0),
        (3000, 3000, 2000, true),
        (7000, 4000, 2800, true),
    ),
    (
        "Kalimba",
        [
            (Waveform::Sine, 1_0000, 0, 0, false),
            (Waveform::Triangle, 3000, 1_0000, 0, false),
            (Waveform::Sine, 2000, 2_5850, 0, false),
        ],
        (0, 0),
        [3500_0000, 5000, 1500_0000, 10, 5000, 0, 4000],
        [10, 5000, 0, 4500],
        (false, 1_0000, LfoWaveform::Sine, 0, 0),
        (2800, 3000, 2000, true),
        (5500, 4500, 2200, true),
    ),
    (
        "Glockenspiel",
        [
            (Waveform::Sine, 1_0000, 1_0000, 0, false),
            (Waveform::Sine, 5000, 3_0000, 0, false),
            (Waveform::Sine, 2000, 2_0000, 1_0000, false),
        ],
        (0, 0),
        [9000_0000, 1000, 0, 10, 7000, 0, 6000],
        [10, 7000, 0, 7000],
        (false, 1_0000, LfoWaveform::Sine, 0, 0),
        (3000, 3000, 2000, true),
        (8000, 3500, 3200, true),
    ),
    (
        "Temple Bell",
        [
            (Waveform::Sine, 1_0000, 0, 0, false),
            (Waveform::Sine, 6000, 1_5850, 2_0000, false),
            (Waveform::Sine, 4000, 2_5850, 0, false),
        ],
        (0, 0),
        [4500_0000, 2000, 0, 10, 3_0000, 0, 3_0000],
        [10, 3_0000, 0, 3_5000],
        (false, 1_0000, LfoWaveform::Sine, 0, 0),
        (3000, 3500, 3000, true),
        (9500, 3000, 4500, true),
    ),
    (
        "Celesta",
        [
            (Waveform::Sine, 1_0000, 1_0000, 0, false),
            (Waveform::Sine, 4000, 2_0000, 0, false),
            (Waveform::Triangle, 2500, 0, 0, false),
        ],
        (0, 0),
        [7500_0000, 2000, 0, 10, 1_0000, 0, 9000],
        [10, 1_0000, 0, 1_0000],
        (false, 1_0000, LfoWaveform::Sine, 0, 0),
        (3000, 3000, 2000, true),
        (7000, 4000, 3000, true),
    ),
];

/// Arpeggios and sequences.
pub const ARPS: [Row; 8] = [
    (
        "Acid Line",
        [
            (Waveform::Saw, 1_0000, 0, 0, false),
            (Waveform::Saw, 0, 0, 0, false),
            (Waveform::Saw, 0, 0, 0, false),
        ],
        (0, 6000),
        [120_0000, 6_0000, 4000_0000, 50, 2500, 2000, 1000],
        [50, 2000, 1_0000, 1000],
        (false, 1_0000, LfoWaveform::Sine, 0, 0),
        (1800, 3500, 2500, true),
        (5000, 5000, 1000, false),
    ),
    (
        "Sequence Saw",
        [
            (Waveform::Saw, 1_0000, 0, 0, false),
            (Waveform::Saw, 4000, 0, 4000, false),
            (Waveform::Saw, 0, 0, 0, false),
        ],
        (0, 0),
        [700_0000, 3_0000, 4000_0000, 10, 1800, 0, 1200],
        [10, 2000, 0, 1200],
        (false, 1_0000, LfoWaveform::Sine, 0, 0),
        (1875, 4000, 3000, true),
        (4000, 5000, 1200, true),
    ),
    (
        "Pluck Arp",
        [
            (Waveform::Saw, 1_0000, 0, 0, false),
            (Waveform::Square, 4000, 1_0000, 0, false),
            (Waveform::Saw, 0, 0, 0, false),
        ],
        (0, 0),
        [900_0000, 2_0000, 4500_0000, 10, 1500, 0, 1000],
        [10, 1800, 0, 1200],
        (false, 1_0000, LfoWaveform::Sine, 0, 0),
        (1875, 4500, 3500, true),
        (4500, 5000, 1500, true),
    ),
    (
        "Square Arp",
        [
            (Waveform::Square, 1_0000, 0, 0, false),
            (Waveform::Square, 4000, 1_0000, 2000, false),
            (Waveform::Saw, 0, 0, 0, false),
        ],
        (0, 0),
        [1200_0000, 1_5000, 3500_0000, 10, 1200, 0, 1000],
        [10, 1500, 0, 1000],
        (false, 1_0000, LfoWaveform::Sine, 0, 0),
        (1250, 4500, 3500, true),
        (4000, 5000, 1200, true),
    ),
    (
        "Octave Arp",
        [
            (Waveform::Saw, 1_0000, 0, 0, false),
            (Waveform::Saw, 5000, 1_0000, 0, false),
            (Waveform::Square, 3000, -1_0000, 0, false),
        ],
        (0, 0),
        [1000_0000, 2_0000, 4000_0000, 10, 1500, 0, 1000],
        [10, 1800, 0, 1200],
        (false, 1_0000, LfoWaveform::Sine, 0, 0),
        (1875, 4500, 3500, true),
        (4500, 5000, 1500, true),
    ),
    (
        "Digital Arp",
        [
            (Waveform::Square, 1_0000, 0, 0, false),
            (Waveform::Saw, 3000, 2_0000, 0, false),
            (Waveform::Sine, 3000, 1_0000, 0, false),
        ],
        (0, 0),
        [2500_0000, 1_0000, 3000_0000, 10, 1000, 0, 800],
        [10, 1200, 0, 1000],
        (false, 1_0000, LfoWaveform::Sine, 0, 0),
        (1250, 5000, 4000, true),
        (5000, 4500, 1800, true),
    ),
    (
        "Soft Arp",
        [
            (Waveform::Triangle, 1_0000, 0, 0, false),
            (Waveform::Sine, 5000, 1_0000, 0, false),
            (Waveform::Saw, 0, 0, 0, false),
        ],
        (0, 0),
        [1500_0000, 5000, 2000_0000, 10, 2500, 0, 2000],
        [10, 3000, 0, 2000],
        (false, 1_0000, LfoWaveform::Sine, 0, 0),
        (2500, 4000, 3500, true),
        (6000, 4500, 2200, true),
    ),
    (
        "Chase Sequence",
        [
            (Waveform::Saw, 1_0000, 0, 2_0000, false),
            (Waveform::Saw, 7000, 0, -2_0000, false),
            (Waveform::Square, 4000, 1_0000, 0, false),
        ],
        (0, 0),
        [800_0000, 4_0000, 4000_0000, 10, 1200, 0, 1000],
        [10, 1500, 0, 1000],
        (true, 2500, LfoWaveform::Square, 0, 2000_0000),
        (1875, 5000, 4000, true),
        (5000, 4500, 1800, true),
    ),
];

/// Drones and atmospheres.
pub const DRONES: [Row; 10] = [
    (
        "Sci-Fi Drone",
        [
            (Waveform::Saw, 9000, 0, 5000, true),
            (Waveform::Saw, 9000, -1_0000, -5000, true),
            (Waveform::Triangle, 6000, 1_0000, 1_0000, true),
        ],
        (0, 0),
        [600_0000, 4000, 2000_0000, 2_5000, 2_0000, 7000, 2_5000],
        [2_0000, 1_0000, 1_0000, 3_0000],
        (true, 1000, LfoWaveform::Sine, 1_0000, 800_0000),
        (3000, 4500, 3000, true),
        (9000, 3000, 3500, true),
    ),
    (
        "Deep Drone",
        [
            (Waveform::Saw, 1_0000, -2_0000, 5000, false),
            (Waveform::Saw, 8000, -2_0000, -5000, false),
            (Waveform::Sine, 6000, -3_0000, 0, false),
        ],
        (0, 0),
        [400_0000, 1_0000, 1000_0000, 3_0000, 2_0000, 8000, 3_0000],
        [2_5000, 1_5000, 1_0000, 3_5000],
        (true, 500, LfoWaveform::Sine, 0, 400_0000),
        (3000, 5000, 3000, true),
        (9500, 3000, 4000, true),
    ),
    (
        "Ocean Drone",
        [
            (Waveform::Triangle, 8000, 0, 3000, false),
            (Waveform::Sine, 7000, -1_0000, -3000, false),
            (Waveform::Saw, 0, 0, 0, false),
        ],
        (3000, 0),
        [800_0000, 1_5000, 1500_0000, 3_0000, 2_5000, 7000, 3_5000],
        [3_0000, 2_0000, 1_0000, 4_0000],
        (true, 700, LfoWaveform::Sine, 0, 600_0000),
        (3000, 5000, 3500, true),
        (9500, 3000, 4500, true),
    ),
    (
        "Metallic Drone",
        [
            (Waveform::Square, 8000, 0, 1_0000, false),
            (Waveform::Saw, 7000, 5850, -1_0000, false),
            (Waveform::Square, 5000, 1_5850, 0, false),
        ],
        (0, 0),
        [1200_0000, 3_0000, 2000_0000, 2_0000, 2_0000, 8000, 3_0000],
        [1_5000, 1_0000, 1_0000, 3_0000],
        (true, 1500, LfoWaveform::Sine, 0, 1000_0000),
        (3000, 5000, 3500, true),
        (9000, 3500, 4000, true),
    ),
    (
        "Dark Atmosphere",
        [
            (Waveform::Saw, 9000, -1_0000, 4000, false),
            (Waveform::Triangle, 7000, -2_0000, -4000, false),
            (Waveform::Sine, 5000, -1_0000, 0, false),
        ],
        (1000, 0),
        [350_0000, 2_0000, 1500_0000, 3_0000, 2_5000, 6000, 4_0000],
        [2_5000, 2_0000, 1_0000, 4_0000],
        (true, 400, LfoWaveform::Triangle, 0, 700_0000),
        (3000, 5500, 3500, true),
        (9800, 2500, 4500, true),
    ),
    (
        "Space Wind",
        [
            (Waveform::Saw, 0, 0, 0, false),
            (Waveform::Saw, 0, 0, 0, false),
            (Waveform::Saw, 0, 0, 0, false),
        ],
        (8000, 0),
        [600_0000, 4_0000, 3000_0000, 2_5000, 2_5000, 7000, 3_0000],
        [2_5000, 1_5000, 1_0000, 3_5000],
        (true, 800, LfoWaveform::Sine, 0, 2000_0000),
        (3000, 5000, 3500, true),
        (9500, 3000, 4500, true),
    ),
    (
        "Tension Drone",
        [
            (Waveform::Saw, 9000, 0, 0, false),
            (Waveform::Saw, 9000, 5850, 6_0000, false),
            (Waveform::Square, 6000, 1_0000, -6_0000, false),
        ],
        (0, 0),
        [700_0000, 3_0000, 2500_0000, 2_0000, 2_0000, 7500, 3_0000],
        [1_8000, 1_2000, 1_0000, 3_0000],
        (true, 600, LfoWaveform::Sine, 0, 900_0000),
        (3000, 5000, 3000, true),
        (9200, 3000, 4000, true),
    ),
    (
        "Underwater",
        [
            (Waveform::Sine, 1_0000, -1_0000, 2000, false),
            (Waveform::Triangle, 6000, 0, -2000, false),
            (Waveform::Saw, 0, 0, 0, false),
        ],
        (1000, 0),
        [500_0000, 2_0000, 1000_0000, 2_0000, 2_0000, 7000, 3_0000],
        [2_0000, 1_5000, 1_0000, 3_0000],
        (true, 5000, LfoWaveform::Sine, 0, 400_0000),
        (3000, 5500, 4000, true),
        (9500, 3000, 4500, true),
    ),
    (
        "Cosmic Wash",
        [
            (Waveform::Sine, 9000, 0, 3000, false),
            (Waveform::Sine, 7000, 1_0000, -3000, false),
            (Waveform::Triangle, 5000, 2_0000, 5000, false),
        ],
        (0, 0),
        [2500_0000, 5000, 2000_0000, 2_5000, 2_0000, 8000, 3_5000],
        [2_5000, 1_5000, 1_0000, 4_0000],
        (true, 500, LfoWaveform::Sine, 0, 1200_0000),
        (3000, 5500, 4000, true),
        (9800, 2500, 5000, true),
    ),
    (
        "Cinematic Pad",
        [
            (Waveform::Saw, 9000, 0, 8000, false),
            (Waveform::Saw, 9000, -1_0000, -8000, false),
            (Waveform::Sine, 6000, 1_0000, 0, false),
        ],
        (0, 0),
        [1000_0000, 1_0000, 3000_0000, 2_0000, 2_0000, 8000, 3_0000],
        [1_8000, 1_2000, 1_0000, 3_5000],
        (true, 600, LfoWaveform::Sine, 0, 1500_0000),
        (3000, 5000, 3500, true),
        (9500, 3000, 4500, true),
    ),
];

/// Sound effects and risers.
pub const FX: [Row; 6] = [
    (
        "Riser FX",
        [
            (Waveform::Saw, 7000, 0, 0, false),
            (Waveform::Saw, 0, 0, 0, false),
            (Waveform::Saw, 0, 0, 0, false),
        ],
        (5000, 0),
        [200_0000, 4_0000, 6000_0000, 2_0000, 2_0000, 1_0000, 1_0000],
        [1_5000, 5000, 1_0000, 5000],
        (true, 2000, LfoWaveform::Triangle, 0, 2000_0000),
        (3000, 4000, 3000, true),
        (8000, 4000, 3000, true),
    ),
    (
        "Down Sweep",
        [
            (Waveform::Saw, 8000, 1_0000, 0, false),
            (Waveform::Square, 5000, 0, 0, false),
            (Waveform::Saw, 0, 0, 0, false),
        ],
        (2000, 9500),
        [8000_0000, 3_0000, -6000_0000, 10, 2_0000, 0, 1_0000],
        [10, 2_0000, 0, 1_0000],
        (true, 3000, LfoWaveform::Saw, 0, 3000_0000),
        (3000, 4500, 3500, true),
        (8500, 4000, 3500, true),
    ),
    (
        "Laser Zap",
        [
            (Waveform::Square, 1_0000, 2_0000, 0, false),
            (Waveform::Saw, 5000, 1_0000, 0, false),
            (Waveform::Saw, 0, 0, 0, false),
        ],
        (0, 9000),
        [6000_0000, 5_0000, -4000_0000, 10, 3000, 0, 2000],
        [10, 3500, 0, 2000],
        (true, 30_0000, LfoWaveform::Saw, 0, 3000_0000),
        (2000, 5000, 4000, true),
        (6000, 4000, 2500, true),
    ),
    (
        "Alarm",
        [
            (Waveform::Square, 1_0000, 1_0000, 0, false),
            (Waveform::Square, 6000, 2_0000, 0, false),
            (Waveform::Saw, 0, 0, 0, false),
        ],
        (0, 0),
        [4000_0000, 2_0000, 0, 50, 0, 1_0000, 500],
        [50, 0, 1_0000, 500],
        (true, 4_0000, LfoWaveform::Square, 0, 3000_0000),
        (2500, 3000, 2000, true),
        (5000, 5000, 1500, true),
    ),
    (
        "Wind Noise",
        [
            (Waveform::Saw, 0, 0, 0, false),
            (Waveform::Saw, 0, 0, 0, false),
            (Waveform::Saw, 0, 0, 0, false),
        ],
        (1_0000, 0),
        [800_0000, 5_0000, 4000_0000, 1_0000, 1_0000, 8000, 1_5000],
        [1_0000, 5000, 1_0000, 1_5000],
        (true, 3000, LfoWaveform::Sine, 0, 3000_0000),
        (3000, 4000, 3000, true),
        (9000, 3500, 4000, true),
    ),
    (
        "UFO",
        [
            (Waveform::Sine, 1_0000, 0, 0, true),
            (Waveform::Sine, 6000, 1_0000, 0, true),
            (Waveform::Saw, 0, 0, 0, false),
        ],
        (0, 0),
        [3000_0000, 4_0000, 2000_0000, 100, 5000, 1_0000, 5000],
        [500, 3000, 1_0000, 5000],
        (true, 7_0000, LfoWaveform::Sine, 15_0000, 1500_0000),
        (3000, 5000, 4000, true),
        (8000, 4000, 3500, true),
    ),
];

/// Percussion and drums.
pub const DRUMS: [Row; 4] = [
    (
        "Synth Kick",
        [
            (Waveform::Sine, 1_0000, -2_0000, 0, false),
            (Waveform::Sine, 3000, -1_0000, 0, false),
            (Waveform::Saw, 0, 0, 0, false),
        ],
        (0, 0),
        [2000_0000, 1_0000, 4000_0000, 10, 800, 0, 800],
        [10, 1800, 0, 1200],
        (false, 1_0000, LfoWaveform::Sine, 0, 0),
        (2500, 3000, 0, false),
        (3000, 5000, 500, false),
    ),
    (
        "Synth Tom",
        [
            (Waveform::Sine, 1_0000, -1_0000, 0, false),
            (Waveform::Triangle, 4000, 0, 0, false),
            (Waveform::Saw, 0, 0, 0, false),
        ],
        (1000, 0),
        [1500_0000, 1_5000, 3000_0000, 10, 2000, 0, 1500],
        [10, 2500, 0, 1800],
        (false, 1_0000, LfoWaveform::Sine, 0, 0),
        (2500, 3000, 1000, false),
        (4000, 5000, 1000, true),
    ),
    (
        "Zap Snare",
        [
            (Waveform::Triangle, 7000, 0, 0, false),
            (Waveform::Saw, 0, 0, 0, false),
            (Waveform::Saw, 0, 0, 0, false),
        ],
        (8000, 0),
        [2500_0000, 2_0000, 3000_0000, 10, 1500, 0, 1200],
        [10, 2000, 0, 1500],
        (false, 1_0000, LfoWaveform::Sine, 0, 0),
        (2000, 3000, 1500, true),
        (5000, 5000, 1200, true),
    ),
    (
        "Noise Hat",
        [
            (Waveform::Saw, 0, 0, 0, false),
            (Waveform::Saw, 0, 0, 0, false),
            (Waveform::Saw, 0, 0, 0, false),
        ],
        (1_0000, 0),
        [9000_0000, 3_0000, 0, 10, 500, 0, 400],
        [10, 600, 0, 500],
        (false, 1_0000, LfoWaveform::Sine, 0, 0),
        (1800, 2500, 1000, true),
        (4000, 5000, 800, true),
    ),
];

} // verus!
