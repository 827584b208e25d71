use picodsp_ble::cc_map::PowerTables;
use picodsp_ble::factory::get_default_presets;
use picodsp_ble::midi::{
    boot_step, decode_message, handle_voice_message, initial_preset, load_and_apply_preset,
    next_preset, split_packets, Boot, Effects, Message, MidiTask, PacketOutcome, PresetAction,
    Readings, Wait,
};
use picodsp_ble::midi_control::MidiControl;
use picodsp_ble::note_stack::NoteStack;
use picodsp_ble::presets::Preset;
use picodsp_ble::storage::{Storage, STORAGE_IMAGE_SIZE};
use picodsp_ble::sysex::{SysexDump, SysexJob};

const ONE: u32 = 0x3F80_0000;

fn freqs() -> [u32; 256] {
    let mut table = [0; 256];
    for (note, bits) in table.iter_mut().enumerate() {
        *bits = (440.0 * ((note as f32 - 69.0) / 12.0).exp2()).to_bits();
    }
    table
}

fn readings(tables: &PowerTables) -> Readings<'_> {
    Readings { bend: 13, tables }
}

fn tables() -> PowerTables {
    PowerTables {
        cutoff_hz: [14; 256],
        octave_factor: [15; 256],
    }
}

struct Player {
    notes: NoteStack,
    control: MidiControl,
    working: Preset,
    index: usize,
}

impl Player {
    fn new() -> Player {
        Player {
            notes: NoteStack::new(),
            control: MidiControl::new(),
            working: Preset::default(),
            index: 4,
        }
    }

    fn play(&mut self, status: u8, d1: u8, d2: u8) -> Effects {
        handle_voice_message(
            status,
            d1,
            d2,
            &freqs(),
            readings(&tables()),
            &mut self.notes,
            &mut self.control,
            &mut self.working,
            &mut self.index,
        )
    }
}

fn effects(led: Option<bool>, preset: PresetAction) -> Effects {
    Effects { led, preset }
}

#[test]
fn messages_on_any_channel() {
    assert_eq!(
        decode_message(0x95, 60, 100),
        Message::NoteOn {
            note: 60,
            velocity: 100
        }
    );
    assert_eq!(decode_message(0x90, 60, 0), Message::NoteOff { note: 60 });
    assert_eq!(decode_message(0x8F, 60, 9), Message::NoteOff { note: 60 });
    assert_eq!(
        decode_message(0xB1, 7, 8),
        Message::Control { cc: 7, value: 8 }
    );
    assert_eq!(decode_message(0xC0, 12, 0), Message::Program { index: 12 });
    assert_eq!(decode_message(0xE0, 0, 64), Message::Bend { bend: 8192 });
    assert_eq!(decode_message(0xE3, 127, 127), Message::Bend { bend: 16383 });
    assert_eq!(decode_message(0xA0, 1, 2), Message::Other);
    assert_eq!(decode_message(0xD0, 1, 2), Message::Other);
    assert_eq!(decode_message(0xF8, 1, 2), Message::Other);
}

#[test]
fn notes_open_and_close_the_gate() {
    let mut p = Player::new();
    assert_eq!(
        p.play(0x90, 69, 100),
        effects(Some(true), PresetAction::Keep)
    );
    assert_eq!(p.control.get_target_freq(), 440.0f32.to_bits());
    assert_eq!(p.control.get_velocity(), (100.0f32 / 127.0).to_bits());
    assert_eq!(p.control.get_gate(), ONE);
    p.play(0x90, 81, 100);
    assert_eq!(p.control.get_target_freq(), 880.0f32.to_bits());
    assert_eq!(p.play(0x80, 81, 0), effects(None, PresetAction::Keep));
    assert_eq!(p.control.get_target_freq(), 440.0f32.to_bits());
    assert_eq!(p.control.get_gate(), ONE);
    assert_eq!(
        p.play(0x90, 69, 0),
        effects(Some(false), PresetAction::Keep)
    );
    assert_eq!(p.control.get_gate(), 0);
    assert!(p.control.take_gate_reset());
}

#[test]
fn sustain_pedal() {
    let mut p = Player::new();
    p.play(0x90, 69, 100);
    assert_eq!(p.play(0xB0, 64, 64), effects(None, PresetAction::Keep));
    assert_eq!(p.play(0x80, 69, 0), effects(None, PresetAction::Keep));
    assert_eq!(p.control.get_gate(), ONE);
    assert_eq!(
        p.play(0xB0, 64, 63),
        effects(Some(false), PresetAction::Keep)
    );
    assert_eq!(p.control.get_gate(), 0);
}

#[test]
fn all_notes_off() {
    for cc in [120, 123] {
        let mut p = Player::new();
        p.play(0x90, 69, 100);
        p.play(0x90, 70, 100);
        p.play(0xE0, 1, 2);
        p.play(0xB0, 1, 99);
        assert_eq!(p.control.get_pitch_bend(), 13);
        assert_eq!(p.control.get_mod_wheel(), (99.0f32 / 127.0).to_bits());
        assert_eq!(
            p.play(0xB0, cc, 0),
            effects(Some(false), PresetAction::Keep)
        );
        assert_eq!(p.notes.active_note(), None);
        assert_eq!(p.control.get_gate(), 0);
        assert_eq!(p.control.get_pitch_bend(), ONE);
        assert_eq!(p.control.get_mod_wheel(), 0);
    }
}

#[test]
fn velocity_is_kept_between_notes() {
    let mut p = Player::new();
    p.play(0x90, 69, 100);
    for (status, d1, d2) in [(0x80, 69, 0), (0xB0, 74, 3), (0xB0, 123, 0), (0xE0, 1, 1)] {
        p.play(status, d1, d2);
        assert_eq!(p.control.get_velocity(), (100.0f32 / 127.0).to_bits());
    }
}

#[test]
fn velocity_ends_at_one() {
    let mut p = Player::new();
    let mut last = 0.0;
    for velocity in 1..=127 {
        p.play(0x90, 60, velocity);
        let now = f32::from_bits(p.control.get_velocity());
        assert!(last < now);
        last = now;
    }
    assert_eq!(last, 1.0);
    p.play(0x90, 60, 200);
    assert_eq!(p.control.get_velocity(), ONE);
}

#[test]
fn controllers_reach_the_sound() {
    let mut p = Player::new();
    assert_eq!(p.play(0xB0, 74, 64), effects(None, PresetAction::Keep));
    assert_eq!(p.control.get_parameter_1(), (64.0f32 / 127.0).to_bits());
    assert_eq!(p.working.filter.cutoff, 14);
    assert_eq!(p.play(0xB0, 111, 1), effects(None, PresetAction::Rebuild));
    assert_eq!(p.working.osc1.waveform, 1);
    assert_eq!(p.play(0xB0, 2, 1), effects(None, PresetAction::Keep));
}

#[test]
fn program_change_selects() {
    let mut p = Player::new();
    assert_eq!(
        p.play(0xC0, 12, 0),
        effects(None, PresetAction::Load { index: 12 })
    );
    assert_eq!(p.index, 12);
}

#[test]
fn soft_pedal_taps() {
    let mut p = Player::new();
    assert_eq!(p.play(0xB0, 67, 127), effects(None, PresetAction::Keep));
    assert_eq!(p.play(0xB0, 67, 100), effects(None, PresetAction::Keep));
    assert_eq!(p.play(0xB0, 67, 0), effects(None, PresetAction::Next));
    assert_eq!(p.play(0xB0, 67, 0), effects(None, PresetAction::Keep));
}

#[test]
fn next_preset_goes_round() {
    let mut index = 4;
    for expected in (5..128).chain(0..5) {
        assert_eq!(next_preset(&mut index, 128), Some(expected));
    }
    assert_eq!(index, 4);
    let mut index = 200;
    assert_eq!(next_preset(&mut index, 3), Some(0));
    assert_eq!(next_preset(&mut index, 0), None);
    assert_eq!(index, 0);
}

#[test]
fn loaded_preset_is_applied() {
    let mut working = Preset::default();
    let mut control = MidiControl::new();
    let mut loaded = get_default_presets()[3];
    loaded.portamento = 42;
    assert!(load_and_apply_preset(
        Some(loaded),
        1,
        2,
        &mut working,
        &mut control
    ));
    assert_eq!(working, loaded);
    assert_eq!(control.get_parameter_1(), 1);
    assert_eq!(control.get_parameter_2(), 2);
    assert_eq!(control.get_portamento_amount(), 42);
    // a filter that a stored preset sets beyond its ends
    assert!(load_and_apply_preset(
        Some(loaded),
        (-0.2f32).to_bits(),
        1.5f32.to_bits(),
        &mut working,
        &mut control
    ));
    assert_eq!(control.get_parameter_1(), 0);
    assert_eq!(control.get_parameter_2(), ONE);
    assert!(load_and_apply_preset(Some(loaded), 1, 2, &mut working, &mut control));
    assert!(!load_and_apply_preset(None, 7, 8, &mut working, &mut control));
    assert_eq!(working, loaded);
    assert_eq!(control.get_parameter_1(), 1);
}

#[test]
fn first_preset_of_the_device() {
    let stored = get_default_presets()[9];
    assert_eq!(initial_preset(Some(stored)), stored);
    assert_eq!(initial_preset(None), get_default_presets()[4]);
    assert_eq!(initial_preset(None).get_name(), "Rubber Bass");
}

#[test]
fn usb_data_in_packets() {
    assert_eq!(
        split_packets(&[9, 1, 2, 3, 8, 4, 5, 6, 7, 7]),
        vec![[9, 1, 2, 3], [8, 4, 5, 6]]
    );
    assert!(split_packets(&[1, 2, 3]).is_empty());
}

#[test]
fn formatting_waits_for_the_other_core() {
    assert_eq!(boot_step(false, false), Boot::Ready);
    assert_eq!(boot_step(false, true), Boot::Ready);
    assert_eq!(boot_step(true, false), Boot::WaitForCore1);
    assert_eq!(boot_step(true, true), Boot::Format);
}

#[test]
fn connection_comes_and_goes() {
    let mut task = MidiTask::new(Preset::default());
    assert_eq!(task.waits_for(), Wait::Connection);
    task.on_connection();
    assert_eq!(task.waits_for(), Wait::Packet);
    task.on_read_error();
    assert_eq!(task.waits_for(), Wait::Connection);
    assert_eq!(task.current_preset_index, 4);
}

#[test]
fn both_sides_play_the_same() {
    let mut usb = MidiTask::new(Preset::default());
    let mut radio = MidiTask::new(Preset::default());
    let (mut c1, mut c2) = (MidiControl::new(), MidiControl::new());
    for m in [[0x90, 60, 1], [0x91, 64, 1], [0xB0, 64, 127], [0x80, 64, 0]] {
        let a = usb.on_packet([0x09, m[0], m[1], m[2]], &freqs(), readings(&tables()), &mut c1);
        let b = radio.on_message(m, &freqs(), readings(&tables()), &mut c2);
        assert_eq!(a, PacketOutcome::Voice { effects: b });
        assert_eq!(c1.get_target_freq(), c2.get_target_freq());
        assert_eq!(usb.notes.active_note(), radio.notes.active_note());
    }
}

#[test]
fn bank_arrives_in_packets() {
    let (_, image) = Storage::format();
    let mut task = MidiTask::new(Preset::default());
    let mut control = MidiControl::new();
    let mut dump = SysexDump::new();
    let mut responses = Vec::new();
    while let Some(packet) = dump.next_packet(&image) {
        match task.on_packet(packet, &freqs(), readings(&tables()), &mut control) {
            PacketOutcome::Sysex { response } => {
                if let Some(r) = response {
                    responses.push(r);
                }
            }
            PacketOutcome::Voice { .. } => panic!("a dump holds no notes"),
        }
    }
    assert_eq!(responses.len(), 1);
    assert_eq!(
        responses[0].job,
        SysexJob::Write {
            len: STORAGE_IMAGE_SIZE
        }
    );
    assert!(responses[0].reload);
    assert_eq!(task.rx.image, image);
}
