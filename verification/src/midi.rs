//! The player's messages: what each one does to the keys, the live controls and the preset.
//!
//! Messages come over USB in four-byte packets and over the radio in threes. Both go through the
//! same function. What takes a power to compute (the frequencies of notes, the factor of a pitch
//! bend) is computed outside and handed in as bits.

use crate::binary32::{ratio_bits, BITS_ONE};
use crate::cc_map::{
    apply_cc, is_structural, live_changed, param_of, word_changed, word_of, word_value,
    PowerTables,
};
use crate::factory::{factory_rows, get_default_presets};
use crate::midi_control::MidiControl;
use crate::note_stack::{
    in_order, key_down, key_goes_down, key_goes_up, key_up, pedal, pedal_moves, sounding, Keys,
    NoteStack,
};
use crate::presets::{is_row, Preset};
use crate::scaling::{
    clamp_unit, larger_value_is_larger, order_key, unit, unit_bits, unit_clamped,
    unit_has_its_ends, unit_is_nearest,
};
use crate::storage::{is_current, STORAGE_IMAGE_SIZE};
use crate::sysex::{
    completes, dump_is_received, dump_message, handle_sysex, joined, packet_bytes,
    packets_carry_the_message, receive, receive_all, receive_all_parts, response, sysex_count,
    usb_packet, usb_packets, Reception, SysexJob, SysexMessage, SysexResponse, SysexRx, SYSEX_END,
};
use vstd::prelude::*;

verus! {

pub const NOTE_OFF: u8 = 0x80;

pub const NOTE_ON: u8 = 0x90;

pub const CONTROL_CHANGE: u8 = 0xB0;

pub const PROGRAM_CHANGE: u8 = 0xC0;

pub const PITCH_BEND: u8 = 0xE0;

pub const CC_MOD_WHEEL: u8 = 1;

pub const CC_SUSTAIN: u8 = 64;

/// Pressing and releasing the soft pedal selects the next preset.
pub const CC_SOFT_PEDAL: u8 = 67;

pub const CC_ALL_SOUND_OFF: u8 = 120;

pub const CC_ALL_NOTES_OFF: u8 = 123;

/// The preset that is in use when the device starts.
pub const FIRST_PRESET: usize = 4;

/// A channel message.
#[derive(Clone, Copy, Debug, PartialEq, Eq, Structural)]
pub enum Message {
    NoteOn { note: u8, velocity: u8 },
    NoteOff { note: u8 },
    Control { cc: u8, value: u8 },
    Program { index: u8 },
    Bend { bend: u16 },
    Other,
}

/// The value of a pitch bend: the second byte holds the upper bits, from bit 7 on.
pub open spec fn bend_of(d1: u8, d2: u8) -> u16 {
    ((d2 as u16) << 7) | (d1 as u16)
}

/// The message in three bytes, whatever its channel. A note that goes on with velocity zero goes
/// off.
pub open spec fn message_of(status: u8, d1: u8, d2: u8) -> Message {
    let cmd = status - status % 16;
    if cmd == NOTE_ON && d2 > 0 {
        Message::NoteOn { note: d1, velocity: d2 }
    } else if cmd == NOTE_ON || cmd == NOTE_OFF {
        Message::NoteOff { note: d1 }
    } else if cmd == CONTROL_CHANGE {
        Message::Control { cc: d1, value: d2 }
    } else if cmd == PROGRAM_CHANGE {
        Message::Program { index: d1 }
    } else if cmd == PITCH_BEND {
        Message::Bend { bend: bend_of(d1, d2) }
    } else {
        Message::Other
    }
}

/// Takes three bytes for a channel message.
pub fn decode_message(status: u8, d1: u8, d2: u8) -> (m: Message)
    ensures
        m == message_of(status, d1, d2),
{
    match status - status % 16 {
        NOTE_ON if d2 > 0 => Message::NoteOn { note: d1, velocity: d2 },
        NOTE_OFF | NOTE_ON => Message::NoteOff { note: d1 },
        CONTROL_CHANGE => Message::Control { cc: d1, value: d2 },
        PROGRAM_CHANGE => Message::Program { index: d1 },
        PITCH_BEND => Message::Bend { bend: ((d2 as u16) << 7) | (d1 as u16) },
        _ => Message::Other,
    }
}

/// A pitch bend between its two ends has the value that 14 bits make up; 8192 is the middle.
pub proof fn bend_is_fourteen_bits(d1: u8, d2: u8)
    requires
        d1 < 128,
        d2 < 128,
    ensures
        bend_of(d1, d2) == 128 * d2 + d1,
        bend_of(d1, d2) < 16384,
{
    assert(((d2 as u16) << 7) | (d1 as u16) == 128 * (d2 as u16) + d1 as u16 && (((d2 as u16) << 7)
        | (d1 as u16)) < 16384) by (bit_vector)
        requires
            d1 < 128,
            d2 < 128,
    ;
}

/// What takes a power to compute of one message.
#[derive(Clone, Copy)]
pub struct Readings<'a> {
    /// The factor that a pitch bend stands for.
    pub bend: u32,
    /// What the values of controllers stand for.
    pub tables: &'a PowerTables,
}

/// The velocity of a note between 0 and 1.
pub open spec fn velocity_of(velocity: u8) -> u32 {
    unit_bits(
        if velocity < 127 {
            velocity as nat
        } else {
            127
        },
    )
}

/// What a message asks for that takes the flash or the voice.
#[derive(Clone, Copy, Debug, PartialEq, Eq, Structural)]
pub enum PresetAction {
    Keep,
    /// Load the preset behind the one in use.
    Next,
    Load { index: usize },
    /// Rebuild the voice from the working preset.
    Rebuild,
}

/// What a message asks the device to do.
#[derive(Clone, Copy, Debug, PartialEq, Eq, Structural)]
pub struct Effects {
    /// Switch the light on or off.
    pub led: Option<bool>,
    pub preset: PresetAction,
}

/// Every key and the sustain pedal are up.
pub open spec fn silent(k: Keys) -> Keys {
    Keys { notes: Seq::empty(), pending_off: Seq::empty(), sustain: false, ..k }
}

/// The message asks for silence.
pub open spec fn is_all_off(m: Message) -> bool {
    m matches Message::Control { cc, value } && (cc == CC_ALL_SOUND_OFF || cc == CC_ALL_NOTES_OFF)
}

/// The message releases the sustain pedal.
pub open spec fn releases_sustain(m: Message) -> bool {
    m matches Message::Control { cc, value } && cc == CC_SUSTAIN && value < 64
}

/// The message releases the soft pedal, which was down.
pub open spec fn releases_soft_pedal(k: Keys, m: Message) -> bool {
    &&& m matches Message::Control { cc, value } && cc == CC_SOFT_PEDAL && value < 64
    &&& k.soft_pedal
}

/// The keys after message `m`.
pub open spec fn keys_after(k: Keys, m: Message) -> Keys {
    match m {
        Message::NoteOn { note, velocity } => key_down(k, note),
        Message::NoteOff { note } => key_up(k, note),
        Message::Control { cc, value } => if cc == CC_SUSTAIN {
            pedal(k, value >= 64)
        } else if cc == CC_SOFT_PEDAL {
            Keys { soft_pedal: value >= 64, ..k }
        } else if is_all_off(m) {
            silent(k)
        } else {
            k
        },
        _ => k,
    }
}

/// The live controls once the note that sounds is the one that `k` says, or none.
pub open spec fn following(c: MidiControl, k: Keys, freqs: Seq<u32>) -> MidiControl {
    match sounding(k) {
        Some(note) => MidiControl { target_freq_bits: freqs[note as int], gate: true, ..c },
        None => MidiControl { gate: false, gate_reset: true, ..c },
    }
}

/// `after` is the live controls `before` after message `m`, which left the keys as `k`.
pub open spec fn control_follows(
    before: MidiControl,
    after: MidiControl,
    k: Keys,
    m: Message,
    freqs: Seq<u32>,
    r: Readings,
) -> bool {
    match m {
        Message::NoteOn { note, velocity } => after == (MidiControl {
            velocity_bits: velocity_of(velocity),
            target_freq_bits: freqs[note as int],
            gate: true,
            ..before
        }),
        Message::NoteOff { note } => after == following(before, k, freqs),
        Message::Control { cc, value } => if param_of(cc) is Some {
            live_changed(before, after, param_of(cc)->0, value, *r.tables)
        } else if cc == CC_MOD_WHEEL {
            after == (MidiControl { mod_wheel_bits: unit_bits(value as nat), ..before })
        } else if releases_sustain(m) {
            after == following(before, k, freqs)
        } else if is_all_off(m) {
            after == (MidiControl {
                gate: false,
                gate_reset: false,
                pitch_bend_bits: BITS_ONE,
                mod_wheel_bits: 0,
                ..before
            })
        } else {
            after == before
        },
        Message::Bend { bend } => after == (MidiControl { pitch_bend_bits: r.bend, ..before }),
        _ => after == before,
    }
}

/// `after` is the working preset `before` after message `m`.
pub open spec fn working_follows(before: Preset, after: Preset, m: Message, r: Readings) -> bool {
    match m {
        Message::Control { cc, value } => match param_of(cc) {
            Some(param) => word_changed(
                before,
                after,
                word_of(param),
                word_value(param, value, *r.tables),
            ),
            None => after == before,
        },
        _ => after == before,
    }
}

/// The light goes on with a note, and off when the last one is gone.
pub open spec fn led_after(k: Keys, m: Message) -> Option<bool> {
    if m is NoteOn {
        Some(true)
    } else if is_all_off(m) {
        Some(false)
    } else if (m is NoteOff || releases_sustain(m)) && sounding(k) is None {
        Some(false)
    } else {
        None
    }
}

/// What message `m`, which found the keys as `k`, asks for that takes the flash or the voice.
pub open spec fn preset_action(k: Keys, m: Message) -> PresetAction {
    match m {
        Message::Program { index } => PresetAction::Load { index: index as usize },
        Message::Control { cc, value } => if param_of(cc) is Some {
            if is_structural(param_of(cc)->0) {
                PresetAction::Rebuild
            } else {
                PresetAction::Keep
            }
        } else if releases_soft_pedal(k, m) {
            PresetAction::Next
        } else {
            PresetAction::Keep
        },
        _ => PresetAction::Keep,
    }
}

/// The preset in use after message `m`, as far as the message says it.
pub open spec fn index_after(index: usize, m: Message) -> usize {
    match m {
        Message::Program { index: selected } => selected as usize,
        _ => index,
    }
}

/// Lets the note gate and the pitch follow the note that sounds; the light goes off with the last
/// one.
fn follow(notes: &NoteStack, control: &mut MidiControl, freqs: &[u32; 256]) -> (led: Option<bool>)
    ensures
        *final(control) == following(*old(control), notes@, freqs@),
        led == if sounding(notes@) is None {
            Some(false)
        } else {
            None::<bool>
        },
{
    match notes.active_note() {
        Some(note) => {
            control.set_freq(freqs[note as usize]);
            control.set_gate(true);
            None
        },
        None => {
            control.set_gate(false);
            Some(false)
        },
    }
}

/// Handles one channel message. `freqs` holds the frequency of each note and `r` what takes a power
/// to compute of this message.
pub fn handle_voice_message(
    status: u8,
    d1: u8,
    d2: u8,
    freqs: &[u32; 256],
    r: Readings,
    notes: &mut NoteStack,
    control: &mut MidiControl,
    working: &mut Preset,
    current_preset_index: &mut usize,
) -> (effects: Effects)
    requires
        old(notes).wf(),
    ensures
        final(notes).wf(),
        final(notes)@ == keys_after(old(notes)@, message_of(status, d1, d2)),
        control_follows(
            *old(control),
            *final(control),
            final(notes)@,
            message_of(status, d1, d2),
            freqs@,
            r,
        ),
        working_follows(*old(working), *final(working), message_of(status, d1, d2), r),
        *final(current_preset_index) == index_after(
            *old(current_preset_index),
            message_of(status, d1, d2),
        ),
        effects.led == led_after(final(notes)@, message_of(status, d1, d2)),
        effects.preset == preset_action(old(notes)@, message_of(status, d1, d2)),
{
    let mut led: Option<bool> = None;
    let mut preset = PresetAction::Keep;
    match decode_message(status, d1, d2) {
        Message::NoteOn { note, velocity } => {
            notes.note_on(note);
            control.set_velocity(
                unit(
                    if velocity < 127 {
                        velocity
                    } else {
                        127
                    },
                ),
            );
            control.set_freq(freqs[note as usize]);
            control.set_gate(true);
            led = Some(true);
        },
        Message::NoteOff { note } => {
            notes.note_off(note);
            led = follow(notes, control, freqs);
        },
        Message::Control { cc, value } => {
            match apply_cc(cc, value, r.tables, working, control) {
                Some(structural) => {
                    if structural {
                        preset = PresetAction::Rebuild;
                    }
                },
                None => {
                    match cc {
                        CC_MOD_WHEEL => {
                            control.set_mod_wheel(unit(value));
                        },
                        CC_SUSTAIN => {
                            let sustain_on: bool = value >= 64;
                            notes.set_sustain(sustain_on);
                            if !sustain_on {
                                led = follow(notes, control, freqs);
                            }
                        },
                        CC_SOFT_PEDAL => {
                            if notes.soft_pedal(value >= 64) {
                                preset = PresetAction::Next;
                            }
                        },
                        CC_ALL_SOUND_OFF | CC_ALL_NOTES_OFF => {
                            notes.clear();
                            control.reset();
                            led = Some(false);
                        },
                        _ => {},
                    }
                },
            }
        },
        Message::Program { index } => {
            *current_preset_index = index as usize;
            preset = PresetAction::Load { index: index as usize };
        },
        Message::Bend { bend: _ } => {
            control.set_pitch_bend(r.bend);
        },
        Message::Other => {},
    }
    Effects { led, preset }
}

/// The preset behind preset `index` of `count` stored ones.
pub open spec fn next_index(index: int, count: int) -> int {
    if count > 0 {
        (index + 1) % count
    } else {
        index
    }
}

/// Selects the next of `count` stored presets, the first one after the last. With none stored
/// nothing changes.
pub fn next_preset(current_preset_index: &mut usize, count: usize) -> (selected: Option<usize>)
    requires
        *old(current_preset_index) < usize::MAX,
    ensures
        selected == if count > 0 {
            Some(*final(current_preset_index))
        } else {
            None
        },
        *final(current_preset_index) == if count > 0 {
            (*old(current_preset_index) + 1) % (count as int)
        } else {
            *old(current_preset_index) as int
        },
        *final(current_preset_index) == next_index(*old(current_preset_index) as int, count as int),
{
    if count > 0 {
        *current_preset_index = (*current_preset_index + 1) % count;
        Some(*current_preset_index)
    } else {
        None
    }
}

/// The preset that the device starts with: the stored one, or the factory's in its place.
pub fn initial_preset(loaded: Option<Preset>) -> (p: Preset)
    ensures
        match loaded {
            Some(stored) => p == stored,
            None => is_row(p, factory_rows()[FIRST_PRESET as int]),
        },
{
    match loaded {
        Some(stored) => stored,
        None => {
            let bank = get_default_presets();
            bank[FIRST_PRESET]
        },
    }
}

/// The live controls after a preset was taken over, if there was one.
pub open spec fn control_loaded(
    c: MidiControl,
    loaded: Option<Preset>,
    cutoff_norm: u32,
    resonance_norm: u32,
) -> MidiControl {
    match loaded {
        Some(p) => MidiControl {
            parameter_1_bits: unit_clamped(cutoff_norm),
            parameter_2_bits: unit_clamped(resonance_norm),
            portamento_amount_bits: p.portamento,
            ..c
        },
        None => c,
    }
}

/// Takes over a preset that was loaded, if there was one: the filter and the glide are set, the
/// filter's two controls held between 0 and 1, and it becomes the working preset. Says whether the
/// voice must be rebuilt from it.
pub fn load_and_apply_preset(
    loaded: Option<Preset>,
    cutoff_norm: u32,
    resonance_norm: u32,
    working: &mut Preset,
    control: &mut MidiControl,
) -> (rebuild: bool)
    ensures
        rebuild == (loaded is Some),
        match loaded {
            Some(p) => *final(working) == p && *final(control) == (MidiControl {
                parameter_1_bits: unit_clamped(cutoff_norm),
                parameter_2_bits: unit_clamped(resonance_norm),
                portamento_amount_bits: p.portamento,
                ..*old(control)
            }),
            None => *final(working) == *old(working) && *final(control) == *old(control),
        },
        *final(control) == control_loaded(*old(control), loaded, cutoff_norm, resonance_norm),
{
    match loaded {
        Some(preset) => {
            control.set_parameter_1(clamp_unit(cutoff_norm));
            control.set_parameter_2(clamp_unit(resonance_norm));
            control.set_portamento(preset.portamento);
            *working = preset;
            true
        },
        None => false,
    }
}

/// Pressing and releasing the soft pedal `count` times over, from a preset that is stored, comes
/// back to that preset: each tap goes on by one and the last is followed by the first.
pub proof fn taps_go_round(index: int, count: int, taps: nat)
    requires
        0 <= index < count,
    ensures
        after_taps(index, count, taps) == (index + taps) % count,
        after_taps(index, count, count as nat) == index,
{
    tap_count(index, count, taps);
    tap_count(index, count, count as nat);
    assert((index + count) % count == index) by (nonlinear_arith)
        requires
            0 <= index < count,
    ;
}

/// The preset in use after `taps` taps on the soft pedal.
pub open spec fn after_taps(index: int, count: int, taps: nat) -> int
    decreases taps,
{
    if taps == 0 {
        index
    } else {
        next_index(after_taps(index, count, (taps - 1) as nat), count)
    }
}

proof fn tap_count(index: int, count: int, taps: nat)
    requires
        0 <= index < count,
    ensures
        after_taps(index, count, taps) == (index + taps) % count,
    decreases taps,
{
    if taps == 0 {
        vstd::arithmetic::div_mod::lemma_small_mod(index as nat, count as nat);
    } else {
        tap_count(index, count, (taps - 1) as nat);
        vstd::arithmetic::div_mod::lemma_add_mod_noop(index + taps - 1, 1, count);
        vstd::arithmetic::div_mod::lemma_add_mod_noop((index + taps - 1) % count, 1, count);
        vstd::arithmetic::div_mod::lemma_mod_twice(index + taps - 1, count);
    }
}

/// A tap on the soft pedal is one step however often the pressed pedal reports itself: pressing
/// asks for nothing, pressing further asks for nothing, and the release asks for the next preset,
/// once.
pub proof fn a_tap_is_one_step(k: Keys, press: u8, release: u8)
    requires
        press >= 64,
        release < 64,
    ensures
        ({
            let down = Message::Control { cc: CC_SOFT_PEDAL, value: press };
            let up = Message::Control { cc: CC_SOFT_PEDAL, value: release };
            let pressed = keys_after(k, down);
            &&& preset_action(k, down) == PresetAction::Keep
            &&& preset_action(pressed, down) == PresetAction::Keep
            &&& keys_after(pressed, down) == pressed
            &&& preset_action(pressed, up) == PresetAction::Next
            &&& preset_action(keys_after(pressed, up), up) == PresetAction::Keep
        }),
{
}

/// After "all notes off" nothing sounds, whatever was held: the keys are up, the note gate is
/// closed and the light goes off.
pub proof fn all_off_silences(
    k: Keys,
    before: MidiControl,
    after: MidiControl,
    m: Message,
    freqs: Seq<u32>,
    r: Readings,
)
    requires
        is_all_off(m),
        control_follows(before, after, keys_after(k, m), m, freqs, r),
    ensures
        sounding(keys_after(k, m)) is None,
        !after.gate,
        led_after(keys_after(k, m), m) == Some(false),
{
}

/// The velocity of a note is kept until the next note goes on.
pub proof fn velocity_is_kept(
    k: Keys,
    before: MidiControl,
    after: MidiControl,
    m: Message,
    freqs: Seq<u32>,
    r: Readings,
)
    requires
        control_follows(before, after, k, m, freqs, r),
    ensures
        after.velocity_bits == match m {
            Message::NoteOn { note, velocity } => velocity_of(velocity),
            _ => before.velocity_bits,
        },
{
}

/// A note that is struck harder is louder, up to velocity 127, which is one.
pub proof fn harder_is_louder(v1: u8, v2: u8)
    requires
        v1 < v2 <= 127,
    ensures
        order_key(velocity_of(v1)) < order_key(velocity_of(v2)),
        velocity_of(127) == BITS_ONE,
{
    larger_value_is_larger(v1 as nat, v2 as nat, 0, 1_0000);
    unit_has_its_ends();
}

/// The note gate is open exactly while a key is held: true at the start, and kept by every message.
pub proof fn gate_follows_keys(
    k: Keys,
    before: MidiControl,
    after: MidiControl,
    m: Message,
    freqs: Seq<u32>,
    r: Readings,
)
    requires
        before.gate == (sounding(k) is Some),
        control_follows(before, after, keys_after(k, m), m, freqs, r),
        crate::note_stack::keys_wf(k),
    ensures
        after.gate == (sounding(keys_after(k, m)) is Some),
{
}

/// The whole packets in `data`; what is left over at the end is passed over.
pub open spec fn packets_in(data: Seq<u8>) -> Seq<Seq<u8>> {
    Seq::new(data.len() / 4, |k: int| data.subrange(4 * k, 4 * k + 4))
}

/// Splits what came over USB into packets.
pub fn split_packets(data: &[u8]) -> (packets: Vec<[u8; 4]>)
    ensures
        packets@.len() == packets_in(data@).len(),
        forall|k: int|
            0 <= k < packets@.len() ==> (#[trigger] packets@[k])@ == packets_in(data@)[k],
{
    let mut packets: Vec<[u8; 4]> = Vec::new();
    let mut at: usize = 0;
    while data.len() - at >= 4
        invariant
            at <= data@.len(),
            at == 4 * packets@.len(),
            forall|k: int|
                0 <= k < packets@.len() ==> (#[trigger] packets@[k])@ == data@.subrange(
                    4 * k,
                    4 * k + 4,
                ),
        decreases data@.len() - at,
    {
        let packet: [u8; 4] = [data[at], data[at + 1], data[at + 2], data[at + 3]];
        assert(packet@ =~= data@.subrange(at as int, at + 4));
        packets.push(packet);
        at += 4;
    }
    packets
}

/// A packet carries part of a system-exclusive message.
pub open spec fn is_sysex(packet: Seq<u8>) -> bool {
    4 <= packet[0] % 16 <= 7
}

/// The state in which the last byte of `bytes` that completes a message leaves the receiver, if
/// one does.
pub open spec fn completed(s: Reception, bytes: Seq<u8>, room: nat) -> Option<Reception>
    decreases bytes.len(),
{
    if bytes.len() == 0 {
        None
    } else if completes(receive_all(s, bytes.drop_last(), room), bytes.last()) {
        Some(receive_all(s, bytes, room))
    } else {
        completed(s, bytes.drop_last(), room)
    }
}

/// The message that is complete in state `s`.
pub open spec fn complete_message(s: Reception) -> SysexMessage {
    SysexMessage { command: s.header[3], len: s.data.len() as usize, overflow: s.overflow }
}

/// Takes in the bytes of one system-exclusive packet. Too few bytes come to complete two
/// messages, so at most one is given back; its payload is the front of the image.
pub fn receive_packet(rx: &mut SysexRx, packet: [u8; 4]) -> (message: Option<SysexMessage>)
    requires
        old(rx).wf(),
    ensures
        final(rx).wf(),
        final(rx)@ == receive_all(old(rx)@, packet_bytes(packet@), old(rx).image@.len()),
        final(rx).image@.len() == old(rx).image@.len(),
        match completed(old(rx)@, packet_bytes(packet@), old(rx).image@.len()) {
            Some(done) => {
                &&& message == Some(complete_message(done))
                &&& done.data.len() <= final(rx).image@.len()
                &&& final(rx).image@.take(done.data.len() as int) == done.data
            },
            None => message is None,
        },
{
    let n: usize = match packet[0] % 16 {
        4 | 7 => 3,
        5 => 1,
        6 => 2,
        _ => 0,
    };
    let ghost bytes = packet_bytes(packet@);
    let ghost room = rx.image@.len();
    let ghost start = rx@;
    let mut message: Option<SysexMessage> = None;
    let mut i: usize = 0;
    assert(bytes.take(0) =~= Seq::empty());
    while i < n
        invariant
            i <= n <= 3,
            n == bytes.len(),
            bytes == packet_bytes(packet@),
            n == sysex_count((packet@[0] % 16) as u8),
            rx.wf(),
            room == rx.image@.len(),
            rx@ == receive_all(start, bytes.take(i as int), room),
            match completed(start, bytes.take(i as int), room) {
                Some(done) => {
                    &&& message == Some(complete_message(done))
                    &&& done.data.len() <= room
                    &&& rx.image@.take(done.data.len() as int) == done.data
                    &&& rx@.open ==> rx@.header.len() < i
                },
                None => message is None,
            },
        decreases n - i,
    {
        let b: u8 = packet[1 + i];
        let ghost before = rx@;
        let ghost image = rx.image@;
        assert(bytes.take(i + 1).drop_last() =~= bytes.take(i as int));
        assert(bytes[i as int] == b);
        match rx.feed(b) {
            Some(m) => {
                message = Some(m);
            },
            None => {
                if message.is_some() {
                    proof {
                        let n = rx@.data.len() as int;
                        assert(n == 0 || rx@.data == before.data);
                        assert(rx.image@ =~= rx.image@.take(n) + rx.image@.skip(n));
                        assert(image =~= image.take(n) + image.skip(n));
                        assert(rx.image@ == image);
                    }
                }
            },
        }
        i += 1;
    }
    assert(bytes.take(n as int) =~= bytes);
    message
}

/// What to do about a packet of a system-exclusive message that finds the receiver as `s` and
/// leaves `image` with it: the response to the message that it completes, if it completes one.
pub open spec fn packet_response(s: Reception, packet: Seq<u8>, image: Seq<u8>) -> Option<
    SysexResponse,
> {
    match completed(s, packet_bytes(packet), STORAGE_IMAGE_SIZE as nat) {
        Some(done) => Some(response(complete_message(done), image)),
        None => None,
    }
}

/// What came of one USB packet.
#[derive(Clone, Copy, Debug, PartialEq, Eq)]
pub enum PacketOutcome {
    /// It carried part of a system-exclusive message; what to do if that is complete.
    Sysex { response: Option<SysexResponse> },
    /// It carried a channel message.
    Voice { effects: Effects },
}

/// What to wait for, besides messages over the radio and commands.
#[derive(Clone, Copy, Debug, PartialEq, Eq, Structural)]
pub enum Wait {
    /// A USB host.
    Connection,
    /// A packet from the USB host.
    Packet,
}

/// What to do when the device starts.
#[derive(Clone, Copy, Debug, PartialEq, Eq, Structural)]
pub enum Boot {
    Ready,
    /// The other core must run before the flash can be written.
    WaitForCore1,
    Format,
}

/// The bank is formatted, where that is needed, once the other core runs.
pub fn boot_step(needs_format: bool, core1_running: bool) -> (step: Boot)
    ensures
        step is Ready <==> !needs_format,
        step is Format <==> needs_format && core1_running,
{
    if !needs_format {
        Boot::Ready
    } else if core1_running {
        Boot::Format
    } else {
        Boot::WaitForCore1
    }
}

/// Everything that the player's messages change, but for the live controls.
pub struct MidiTask {
    pub notes: NoteStack,
    pub working: Preset,
    pub current_preset_index: usize,
    pub rx: SysexRx,
    pub connected: bool,
}

impl MidiTask {
    pub open spec fn wf(&self) -> bool {
        &&& self.notes.wf()
        &&& self.rx.wf()
        &&& self.rx.image@.len() == STORAGE_IMAGE_SIZE
        &&& self.current_preset_index < usize::MAX
    }

    /// Nothing is held, the first preset is in use and no host is connected.
    pub fn new(working: Preset) -> (task: Self)
        ensures
            task.wf(),
            task.notes@ == (Keys {
                notes: Seq::empty(),
                pending_off: Seq::empty(),
                sustain: false,
                soft_pedal: false,
            }),
            task.working == working,
            task.current_preset_index == FIRST_PRESET,
            !task.rx@.open,
            !task.connected,
    {
        MidiTask {
            notes: NoteStack::new(),
            working,
            current_preset_index: FIRST_PRESET,
            rx: SysexRx::new(STORAGE_IMAGE_SIZE),
            connected: false,
        }
    }

    pub fn waits_for(&self) -> (wait: Wait)
        ensures
            wait == if self.connected {
                Wait::Packet
            } else {
                Wait::Connection
            },
    {
        if self.connected {
            Wait::Packet
        } else {
            Wait::Connection
        }
    }

    /// A host was connected.
    pub fn on_connection(&mut self)
        ensures
            *final(self) == (MidiTask { connected: true, ..*old(self) }),
    {
        self.connected = true;
    }

    /// Reading a packet failed: the host is gone.
    pub fn on_read_error(&mut self)
        ensures
            *final(self) == (MidiTask { connected: false, ..*old(self) }),
    {
        self.connected = false;
    }

    /// Handles a channel message, from either side.
    pub fn on_message(
        &mut self,
        bytes: [u8; 3],
        freqs: &[u32; 256],
        r: Readings,
        control: &mut MidiControl,
    ) -> (effects: Effects)
        requires
            old(self).wf(),
        ensures
            final(self).wf(),
            final(self).rx == old(self).rx,
            final(self).connected == old(self).connected,
            voice_step(
                *old(self),
                *final(self),
                *old(control),
                *final(control),
                message_of(bytes@[0], bytes@[1], bytes@[2]),
                freqs@,
                r,
                effects,
            ),
    {
        handle_voice_message(
            bytes[0],
            bytes[1],
            bytes[2],
            freqs,
            r,
            &mut self.notes,
            control,
            &mut self.working,
            &mut self.current_preset_index,
        )
    }

    /// Handles one USB packet.
    pub fn on_packet(
        &mut self,
        packet: [u8; 4],
        freqs: &[u32; 256],
        r: Readings,
        control: &mut MidiControl,
    ) -> (outcome: PacketOutcome)
        requires
            old(self).wf(),
        ensures
            final(self).wf(),
            packet_step(
                *old(self),
                *final(self),
                *old(control),
                *final(control),
                packet@,
                freqs@,
                r,
                outcome,
            ),
            final(self).connected == old(self).connected,
            is_sysex(packet@) ==> {
                &&& *final(control) == *old(control)
                &&& *final(self) == (MidiTask { rx: final(self).rx, ..*old(self) })
                &&& final(self).rx@ == receive_all(
                    old(self).rx@,
                    packet_bytes(packet@),
                    STORAGE_IMAGE_SIZE as nat,
                )
                &&& completed(
                    old(self).rx@,
                    packet_bytes(packet@),
                    STORAGE_IMAGE_SIZE as nat,
                ) matches Some(done) ==> final(self).rx.image@.take(done.data.len() as int)
                    == done.data
                &&& outcome == PacketOutcome::Sysex {
                    response: packet_response(old(self).rx@, packet@, final(self).rx.image@),
                }
            },
            !is_sysex(packet@) ==> {
                &&& final(self).rx == old(self).rx
                &&& outcome matches PacketOutcome::Voice { effects } && voice_step(
                    *old(self),
                    *final(self),
                    *old(control),
                    *final(control),
                    message_of(packet@[1], packet@[2], packet@[3]),
                    freqs@,
                    r,
                    effects,
                )
            },
    {
        let cin: u8 = packet[0] % 16;
        if 4 <= cin && cin <= 7 {
            match receive_packet(&mut self.rx, packet) {
                Some(m) => PacketOutcome::Sysex {
                    response: Some(handle_sysex(m, self.rx.image.as_slice())),
                },
                None => PacketOutcome::Sysex { response: None },
            }
        } else {
            let effects = self.on_message([packet[1], packet[2], packet[3]], freqs, r, control);
            PacketOutcome::Voice { effects }
        }
    }
}

/// One USB packet took the task and the live controls from one state to the next.
pub open spec fn packet_step(
    before: MidiTask,
    after: MidiTask,
    control: MidiControl,
    control2: MidiControl,
    packet: Seq<u8>,
    freqs: Seq<u32>,
    r: Readings,
    outcome: PacketOutcome,
) -> bool {
    if is_sysex(packet) {
        &&& control2 == control
        &&& after == (MidiTask { rx: after.rx, ..before })
        &&& after.rx@ == receive_all(
            before.rx@,
            packet_bytes(packet),
            STORAGE_IMAGE_SIZE as nat,
        )
        &&& outcome == PacketOutcome::Sysex {
            response: packet_response(before.rx@, packet, after.rx.image@),
        }
    } else {
        &&& after.rx == before.rx
        &&& after.connected == before.connected
        &&& outcome matches PacketOutcome::Voice { effects } && voice_step(
            before,
            after,
            control,
            control2,
            message_of(packet[1], packet[2], packet[3]),
            freqs,
            r,
            effects,
        )
    }
}

/// A packet with one of the codes 4 to 7 goes to the receiver of system-exclusive messages and
/// touches nothing that is played. One with any other code, on any cable, is played as the channel
/// message in its last three bytes, and leaves the receiver alone.
pub proof fn packets_go_where_they_belong(
    before: MidiTask,
    after: MidiTask,
    control: MidiControl,
    control2: MidiControl,
    cable: u8,
    code: u8,
    a: u8,
    b: u8,
    c: u8,
    freqs: Seq<u32>,
    r: Readings,
    outcome: PacketOutcome,
)
    requires
        cable < 16,
        code < 16,
        packet_step(
            before,
            after,
            control,
            control2,
            seq![(16 * cable + code) as u8, a, b, c],
            freqs,
            r,
            outcome,
        ),
    ensures
        after.connected == before.connected,
        4 <= code <= 7 ==> outcome is Sysex && control2 == control && after.notes == before.notes
            && after.working == before.working && after.current_preset_index
            == before.current_preset_index,
        !(4 <= code <= 7) ==> after.rx == before.rx,
        !(4 <= code <= 7) ==> (outcome matches PacketOutcome::Voice { effects } && voice_step(
            before,
            after,
            control,
            control2,
            message_of(a, b, c),
            freqs,
            r,
            effects,
        )),
{
    code_tells_the_bytes(cable, code, a, b, c);
    let packet = seq![(16 * cable + code) as u8, a, b, c];
    assert(packet[1] == a && packet[2] == b && packet[3] == c);
}

/// The channel message `m` took the task and the live controls from one state to the next.
pub open spec fn voice_step(
    before: MidiTask,
    after: MidiTask,
    control: MidiControl,
    control2: MidiControl,
    m: Message,
    freqs: Seq<u32>,
    r: Readings,
    effects: Effects,
) -> bool {
    &&& after.notes@ == keys_after(before.notes@, m)
    &&& control_follows(control, control2, after.notes@, m, freqs, r)
    &&& working_follows(before.working, after.working, m, r)
    &&& after.current_preset_index == index_after(before.current_preset_index, m)
    &&& effects.led == led_after(after.notes@, m)
    &&& effects.preset == preset_action(before.notes@, m)
}

proof fn nothing_completes(s: Reception, bytes: Seq<u8>, room: nat)
    requires
        forall|i: int| 0 <= i < bytes.len() ==> bytes[i] != SYSEX_END,
    ensures
        completed(s, bytes, room) is None,
    decreases bytes.len(),
{
    if bytes.len() > 0 {
        nothing_completes(s, bytes.drop_last(), room);
    }
}

/// The packets of a bank's dump, taken in one after the other by a device in any state, complete
/// one message, with the last packet. If the bank is a full one of this version the device then
/// holds exactly that bank and is asked to write it; no other packet asks for anything.
pub proof fn dump_packets_write_the_bank(image: Seq<u8>, s: Reception, k: int)
    requires
        0 <= k < usb_packets(dump_message(image)).len(),
    ensures
        ({
            let room = STORAGE_IMAGE_SIZE as nat;
            let packets = usb_packets(dump_message(image));
            let reached = receive_all(s, joined(packets.take(k)), room);
            let done = completed(reached, packet_bytes(packets[k]), room);
            &&& is_sysex(packets[k])
            &&& k < packets.len() - 1 ==> done is None
            &&& k == packets.len() - 1 ==> done is Some && (image.len() == STORAGE_IMAGE_SIZE
                && is_current(image) ==> {
                &&& done->0.data == image
                &&& response(complete_message(done->0), image).job == SysexJob::Write {
                    len: STORAGE_IMAGE_SIZE,
                }
            })
        }),
{
    let room = STORAGE_IMAGE_SIZE as nat;
    let message = dump_message(image);
    let packets = usb_packets(message);
    let bytes = packet_bytes(packets[k]);
    let reached = receive_all(s, joined(packets.take(k)), room);
    assert(packets[k] == usb_packet(message, k));
    let rest = message.skip(3 * k);
    if k < packets.len() - 1 {
        assert(rest.len() > 3);
        assert(bytes =~= rest.take(3));
        assert forall|i: int| 0 <= i < bytes.len() implies bytes[i] != SYSEX_END by {
            assert(bytes[i] == message[3 * k + i]);
        }
        nothing_completes(reached, bytes, room);
    } else {
        assert(rest.len() <= 3);
        assert(bytes =~= rest);
        packets_carry_the_message(message);
        assert(packets.take(k) =~= packets.drop_last());
        assert(joined(packets) == joined(packets.take(k)) + bytes);
        receive_all_parts(s, joined(packets.take(k)), bytes, room);
        receive_all_parts(s, joined(packets.take(k)), bytes.drop_last(), room);
        assert(joined(packets.take(k)) + bytes.drop_last() =~= message.drop_last());
        dump_is_received(image, s, room);
    }
}

/// The channel does not matter: a command means the same on each of the sixteen.
pub proof fn channel_does_not_matter(cmd: u8, c1: u8, c2: u8, d1: u8, d2: u8)
    requires
        cmd == 0x80 || cmd == 0x90 || cmd == 0xA0 || cmd == 0xB0 || cmd == 0xC0 || cmd == 0xD0
            || cmd == 0xE0,
        c1 < 16,
        c2 < 16,
    ensures
        message_of((cmd + c1) as u8, d1, d2) == message_of((cmd + c2) as u8, d1, d2),
{
}

/// What three bytes mean, on any channel `c`: 80 lets a note go and 90 starts one, or lets it go
/// with velocity zero; B0 moves a controller, C0 selects a preset and E0 bends the pitch, by seven
/// bits from each data byte. Every other byte in front means nothing.
pub proof fn bytes_mean(c: u8, a: u8, b: u8)
    requires
        c < 16,
    ensures
        message_of((0x80 + c) as u8, a, b) == (Message::NoteOff { note: a }),
        b > 0 ==> message_of((0x90 + c) as u8, a, b) == (Message::NoteOn { note: a, velocity: b }),
        message_of((0x90 + c) as u8, a, 0) == (Message::NoteOff { note: a }),
        message_of((0xB0 + c) as u8, a, b) == (Message::Control { cc: a, value: b }),
        message_of((0xC0 + c) as u8, a, b) == (Message::Program { index: a }),
        a < 128 && b < 128 ==> message_of((0xE0 + c) as u8, a, b) == (Message::Bend {
            bend: (128 * b + a) as u16,
        }),
        forall|status: u8|
            status < 0x80 || 0xA0 <= status < 0xB0 || 0xD0 <= status < 0xE0 || status >= 0xF0
                ==> #[trigger] message_of(status, a, b) == Message::Other,
{
    if a < 128 && b < 128 {
        bend_is_fourteen_bits(a, b);
    }
}

/// A note that starts opens the note gate at its frequency, with its velocity out of 127, and puts
/// the light on. Nothing else of the controls changes, nor the preset. The note is held behind all
/// others if it is new and there is room.
pub proof fn note_starts(
    before: MidiTask,
    after: MidiTask,
    control: MidiControl,
    control2: MidiControl,
    c: u8,
    note: u8,
    velocity: u8,
    freqs: Seq<u32>,
    r: Readings,
    effects: Effects,
)
    requires
        c < 16,
        velocity > 0,
        before.wf(),
        voice_step(
            before,
            after,
            control,
            control2,
            message_of((0x90 + c) as u8, note, velocity),
            freqs,
            r,
            effects,
        ),
    ensures
        control2 == (MidiControl {
            gate: true,
            target_freq_bits: freqs[note as int],
            velocity_bits: if velocity < 127 {
                ratio_bits(velocity as nat, 127) as u32
            } else {
                0x3F80_0000
            },
            ..control
        }),
        !before.notes@.notes.contains(note) && before.notes@.notes.len() < 16
            ==> after.notes@.notes == before.notes@.notes + seq![note],
        before.notes@.notes.contains(note) || before.notes@.notes.len() == 16
            ==> after.notes@.notes == before.notes@.notes,
        forall|n: u8| #[trigger]
            after.notes@.pending_off.contains(n) <==> before.notes@.pending_off.contains(n) && n
                != note,
        after.notes@.sustain == before.notes@.sustain,
        after.notes@.soft_pedal == before.notes@.soft_pedal,
        after.working == before.working,
        after.current_preset_index == before.current_preset_index,
        effects == (Effects { led: Some(true), preset: PresetAction::Keep }),
{
    key_goes_down(before.notes@, note);
    if velocity < 127 {
        unit_is_nearest(velocity as nat);
    } else {
        unit_has_its_ends();
    }
}

/// While a key is held, the pitch is that of the key that went down last among those held, and the
/// note gate is open; when the last one is gone the note gate closes, the pitch stays, and the
/// light goes off. `k` is what is held in the end.
pub open spec fn pitch_follows(
    k: Keys,
    control: MidiControl,
    control2: MidiControl,
    freqs: Seq<u32>,
    led: Option<bool>,
) -> bool {
    if k.notes.len() > 0 {
        &&& control2.gate
        &&& control2.target_freq_bits == freqs[k.notes[k.notes.len() - 1] as int]
        &&& control2.gate_reset == control.gate_reset
        &&& led is None
    } else {
        &&& !control2.gate
        &&& control2.target_freq_bits == control.target_freq_bits
        &&& control2.gate_reset
        &&& led == Some(false)
    }
}

/// Two states of the live controls differ at most in the pitch and the note gate.
pub open spec fn same_but_pitch(a: MidiControl, b: MidiControl) -> bool {
    &&& a.portamento_amount_bits == b.portamento_amount_bits
    &&& a.pitch_bend_bits == b.pitch_bend_bits
    &&& a.mod_wheel_bits == b.mod_wheel_bits
    &&& a.velocity_bits == b.velocity_bits
    &&& a.parameter_1_bits == b.parameter_1_bits
    &&& a.parameter_2_bits == b.parameter_2_bits
    &&& a.cont == b.cont
}

/// A key that goes up, by either of the messages for it, takes its note away unless the sustain
/// pedal is down, and the pitch goes back to the key that went down last among those still held.
pub proof fn note_ends(
    before: MidiTask,
    after: MidiTask,
    control: MidiControl,
    control2: MidiControl,
    c: u8,
    note: u8,
    by_zero: bool,
    d2: u8,
    freqs: Seq<u32>,
    r: Readings,
    effects: Effects,
)
    requires
        c < 16,
        before.wf(),
        by_zero ==> d2 == 0,
        voice_step(
            before,
            after,
            control,
            control2,
            if by_zero {
                message_of((0x90 + c) as u8, note, d2)
            } else {
                message_of((0x80 + c) as u8, note, d2)
            },
            freqs,
            r,
            effects,
        ),
    ensures
        pitch_follows(after.notes@, control, control2, freqs, effects.led),
        same_but_pitch(control, control2),
        before.notes@.sustain ==> after.notes@.notes == before.notes@.notes,
        !before.notes@.sustain ==> in_order(after.notes@.notes, before.notes@.notes),
        !before.notes@.sustain ==> forall|n: u8| #[trigger]
            after.notes@.notes.contains(n) <==> before.notes@.notes.contains(n) && n != note,
        before.notes@.sustain ==> forall|n: u8| #[trigger]
            after.notes@.pending_off.contains(n) <==> before.notes@.pending_off.contains(n) || (n
                == note && before.notes@.notes.contains(n)),
        after.notes@.sustain == before.notes@.sustain,
        after.notes@.soft_pedal == before.notes@.soft_pedal,
        after.working == before.working,
        after.current_preset_index == before.current_preset_index,
        effects.preset == PresetAction::Keep,
{
    key_goes_up(before.notes@, note);
}

/// The sustain pedal is down from value 64 on. Pressing it changes nothing that is heard; releasing
/// it takes away the notes whose keys went up meanwhile, and the pitch goes back to the key that
/// went down last among those still held.
pub proof fn sustain_pedal_moves(
    before: MidiTask,
    after: MidiTask,
    control: MidiControl,
    control2: MidiControl,
    c: u8,
    value: u8,
    freqs: Seq<u32>,
    r: Readings,
    effects: Effects,
)
    requires
        c < 16,
        before.wf(),
        voice_step(
            before,
            after,
            control,
            control2,
            message_of((0xB0 + c) as u8, 64, value),
            freqs,
            r,
            effects,
        ),
    ensures
        after.notes@.sustain <==> value >= 64,
        after.notes@.soft_pedal == before.notes@.soft_pedal,
        value >= 64 ==> after.notes@.pending_off == before.notes@.pending_off,
        value < 64 ==> after.notes@.pending_off.len() == 0,
        value >= 64 ==> after.notes@.notes == before.notes@.notes && control2 == control
            && effects.led is None,
        value < 64 ==> pitch_follows(after.notes@, control, control2, freqs, effects.led),
        value < 64 ==> in_order(after.notes@.notes, before.notes@.notes),
        value < 64 ==> forall|n: u8| #[trigger]
            after.notes@.notes.contains(n) <==> before.notes@.notes.contains(n)
                && !before.notes@.pending_off.contains(n),
        same_but_pitch(control, control2),
        after.working == before.working,
        after.current_preset_index == before.current_preset_index,
        effects.preset == PresetAction::Keep,
{
    pedal_moves(before.notes@);
}

/// A program change selects the preset with its number, on any channel, and changes nothing else.
pub proof fn program_selects(
    before: MidiTask,
    after: MidiTask,
    control: MidiControl,
    control2: MidiControl,
    c: u8,
    program: u8,
    d2: u8,
    freqs: Seq<u32>,
    r: Readings,
    effects: Effects,
)
    requires
        c < 16,
        voice_step(
            before,
            after,
            control,
            control2,
            message_of((0xC0 + c) as u8, program, d2),
            freqs,
            r,
            effects,
        ),
    ensures
        after.current_preset_index == program,
        effects == (Effects { led: None, preset: PresetAction::Load { index: program as usize } }),
        after.notes@ == before.notes@,
        control2 == control,
        after.working == before.working,
{
}

/// A pitch bend sets the bend and nothing else.
pub proof fn bend_bends(
    before: MidiTask,
    after: MidiTask,
    control: MidiControl,
    control2: MidiControl,
    c: u8,
    d1: u8,
    d2: u8,
    freqs: Seq<u32>,
    r: Readings,
    effects: Effects,
)
    requires
        c < 16,
        voice_step(
            before,
            after,
            control,
            control2,
            message_of((0xE0 + c) as u8, d1, d2),
            freqs,
            r,
            effects,
        ),
    ensures
        control2 == (MidiControl { pitch_bend_bits: r.bend, ..control }),
        effects == (Effects { led: None, preset: PresetAction::Keep }),
        after.notes@ == before.notes@,
        after.working == before.working,
        after.current_preset_index == before.current_preset_index,
{
}

/// Controller 1 is the modulation wheel. The soft pedal, 67, is down from value 64 on, and its
/// release asks for the next preset. 120 and 123 let every note go, close the note gate, and take
/// the wheel and the pitch bend back.
pub proof fn player_controls(
    before: MidiTask,
    after: MidiTask,
    control: MidiControl,
    control2: MidiControl,
    c: u8,
    cc: u8,
    value: u8,
    freqs: Seq<u32>,
    r: Readings,
    effects: Effects,
)
    requires
        c < 16,
        cc == 1 || cc == 67 || cc == 120 || cc == 123,
        voice_step(
            before,
            after,
            control,
            control2,
            message_of((0xB0 + c) as u8, cc, value),
            freqs,
            r,
            effects,
        ),
    ensures
        cc == 1 ==> control2 == (MidiControl {
            mod_wheel_bits: if value == 0 {
                0
            } else {
                ratio_bits(value as nat, 127) as u32
            },
            ..control
        }),
        cc == 67 ==> after.notes@.soft_pedal == (value >= 64),
        cc == 67 ==> effects.preset == if before.notes@.soft_pedal && value < 64 {
            PresetAction::Next
        } else {
            PresetAction::Keep
        },
        cc == 67 ==> control2 == control,
        cc == 120 || cc == 123 ==> after.notes@.notes.len() == 0
            && after.notes@.pending_off.len() == 0 && !after.notes@.sustain,
        cc == 120 || cc == 123 ==> control2 == (MidiControl {
            gate: false,
            gate_reset: false,
            pitch_bend_bits: 0x3F80_0000,
            mod_wheel_bits: 0,
            ..control
        }),
        cc == 1 || cc == 67 ==> after.notes@.notes == before.notes@.notes
            && after.notes@.pending_off == before.notes@.pending_off && after.notes@.sustain
            == before.notes@.sustain,
        cc != 67 ==> after.notes@.soft_pedal == before.notes@.soft_pedal && effects.preset
            == PresetAction::Keep,
        effects.led == if cc == 120 || cc == 123 {
            Some(false)
        } else {
            None
        },
        after.working == before.working,
        after.current_preset_index == before.current_preset_index,
{
    if value > 0 {
        unit_is_nearest(value as nat);
    }
    unit_has_its_ends();
}

/// A controller that stands for a parameter of the sound changes that parameter in the working
/// preset and live, leaves keys, light and selection alone, and asks for a new voice exactly if the
/// parameter is structural.
pub proof fn sound_controls(
    before: MidiTask,
    after: MidiTask,
    control: MidiControl,
    control2: MidiControl,
    c: u8,
    cc: u8,
    value: u8,
    freqs: Seq<u32>,
    r: Readings,
    effects: Effects,
)
    requires
        c < 16,
        cc == 5 || 16 <= cc <= 31 || cc == 71 || cc == 74 || 85 <= cc <= 89 || 102 <= cc <= 118,
        voice_step(
            before,
            after,
            control,
            control2,
            message_of((0xB0 + c) as u8, cc, value),
            freqs,
            r,
            effects,
        ),
    ensures
        param_of(cc) is Some,
        word_changed(
            before.working,
            after.working,
            word_of(param_of(cc)->0),
            word_value(param_of(cc)->0, value, *r.tables),
        ),
        live_changed(control, control2, param_of(cc)->0, value, *r.tables),
        control2.gate == control.gate,
        control2.target_freq_bits == control.target_freq_bits,
        control2.velocity_bits == control.velocity_bits,
        control2.pitch_bend_bits == control.pitch_bend_bits,
        after.notes@ == before.notes@,
        after.current_preset_index == before.current_preset_index,
        effects == (Effects {
            led: None,
            preset: if cc == 85 || cc == 87 || cc >= 111 {
                PresetAction::Rebuild
            } else {
                PresetAction::Keep
            },
        }),
{
}

/// Messages that mean nothing to this device change nothing: other commands, and controllers
/// without a part here.
pub proof fn other_messages_change_nothing(
    before: MidiTask,
    after: MidiTask,
    control: MidiControl,
    control2: MidiControl,
    status: u8,
    d1: u8,
    d2: u8,
    freqs: Seq<u32>,
    r: Readings,
    effects: Effects,
)
    requires
        status < 0x80 || 0xA0 <= status < 0xB0 || 0xD0 <= status < 0xE0 || status >= 0xF0 || (0xB0
            <= status < 0xC0 && !(d1 == 1 || d1 == 5 || 16 <= d1 <= 31 || d1 == 64 || d1 == 67 || d1
            == 71 || d1 == 74 || 85 <= d1 <= 89 || 102 <= d1 <= 118 || d1 == 120 || d1 == 123)),
        voice_step(
            before,
            after,
            control,
            control2,
            message_of(status, d1, d2),
            freqs,
            r,
            effects,
        ),
    ensures
        after.notes@ == before.notes@,
        control2 == control,
        after.working == before.working,
        after.current_preset_index == before.current_preset_index,
        effects == (Effects { led: None, preset: PresetAction::Keep }),
{
}

/// The next preset is always a stored one, and which one it is depends on the place in the bank
/// alone: the one with the next higher number, or the first after the last.
pub proof fn next_is_stored(index: int, count: int)
    requires
        0 <= index,
        0 < count,
    ensures
        0 <= next_index(index, count) < count,
        index + 1 < count ==> next_index(index, count) == index + 1,
        index + 1 == count ==> next_index(index, count) == 0,
        next_index(index + count, count) == next_index(index, count),
        next_index(index, 0) == index,
{
    vstd::arithmetic::div_mod::lemma_mod_bound(index + 1, count);
    if index + 1 < count {
        vstd::arithmetic::div_mod::lemma_small_mod((index + 1) as nat, count as nat);
    }
    vstd::arithmetic::div_mod::lemma_mod_self_0(count);
    vstd::arithmetic::div_mod::lemma_mod_add_multiples_vanish(index + 1, count);
    assert(index + count + 1 == count + (index + 1));
}

/// Taking over a stored preset sets the glide as it says and moves the filter's two controls, never
/// beyond 0 and 1; what is played goes on as it is. Where there was no preset nothing changes.
pub proof fn load_leaves_the_player_alone(
    c: MidiControl,
    loaded: Option<Preset>,
    cutoff_norm: u32,
    resonance_norm: u32,
)
    ensures
        ({
            let c2 = control_loaded(c, loaded, cutoff_norm, resonance_norm);
            &&& loaded is None ==> c2 == c
            &&& loaded matches Some(p) ==> c2.portamento_amount_bits == p.portamento
            &&& loaded is Some && cutoff_norm <= 0x3F80_0000 ==> c2.parameter_1_bits == cutoff_norm
            &&& loaded is Some && 0x3F80_0000 < cutoff_norm <= 0x7F80_0000 ==> c2.parameter_1_bits
                == 0x3F80_0000
            &&& loaded is Some && 0x8000_0000 < cutoff_norm <= 0xFF80_0000 ==> c2.parameter_1_bits
                == 0
            &&& loaded is Some && resonance_norm <= 0x3F80_0000 ==> c2.parameter_2_bits
                == resonance_norm
            &&& loaded is Some && 0x3F80_0000 < resonance_norm <= 0x7F80_0000
                ==> c2.parameter_2_bits == 0x3F80_0000
            &&& loaded is Some && 0x8000_0000 < resonance_norm <= 0xFF80_0000
                ==> c2.parameter_2_bits == 0
            &&& c2.gate == c.gate
            &&& c2.gate_reset == c.gate_reset
            &&& c2.target_freq_bits == c.target_freq_bits
            &&& c2.velocity_bits == c.velocity_bits
            &&& c2.pitch_bend_bits == c.pitch_bend_bits
            &&& c2.mod_wheel_bits == c.mod_wheel_bits
            &&& c2.cont == c.cont
        }),
{
}

/// The whole packets, one behind the other, are the data but for fewer than four bytes at its end.
pub proof fn packets_are_the_data(data: Seq<u8>)
    ensures
        data.len() - 4 * packets_in(data).len() < 4,
        4 * packets_in(data).len() <= data.len(),
        forall|k: int, i: int|
            0 <= k < packets_in(data).len() && 0 <= i < 4 ==> #[trigger] packets_in(data)[k][i]
                == data[4 * k + i],
        forall|k: int|
            0 <= k < packets_in(data).len() ==> #[trigger] packets_in(data)[k].len() == 4,
{
}

/// A packet belongs to a system-exclusive message exactly if the lower half of its first byte is 4,
/// 5, 6 or 7, and then carries three, one, two or three bytes of it; the upper half, the number of
/// a cable, does not matter.
pub proof fn code_tells_the_bytes(cable: u8, code: u8, a: u8, b: u8, c: u8)
    requires
        cable < 16,
        code < 16,
    ensures
        ({
            let packet = seq![(16 * cable + code) as u8, a, b, c];
            &&& is_sysex(packet) <==> code == 4 || code == 5 || code == 6 || code == 7
            &&& code == 4 || code == 7 ==> packet_bytes(packet) == seq![a, b, c]
            &&& code == 5 ==> packet_bytes(packet) == seq![a]
            &&& code == 6 ==> packet_bytes(packet) == seq![a, b]
        }),
{
    let packet = seq![(16 * cable + code) as u8, a, b, c];
    assert(packet[0] % 16 == code);
    if code == 4 || code == 7 {
        assert(packet_bytes(packet) =~= seq![a, b, c]);
    } else if code == 5 {
        assert(packet_bytes(packet) =~= seq![a]);
    } else if code == 6 {
        assert(packet_bytes(packet) =~= seq![a, b]);
    }
}

/// A packet whose last byte ends an open message for this manufacturer and model gives that message
/// back, whatever its command: the command is the message's fourth byte, and the payload is what
/// came in. One that ends a message for another device gives none, nor does one without an end.
pub proof fn end_gives_the_message(s: Reception, bytes: Seq<u8>, room: nat)
    requires
        bytes.len() > 0,
        forall|i: int| 0 <= i < bytes.len() - 1 ==> #[trigger] bytes[i] != 0xF7,
    ensures
        ({
            let before = receive_all(s, bytes.drop_last(), room);
            let ends = bytes.last() == 0xF7 && before.open && before.header.len() == 4;
            let ours = before.header[1] == 0x7D && before.header[2] == 0x01;
            match completed(s, bytes, room) {
                Some(done) => {
                    &&& ends && ours
                    &&& done.data == before.data
                    &&& complete_message(done).command == before.header[3]
                    &&& before.data.len() <= usize::MAX ==> complete_message(done).len
                        == before.data.len()
                    &&& complete_message(done).overflow == (before.overflow || before.high is Some)
                },
                None => !(ends && ours),
            }
        }),
{
    let front = bytes.drop_last();
    assert forall|i: int| 0 <= i < front.len() implies front[i] != SYSEX_END by {
        assert(front[i] == bytes[i]);
    }
    nothing_completes(s, front, room);
}

/// The two packets of a dump request, on any cable, ask a device in any state of reception for a
/// dump of the whole bank, and for nothing else.
pub proof fn dump_request_is_answered(cable: u8, s: Reception, image: Seq<u8>)
    requires
        cable < 16,
        image.len() == 28_672,
    ensures
        ({
            let room = STORAGE_IMAGE_SIZE as nat;
            let first = seq![(16 * cable + 4) as u8, 0xF0u8, 0x7Du8, 0x01u8];
            let second = seq![(16 * cable + 6) as u8, 0x01u8, 0xF7u8, 0x00u8];
            let between = receive_all(s, packet_bytes(first), room);
            &&& is_sysex(first)
            &&& is_sysex(second)
            &&& packet_response(s, first, image) is None
            &&& packet_response(between, second, image) == Some(
                SysexResponse {
                    job: SysexJob::Dump { len: 28_672 },
                    status: None,
                    reload: false,
                },
            )
        }),
{
    let room = STORAGE_IMAGE_SIZE as nat;
    let first = seq![(16 * cable + 4) as u8, 0xF0u8, 0x7Du8, 0x01u8];
    let second = seq![(16 * cable + 6) as u8, 0x01u8, 0xF7u8, 0x00u8];
    code_tells_the_bytes(cable, 4, 0xF0, 0x7D, 0x01);
    code_tells_the_bytes(cable, 6, 0x01, 0xF7, 0x00);
    let b1 = packet_bytes(first);
    let b2 = packet_bytes(second);
    nothing_completes(s, b1, room);
    let between = receive_all(s, b1, room);
    assert(b1.drop_last() =~= seq![0xF0u8, 0x7Du8]);
    assert(b1.drop_last().drop_last() =~= seq![0xF0u8]);
    assert(b1.drop_last().drop_last().drop_last() =~= Seq::empty());
    assert(receive_all(s, seq![0xF0u8], room) == receive(s, 0xF0, room));
    assert(receive_all(s, seq![0xF0u8, 0x7Du8], room) == receive(
        receive(s, 0xF0, room),
        0x7D,
        room,
    ));
    assert(between.open && between.header =~= seq![0xF0u8, 0x7Du8, 0x01u8]);
    assert(b2.drop_last() =~= seq![0x01u8]);
    assert(b2.drop_last().drop_last() =~= Seq::empty());
    let last = receive_all(between, b2.drop_last(), room);
    let one = seq![0x01u8];
    assert(receive_all(between, one.drop_last(), room) == between) by {
        assert(one.drop_last().len() == 0);
    }
    assert(receive_all(between, one, room) == receive(between, one.last(), room));
    assert(last == receive(between, 0x01, room));
    assert(last.header =~= seq![0xF0u8, 0x7Du8, 0x01u8, 0x01u8]);
    end_gives_the_message(between, b2, room);
}

/// A bank that is dumped and sent back, packet by packet, is answered with a write of the whole
/// bank, the report of success and a reload; an old or foreign one of the same size with a refusal.
pub proof fn last_packet_is_answered(image: Seq<u8>, s: Reception, held: Seq<u8>)
    requires
        image.len() == 28_672,
        held == image,
    ensures
        ({
            let packets = usb_packets(dump_message(image));
            let last = packets.len() - 1;
            let reached = receive_all(s, joined(packets.take(last)), STORAGE_IMAGE_SIZE as nat);
            packet_response(reached, packets[last], held) == Some(
                if is_current(image) {
                    SysexResponse {
                        job: SysexJob::Write { len: 28_672 },
                        status: Some((0x03, None)),
                        reload: true,
                    }
                } else {
                    SysexResponse {
                        job: SysexJob::Nothing,
                        status: Some((0x04, Some(0x02))),
                        reload: false,
                    }
                },
            )
        }),
{
    let room = STORAGE_IMAGE_SIZE as nat;
    let message = dump_message(image);
    let packets = usb_packets(message);
    let k = packets.len() - 1;
    let bytes = packet_bytes(packets[k]);
    let reached = receive_all(s, joined(packets.take(k)), room);
    dump_packets_write_the_bank(image, s, k);
    packets_carry_the_message(message);
    assert(packets.take(k) =~= packets.drop_last());
    receive_all_parts(s, joined(packets.take(k)), bytes, room);
    receive_all_parts(s, joined(packets.take(k)), bytes.drop_last(), room);
    assert(packets[k] == usb_packet(message, k));
    assert(bytes =~= message.skip(3 * k));
    assert(joined(packets.take(k)) + bytes.drop_last() =~= message.drop_last());
    dump_is_received(image, s, room);
}

/// The lower seven bits of a pitch bend are those of the first data byte and the bits from 8 on are
/// those of the second; where both reach, at bit 7, either sets it.
pub proof fn bend_is_made_of_both_bytes(d1: u8, d2: u8)
    ensures
        bend_of(d1, d2) % 128 == d1 % 128,
        bend_of(d1, d2) / 256 == d2 / 2,
        bend_of(d1, d2) / 128 % 2 == 1 <==> d1 >= 128 || d2 % 2 == 1,
{
    let x = bend_of(d1, d2);
    let a = d1 as u16;
    let b = d2 as u16;
    assert(((b << 7) | a) % 128 == a % 128 && ((b << 7) | a) / 256 == b / 2) by (bit_vector)
        requires
            a < 256,
            b < 256,
    ;
    assert(((b << 7) | a) / 128 % 2 == 1 <==> a >= 128 || b % 2 == 1) by (bit_vector)
        requires
            a < 256,
            b < 256,
    ;
}

} // verus!
