//! The USB microphone: how it describes itself and answers its controls.

use vstd::prelude::*;

verus! {

/// How many bytes a sample has.
#[derive(Clone, Copy, Debug, PartialEq, Eq, Structural)]
pub enum SampleWidth {
    Width2Byte,
    Width3Byte,
    Width4Byte,
}

pub open spec fn width_bytes(width: SampleWidth) -> int {
    match width {
        SampleWidth::Width2Byte => 2,
        SampleWidth::Width3Byte => 3,
        SampleWidth::Width4Byte => 4,
    }
}

/// `embassy_usb::class::uac1::SampleWidth::in_bit`: a sample's size in bits, eight for each byte.
#[verifier::external_body]
fn in_bit(width: SampleWidth) -> (bits: usize)
    ensures
        bits == 8 * width_bytes(width),
{
    match width {
        SampleWidth::Width2Byte => embassy_usb::class::uac1::SampleWidth::Width2Byte,
        SampleWidth::Width3Byte => embassy_usb::class::uac1::SampleWidth::Width3Byte,
        SampleWidth::Width4Byte => embassy_usb::class::uac1::SampleWidth::Width4Byte,
    }.in_bit()
}

#[derive(Clone, Copy, Debug, PartialEq, Eq, Structural)]
pub struct Config {
    pub audio_format: SampleWidth,
    pub channel_count: u8,
    pub sample_rate: u32,
    pub packet_size: u16,
}

impl Default for Config {
    fn default() -> (config: Self)
        ensures
            config == (Config {
                audio_format: SampleWidth::Width2Byte,
                channel_count: 2,
                sample_rate: 48_000,
                packet_size: 192,
            }),
    {
        Config {
            audio_format: SampleWidth::Width2Byte,
            channel_count: 2,
            sample_rate: 48_000,
            packet_size: 192,
        }
    }
}

/// Answers the microphone's control requests.
pub struct Control;

/// A control request.
#[derive(Clone, Copy, Debug, PartialEq, Eq, Structural)]
pub struct ControlRequest {
    /// It is of the device class and meant for an interface.
    pub class_interface: bool,
    pub request: u8,
    pub value: u16,
}

/// The answer to a read request: mute is off; the volume is 0, from -64 to 0 decibels in steps of
/// one, in 256ths of a decibel. Other requests are passed over.
pub open spec fn control_answer(req: ControlRequest) -> Option<Seq<u8>> {
    let selector = req.value / 0x100;
    if !req.class_interface {
        None
    } else if selector == 1 && req.request == 0x81 {
        Some(seq![0u8])
    } else if selector == 2 && (req.request == 0x81 || req.request == 0x83) {
        Some(seq![0u8, 0u8])
    } else if selector == 2 && req.request == 0x82 {
        Some(seq![0u8, 0xC0u8])
    } else if selector == 2 && req.request == 0x84 {
        Some(seq![0u8, 0x01u8])
    } else {
        None
    }
}

impl Control {
    /// Whether a write request is accepted: each is, and none has an effect.
    pub fn control_out(&self) -> (accepted: bool)
        ensures
            accepted,
    {
        true
    }

    /// Puts the answer to a read request into `buf` and gives its length, if there is an answer.
    pub fn control_in(&self, req: ControlRequest, buf: &mut [u8]) -> (len: Option<usize>)
        requires
            control_answer(req) matches Some(answer) ==> answer.len() <= old(buf)@.len(),
        ensures
            match control_answer(req) {
                Some(answer) => {
                    &&& len == Some(answer.len() as usize)
                    &&& final(buf)@ == answer + old(buf)@.skip(answer.len() as int)
                },
                None => len is None && final(buf)@ == old(buf)@,
            },
    {
        if !req.class_interface {
            return None;
        }
        let cs: u16 = req.value / 0x100;
        if cs == 0x01 {
            match req.request {
                0x81 => {
                    buf[0] = 0;
                    assert(buf@ =~= seq![0u8] + old(buf)@.skip(1));
                    return Some(1);
                },
                _ => {
                    return None;
                },
            }
        }
        if cs == 0x02 {
            let high: u8 = match req.request {
                0x81 | 0x83 => 0x00,
                0x82 => 0xC0,
                0x84 => 0x01,
                _ => {
                    return None;
                },
            };
            buf[0] = 0x00;
            buf[1] = high;
            assert(buf@ =~= seq![0u8, high] + old(buf)@.skip(2));
            return Some(2);
        }
        None
    }
}

/// What the microphone keeps while the device runs.
pub struct State {
    pub control: Option<Control>,
}

impl State {
    pub fn new() -> (state: Self)
        ensures
            state.control is None,
    {
        State { control: None }
    }
}

/// The descriptors of the microphone, each with its length and type in front.
pub struct Descriptors {
    pub header: [u8; 9],
    pub input_terminal: [u8; 12],
    pub feature_unit: [u8; 10],
    pub output_terminal: [u8; 9],
    pub stream: [u8; 7],
    pub format: [u8; 11],
    pub endpoint: [u8; 7],
}

/// The length of the descriptors of the control interface together.
pub const CONTROL_LENGTH: u8 = 40;

/// The descriptors say how long they are, each for itself and those of the control interface
/// together, and hold the sample rate as far as 24 bits can.
pub open spec fn describes(d: Descriptors, config: Config) -> bool {
    &&& d.header@[0] == d.header@.len()
    &&& d.input_terminal@[0] == d.input_terminal@.len()
    &&& d.feature_unit@[0] == d.feature_unit@.len()
    &&& d.output_terminal@[0] == d.output_terminal@.len()
    &&& d.stream@[0] == d.stream@.len()
    &&& d.format@[0] == d.format@.len()
    &&& d.endpoint@[0] == d.endpoint@.len()
    &&& d.header@[5] == d.header@.len() + d.input_terminal@.len() + d.feature_unit@.len()
        + d.output_terminal@.len()
    &&& d.input_terminal@[7] == config.channel_count
    &&& d.format@[4] == config.channel_count
    &&& d.format@[6] == 8 * d.format@[5]
    &&& d.format@[5] == 2 <==> config.audio_format is Width2Byte
    &&& d.format@[5] == 3 <==> config.audio_format is Width3Byte
    &&& d.format@[5] == 4 <==> config.audio_format is Width4Byte
    &&& d.format@[8] + 0x100 * d.format@[9] + 0x1_0000 * d.format@[10] == config.sample_rate
        % 0x100_0000
}

/// The microphone: one input with a volume and a mute, streamed to the host.
pub struct Uac1MicrophoneClass;

impl Uac1MicrophoneClass {
    /// The descriptors of a microphone whose control interface has number `interface`; its
    /// streaming interface has the next one.
    pub fn new(state: &mut State, config: Config, interface: u8) -> (d: Descriptors)
        requires
            interface < 255,
        ensures
            final(state).control is Some,
            d.header@ == seq![
                9u8,
                0x24u8,
                1u8,
                0u8,
                1u8,
                CONTROL_LENGTH,
                0u8,
                1u8,
                (interface + 1) as u8,
            ],
            d.input_terminal@ == seq![
                12u8,
                0x24u8,
                2u8,
                1u8,
                3u8,
                6u8,
                0u8,
                config.channel_count,
                3u8,
                0u8,
                0u8,
                0u8,
            ],
            d.feature_unit@ == seq![10u8, 0x24u8, 6u8, 2u8, 1u8, 1u8, 3u8, 0u8, 0u8, 0u8],
            d.output_terminal@ == seq![9u8, 0x24u8, 3u8, 3u8, 1u8, 1u8, 0u8, 2u8, 0u8],
            d.stream@ == seq![7u8, 0x24u8, 1u8, 3u8, 1u8, 1u8, 0u8],
            d.format@ == seq![
                11u8,
                0x24u8,
                2u8,
                1u8,
                config.channel_count,
                width_bytes(config.audio_format) as u8,
                (8 * width_bytes(config.audio_format)) as u8,
                1u8,
                (config.sample_rate % 0x100) as u8,
                (config.sample_rate / 0x100 % 0x100) as u8,
                (config.sample_rate / 0x1_0000 % 0x100) as u8,
            ],
            d.endpoint@ == seq![7u8, 0x25u8, 1u8, 0u8, 0u8, 0u8, 0u8],
            describes(d, config),
    {
        state.control = Some(Control);
        let width: u8 = match config.audio_format {
            SampleWidth::Width2Byte => 2,
            SampleWidth::Width3Byte => 3,
            SampleWidth::Width4Byte => 4,
        };
        let d = Descriptors {
            header: [9, 0x24, 1, 0, 1, CONTROL_LENGTH, 0, 1, interface + 1],
            input_terminal: [12, 0x24, 2, 1, 3, 6, 0, config.channel_count, 3, 0, 0, 0],
            feature_unit: [10, 0x24, 6, 2, 1, 1, 3, 0, 0, 0],
            output_terminal: [9, 0x24, 3, 3, 1, 1, 0, 2, 0],
            stream: [7, 0x24, 1, 3, 1, 1, 0],
            format: [
                11,
                0x24,
                2,
                1,
                config.channel_count,
                width,
                in_bit(config.audio_format) as u8,
                1,
                (config.sample_rate % 0x100) as u8,
                (config.sample_rate / 0x100 % 0x100) as u8,
                (config.sample_rate / 0x1_0000 % 0x100) as u8,
            ],
            endpoint: [7, 0x25, 1, 0, 0, 0, 0],
        };
        d
    }
}

/// The channel in the lower half of the value does not matter. Reading the mute gives off; reading
/// the volume, its least, its greatest and its step gives 0, -64, 0 and 1 decibels, as 256ths in
/// two bytes, the lower one first. Everything else is passed over.
pub proof fn controls_are_answered(request: u8, selector: u8, channel: u8)
    ensures
        ({
            let value = (0x100 * selector + channel) as u16;
            let answer = control_answer(ControlRequest { class_interface: true, request, value });
            &&& answer is Some <==> (selector == 1 && request == 0x81) || (selector == 2 && 0x81
                <= request <= 0x84)
            &&& selector == 1 && request == 0x81 ==> answer == Some(seq![0u8])
            &&& selector == 2 && request == 0x81 ==> answer == Some(seq![0u8, 0u8])
            &&& selector == 2 && request == 0x82 ==> answer == Some(seq![0u8, 0xC0u8])
            &&& selector == 2 && request == 0x83 ==> answer == Some(seq![0u8, 0u8])
            &&& selector == 2 && request == 0x84 ==> answer == Some(seq![0u8, 1u8])
            &&& control_answer(ControlRequest { class_interface: false, request, value }) is None
        }),
{
    let value = (0x100 * selector + channel) as u16;
    assert(value / 0x100 == selector);
}

} // verus!
