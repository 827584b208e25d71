use picodsp_ble::shell::{Shell, ShellAction, SystemCommand};
use picodsp_ble::system_info::{core0_stack_used, memory_map, parse_int};
use picodsp_ble::text::{holds_text, same_text, trim};
use picodsp_ble::uac1::{
    Config, Control, ControlRequest, SampleWidth, State, Uac1MicrophoneClass,
};

fn type_line(shell: &mut Shell, text: &[u8]) -> Vec<ShellAction> {
    text.iter()
        .map(|b| shell.feed(*b))
        .filter(|a| *a != ShellAction::Nothing)
        .collect()
}

#[test]
fn typed_commands() {
    let mut shell = Shell::new();
    assert_eq!(type_line(&mut shell, b"reboot\r"), vec![ShellAction::Reboot]);
    assert_eq!(
        type_line(&mut shell, b"  restart \t\n"),
        vec![ShellAction::Restart]
    );
    assert_eq!(
        type_line(&mut shell, b"reset\r\n"),
        vec![ShellAction::Send {
            command: SystemCommand::ResetStorage
        }]
    );
    assert_eq!(type_line(&mut shell, b"resets\rRESET\r\r"), vec![]);
    // white space of the upper half
    assert_eq!(
        type_line(&mut shell, b"\xA0reset\x85\n"),
        vec![ShellAction::Send {
            command: SystemCommand::ResetStorage
        }]
    );
}

#[test]
fn long_lines_are_cut() {
    let mut shell = Shell::new();
    // 27 blanks and the command fill the line; what follows is dropped
    let mut line = vec![b' '; 27];
    line.extend_from_slice(b"resetting\r");
    assert_eq!(
        type_line(&mut shell, &line),
        vec![ShellAction::Send {
            command: SystemCommand::ResetStorage
        }]
    );
    // a character of two bytes does not fit behind 31, one of one byte does
    let mut line = vec![b' '; 27];
    line.extend_from_slice(b"rese\xE9t\r");
    assert_eq!(
        type_line(&mut shell, &line),
        vec![ShellAction::Send {
            command: SystemCommand::ResetStorage
        }]
    );
}

#[test]
fn text_helpers() {
    assert_eq!(trim(" \t a b \r"), "a b");
    assert_eq!(trim("   "), "");
    assert!(same_text("abc", "abc"));
    assert!(!same_text("abc", "abd"));
    assert!(!same_text("abc", "ab"));
    assert!(holds_text("my picodsp port", "picodsp"));
    assert!(holds_text("abc", ""));
    assert!(holds_text("", ""));
    assert!(!holds_text("ab", "abc"));
    assert!(holds_text("aab", "ab"));
}

#[test]
fn digits_in_text() {
    assert_eq!(parse_int("2048"), 2048);
    assert_eq!(parse_int("16M 3"), 163);
    assert_eq!(parse_int(""), 0);
}

#[test]
fn map_of_the_flash() {
    let map = memory_map(0x1000_0110, 0x1002_0000, 0x2000_0000, 0x2000_1000, 2048);
    assert_eq!(map.program_end, 0x1002_1000);
    assert_eq!(map.program_kb, (0x2_0000 - 0x110 + 0x1000) / 1024);
    assert_eq!(map.presets_kb, 64);
    assert_eq!(map.presets_start, 0x101F_0000);
    assert_eq!(map.presets_end, 0x1020_0000);
    assert_eq!(map.used_kb, (0x2_0000 - 0x110 + 0x1000 + 65536) / 1024);
    assert_eq!(map.flash_kb, 2048);
    assert_eq!(core0_stack_used(0x2007_FF00), 256);
}

#[test]
fn microphone_descriptors() {
    let mut state = State::new();
    assert!(state.control.is_none());
    let d = Uac1MicrophoneClass::new(&mut state, Config::default(), 3);
    assert!(state.control.is_some());
    assert_eq!(d.header, [9, 0x24, 1, 0, 1, 40, 0, 1, 4]);
    assert_eq!(d.input_terminal, [12, 0x24, 2, 1, 3, 6, 0, 2, 3, 0, 0, 0]);
    assert_eq!(d.feature_unit, [10, 0x24, 6, 2, 1, 1, 3, 0, 0, 0]);
    assert_eq!(d.output_terminal, [9, 0x24, 3, 3, 1, 1, 0, 2, 0]);
    assert_eq!(d.stream, [7, 0x24, 1, 3, 1, 1, 0]);
    assert_eq!(d.format, [11, 0x24, 2, 1, 2, 2, 16, 1, 0x80, 0xBB, 0x00]);
    assert_eq!(d.endpoint, [7, 0x25, 1, 0, 0, 0, 0]);
    assert_eq!(Config::default().packet_size, 192);
    let wide = Config {
        audio_format: SampleWidth::Width3Byte,
        sample_rate: 0x01_2345,
        channel_count: 1,
        packet_size: 200,
    };
    let d = Uac1MicrophoneClass::new(&mut state, wide, 0);
    assert_eq!(d.format, [11, 0x24, 2, 1, 1, 3, 24, 1, 0x45, 0x23, 0x01]);
    let widest = Config {
        audio_format: SampleWidth::Width4Byte,
        ..wide
    };
    assert_eq!(Uac1MicrophoneClass::new(&mut state, widest, 0).format[5..7], [4, 32]);
}

#[test]
fn microphone_controls() {
    let ask = |request, value, class_interface| {
        let mut buf = [9; 4];
        let len = Control.control_in(
            ControlRequest {
                class_interface,
                request,
                value,
            },
            &mut buf,
        );
        len.map(|n| buf[..n].to_vec())
    };
    assert_eq!(ask(0x81, 0x0100, true), Some(vec![0]));
    assert_eq!(ask(0x82, 0x0100, true), None);
    assert_eq!(ask(0x81, 0x0201, true), Some(vec![0, 0]));
    assert_eq!(ask(0x82, 0x0200, true), Some(vec![0, 0xC0]));
    assert_eq!(ask(0x83, 0x0200, true), Some(vec![0, 0]));
    assert_eq!(ask(0x84, 0x0200, true), Some(vec![0, 1]));
    assert_eq!(ask(0x85, 0x0200, true), None);
    assert_eq!(ask(0x81, 0x0300, true), None);
    assert_eq!(ask(0x81, 0x0100, false), None);
    assert!(Control.control_out());
}
