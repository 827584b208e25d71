use picodsp_ble::midictl::{
    check_dump, check_writeback, control_change, dump_info, dump_request, find_port, note_messages,
    parse_byte, parse_raw, parse_request, program_change, read_reply, Collector, Reply, Request,
    DEFAULT_PORT,
};
use picodsp_ble::storage::{Storage, MAGIC, VERSION};
use picodsp_ble::sysex::{sysex_status, SysexDump, CMD_WRITE_ERROR, CMD_WRITE_SUCCESS};

fn args(words: &[&str]) -> Vec<String> {
    words.iter().map(|w| w.to_string()).collect()
}

fn collect(packets: &[[u8; 4]]) -> Collector {
    let mut c = Collector::new();
    for p in packets {
        let n = match p[0] {
            4 | 7 => 3,
            5 => 1,
            _ => 2,
        };
        for b in &p[1..1 + n] {
            c.feed(*b);
        }
    }
    c
}

#[test]
fn bytes_on_the_command_line() {
    for n in 0..=255u32 {
        assert_eq!(parse_byte(&format!("{}", n)), Some(n as u8));
        assert_eq!(parse_byte(&format!("0x{:x}", n)), Some(n as u8));
        assert_eq!(parse_byte(&format!("0X{:02X}", n)), Some(n as u8));
    }
    assert_eq!(parse_byte("+7"), Some(7));
    assert_eq!(parse_byte("0x+1F"), Some(31));
    assert_eq!(parse_byte("007"), Some(7));
    assert_eq!(parse_byte("0x00000000ff"), Some(255));
    for bad in [
        "", "+", "-1", "-0", "256", "0x", "0x100", "0x1G", "1F", "12 ", " 12", "1_0", "++1", "0x+",
        "99999999999999999999", "é", "0y1",
    ] {
        assert_eq!(parse_byte(bad), None, "{}", bad);
        let std = match bad.strip_prefix("0x") {
            Some(hex) => u8::from_str_radix(hex, 16).ok(),
            None => bad.parse().ok(),
        };
        assert_eq!(std, None, "{}", bad);
    }
}

#[test]
fn ports_are_matched_whatever_the_case() {
    let names = vec![
        Some("Keyboard".to_string()),
        None,
        Some("PicoDSP (infinitedsp 0.7.0)".to_string()),
        Some("other picodsp".to_string()),
    ];
    assert_eq!(find_port(&names, DEFAULT_PORT), Some(2));
    assert_eq!(find_port(&names, "PICODSP"), Some(2));
    assert_eq!(find_port(&names, "OTHER"), Some(3));
    assert_eq!(find_port(&names, "board"), Some(0));
    assert_eq!(find_port(&names, "none"), None);
    assert_eq!(find_port(&Vec::new(), ""), None);
    assert_eq!(find_port(&vec![Some("ÄÖ".to_string())], "äö"), Some(0));
}

#[test]
fn requests() {
    assert_eq!(parse_request(&args(&[])), Request::Usage);
    assert_eq!(parse_request(&args(&[""])), Request::Usage);
    assert_eq!(parse_request(&args(&["list"])), Request::List);
    assert_eq!(
        parse_request(&args(&["pc", "12"])),
        Request::Program { program: 12 }
    );
    assert_eq!(parse_request(&args(&["pc"])), Request::Missing);
    assert_eq!(
        parse_request(&args(&["note", "60", "8"])),
        Request::Note {
            note: 60,
            velocity: 100
        }
    );
    assert_eq!(
        parse_request(&args(&["note", "72", "4", "99"])),
        Request::Note {
            note: 72,
            velocity: 99
        }
    );
    assert_eq!(parse_request(&args(&["note", "x"])), Request::Missing);
    assert_eq!(
        parse_request(&args(&["cc", "74", "0x40"])),
        Request::Control {
            controller: 74,
            value: 64
        }
    );
    assert_eq!(parse_request(&args(&["cc", "74"])), Request::Missing);
    assert_eq!(parse_request(&args(&["raw", "1"])), Request::Raw);
    assert_eq!(parse_request(&args(&["dump"])), Request::Dump);
    assert_eq!(parse_request(&args(&["writeback"])), Request::Writeback);
    assert_eq!(parse_request(&args(&["LIST"])), Request::Unknown);
    assert_eq!(
        parse_raw(&args(&["raw", "0x90", "x", "0x3C", "100"])),
        vec![0x90, 0x3C, 100]
    );
    assert!(parse_raw(&args(&["raw"])).is_empty());
}

#[test]
fn messages_to_send() {
    assert_eq!(program_change(12), [0xC0, 12]);
    assert_eq!(program_change(200), [0xC0, 72]);
    assert_eq!(note_messages(60, 100), ([0x90, 60, 100], [0x80, 60, 0]));
    assert_eq!(note_messages(188, 228), ([0x90, 60, 100], [0x80, 60, 0]));
    assert_eq!(control_change(74, 64), [0xB0, 74, 64]);
    assert_eq!(dump_request(), [0xF0, 0x7D, 0x01, 0x01, 0xF7]);
}

#[test]
fn dump_is_read() {
    let (_, image) = Storage::format();
    let mut dump = SysexDump::new();
    let mut packets = Vec::new();
    while let Some(p) = dump.next_packet(&image) {
        packets.push(p);
    }
    let c = collect(&packets);
    assert!(c.done);
    assert!(check_dump(&c.bytes));
    assert!(check_writeback(&c.bytes));
    let info = dump_info(&c.bytes);
    assert_eq!(info.nibbles, 2 * 28672);
    assert_eq!(info.magic, MAGIC);
    assert_eq!(info.version, VERSION);
    assert_eq!(info.num_presets, 128);
}

#[test]
fn bad_frames() {
    assert!(!check_dump(&[]));
    assert!(!check_dump(&[0xF0, 0x7D, 1, 2, 0xF7]));
    assert!(check_dump(&[0xF0, 0x7D, 1, 2, 5, 0xF7]));
    assert!(!check_writeback(&[0xF0, 0x7D, 1, 2, 5, 0xF7]));
    assert!(check_writeback(&[0xF0, 0x7D, 1, 2, 5, 6, 0xF7]));
    assert!(!check_dump(&[0xF0, 0x7D, 1, 3, 5, 0xF7]));
    assert!(!check_dump(&[0xF0, 0x7D, 1, 2, 5, 6]));
}

#[test]
fn collecting_starts_over() {
    let mut c = Collector::new();
    for b in [1, 0xF7, 0xF0, 2, 0xF0, 3] {
        c.feed(b);
        assert!(!c.done);
    }
    c.feed(0xF7);
    assert!(c.done);
    assert_eq!(c.bytes, vec![0xF0, 3, 0xF7]);
}

#[test]
fn replies() {
    let success = collect(&sysex_status(CMD_WRITE_SUCCESS, None));
    assert_eq!(read_reply(&success.bytes), Reply::Success);
    let error = collect(&sysex_status(CMD_WRITE_ERROR, Some(2)));
    assert_eq!(read_reply(&error.bytes), Reply::Error { code: 2 });
    assert_eq!(read_reply(&[]), Reply::Unexpected);
    assert_eq!(read_reply(&[0xF0, 0x7D, 1, 4, 0xF7]), Reply::Unexpected);
    assert_eq!(read_reply(&[0xF0, 0x7D, 1, 3, 1, 0xF7]), Reply::Unexpected);
}
