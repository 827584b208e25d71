use picodsp_ble::factory::get_default_presets;
use picodsp_ble::midi::receive_packet;
use picodsp_ble::storage::{
    encode_bank, FlashStep, Storage, ADDR_OFFSET, FLASH_SIZE, STORAGE_IMAGE_SIZE,
};
use picodsp_ble::sysex::{
    handle_sysex, sysex_status, SysexDump, SysexJob, SysexMessage, SysexResponse, SysexRx, SysexTx,
    CMD_DUMP_REQ, CMD_WRITE_ERROR, CMD_WRITE_REQ, CMD_WRITE_SUCCESS, ERR_BAD_LENGTH, ERR_BAD_MAGIC,
};

fn packets(image: &[u8]) -> Vec<[u8; 4]> {
    let mut dump = SysexDump::new();
    let mut out = Vec::new();
    while let Some(p) = dump.next_packet(image) {
        out.push(p);
    }
    assert_eq!(dump.next_packet(image), None);
    out
}

fn bytes_of(packets: &[[u8; 4]]) -> Vec<u8> {
    let mut out = Vec::new();
    for p in packets {
        let n = match p[0] {
            4 | 7 => 3,
            5 => 1,
            6 => 2,
            _ => 0,
        };
        out.extend_from_slice(&p[1..1 + n]);
    }
    out
}

fn refused(error: u8) -> SysexResponse {
    SysexResponse {
        job: SysexJob::Nothing,
        status: Some((CMD_WRITE_ERROR, Some(error))),
        reload: false,
    }
}

#[test]
fn bytes_go_out_in_threes() {
    let mut tx = SysexTx::new();
    assert_eq!(tx.push(1), None);
    assert_eq!(tx.push(2), None);
    assert_eq!(tx.push(3), Some([4, 1, 2, 3]));
    assert_eq!(tx.end(), [5, 0xF7, 0, 0]);
    assert_eq!(tx.push(7), None);
    assert_eq!(tx.end(), [6, 7, 0xF7, 0]);
    tx.push(8);
    tx.push(9);
    assert_eq!(tx.end(), [7, 8, 9, 0xF7]);
}

#[test]
fn dump_of_a_short_image() {
    assert_eq!(
        packets(&[0xAB, 0x0C]),
        vec![
            [4, 0xF0, 0x7D, 0x01],
            [4, 0x02, 0x0A, 0x0B],
            [7, 0x00, 0x0C, 0xF7],
        ]
    );
    assert_eq!(
        packets(&[]),
        vec![[4, 0xF0, 0x7D, 0x01], [6, 0x02, 0xF7, 0x00]]
    );
    assert_eq!(
        packets(&[0x12]),
        vec![
            [4, 0xF0, 0x7D, 0x01],
            [4, 0x02, 0x01, 0x02],
            [5, 0xF7, 0x00, 0x00],
        ]
    );
}

#[test]
fn status_messages() {
    assert_eq!(
        sysex_status(CMD_WRITE_SUCCESS, None),
        [[4, 0xF0, 0x7D, 0x01], [6, 0x03, 0xF7, 0x00]]
    );
    assert_eq!(
        sysex_status(CMD_WRITE_ERROR, Some(ERR_BAD_MAGIC)),
        [[4, 0xF0, 0x7D, 0x01], [7, 0x04, 0x02, 0xF7]]
    );
}

#[test]
fn dumped_bank_is_written_back() {
    let (_, image) = Storage::format();
    let mut rx = SysexRx::new(STORAGE_IMAGE_SIZE);
    // an unfinished message in front does no harm
    for b in [0xF0, 0x7D, 0x01, 0x02, 0x0F] {
        assert_eq!(rx.feed(b), None);
    }
    let all = packets(&image);
    assert_eq!(all.len(), (4 + 2 * 28672) / 3 + 1);
    for p in &all[..all.len() - 1] {
        assert_eq!(receive_packet(&mut rx, *p), None);
    }
    let m = receive_packet(&mut rx, all[all.len() - 1]).unwrap();
    assert_eq!(
        m,
        SysexMessage {
            command: CMD_WRITE_REQ,
            len: STORAGE_IMAGE_SIZE,
            overflow: false
        }
    );
    assert_eq!(rx.image, image);
    assert_eq!(
        handle_sysex(m, &rx.image),
        SysexResponse {
            job: SysexJob::Write {
                len: STORAGE_IMAGE_SIZE
            },
            status: Some((CMD_WRITE_SUCCESS, None)),
            reload: true,
        }
    );
}

fn write(flash: &mut [u8], data: &[u8]) {
    for step in Storage::write_raw(data.len()) {
        match step {
            FlashStep::Erase { from, to } => flash[from as usize..to as usize].fill(0xFF),
            FlashStep::Write { at } => {
                for (i, d) in data.iter().enumerate() {
                    flash[at as usize + i] &= *d;
                }
            }
            _ => {}
        }
    }
}

#[test]
fn writeback_leaves_the_flash_as_it_was() {
    let mut flash = vec![0x17; FLASH_SIZE as usize];
    let (_, image) = Storage::format();
    write(&mut flash, &image);
    let before = flash.clone();
    let at = ADDR_OFFSET as usize;
    let dumped = packets(&flash[at..at + STORAGE_IMAGE_SIZE]);
    let mut rx = SysexRx::new(STORAGE_IMAGE_SIZE);
    let mut last = None;
    for p in dumped {
        last = receive_packet(&mut rx, p);
    }
    let r = handle_sysex(last.unwrap(), &rx.image);
    assert_eq!(
        r.job,
        SysexJob::Write {
            len: STORAGE_IMAGE_SIZE
        }
    );
    write(&mut flash, &rx.image);
    assert!(flash == before);
}

#[test]
fn transferred_bank_is_loaded() {
    let mut bank = get_default_presets();
    bank.reverse();
    let image = encode_bank(&bank);
    let mut rx = SysexRx::new(STORAGE_IMAGE_SIZE);
    for p in packets(&image) {
        receive_packet(&mut rx, p);
    }
    let mut flash = vec![0; FLASH_SIZE as usize];
    write(&mut flash, &rx.image);
    for (i, p) in bank.iter().enumerate() {
        let loaded = Storage::load_preset(&flash[ADDR_OFFSET as usize..], i);
        assert_eq!(loaded, Some(*p));
    }
}

#[test]
fn wrong_version_is_refused() {
    let (_, mut image) = Storage::format();
    image[4] = 1;
    let mut rx = SysexRx::new(STORAGE_IMAGE_SIZE);
    let mut last = None;
    for b in bytes_of(&packets(&image)) {
        last = rx.feed(b);
    }
    assert_eq!(handle_sysex(last.unwrap(), &rx.image), refused(ERR_BAD_MAGIC));
}

#[test]
fn wrong_length_is_refused() {
    for size in [0, 100, STORAGE_IMAGE_SIZE - 1, STORAGE_IMAGE_SIZE + 1] {
        let mut rx = SysexRx::new(STORAGE_IMAGE_SIZE);
        let mut last = None;
        for b in bytes_of(&packets(&vec![7; size])) {
            last = rx.feed(b);
        }
        let m = last.unwrap();
        assert_eq!(m.overflow, size > STORAGE_IMAGE_SIZE);
        assert_eq!(m.len, size.min(STORAGE_IMAGE_SIZE));
        assert_eq!(handle_sysex(m, &rx.image), refused(ERR_BAD_LENGTH));
    }
}

#[test]
fn half_a_byte_is_refused() {
    let mut rx = SysexRx::new(2);
    let mut last = None;
    for b in [0xF0, 0x7D, 0x01, 0x02, 1, 2, 3, 4, 5, 0xF7] {
        last = rx.feed(b);
    }
    assert_eq!(
        last,
        Some(SysexMessage {
            command: CMD_WRITE_REQ,
            len: 2,
            overflow: true
        })
    );
    assert_eq!(rx.image, vec![0x12, 0x34]);
    assert_eq!(handle_sysex(last.unwrap(), &rx.image), refused(ERR_BAD_LENGTH));
}

#[test]
fn dump_is_given_on_request() {
    let mut rx = SysexRx::new(STORAGE_IMAGE_SIZE);
    let mut last = None;
    for b in [0xF0, 0x7D, 0x01, 0x01, 0xF7] {
        last = rx.feed(b);
    }
    let m = last.unwrap();
    assert_eq!(m.command, CMD_DUMP_REQ);
    assert_eq!(
        handle_sysex(m, &rx.image),
        SysexResponse {
            job: SysexJob::Dump {
                len: STORAGE_IMAGE_SIZE
            },
            status: None,
            reload: false
        }
    );
    assert_eq!(
        handle_sysex(m, &[1, 2, 3]).job,
        SysexJob::Dump { len: 3 }
    );
}

#[test]
fn other_messages_are_passed_over() {
    let mut rx = SysexRx::new(4);
    // another manufacturer, another model, stray bytes
    for b in [0xF0, 0x7E, 0x01, 0x01, 0xF7, 0xF0, 0x7D, 0x02, 0x01, 0xF7, 1, 0xF7] {
        assert_eq!(rx.feed(b), None);
    }
    // an end byte that comes too early counts as part of the header
    for b in [0xF0, 0x7D, 0xF7, 0x01] {
        assert_eq!(rx.feed(b), None);
    }
    assert_eq!(rx.feed(0xF7), None);
    let unknown = SysexMessage {
        command: 9,
        len: 0,
        overflow: false,
    };
    assert_eq!(
        handle_sysex(unknown, &rx.image),
        SysexResponse {
            job: SysexJob::Nothing,
            status: None,
            reload: false
        }
    );
}
