use picodsp_ble::factory::get_default_presets;
use picodsp_ble::presets::Preset;
use picodsp_ble::psram::PsramStep;
use picodsp_ble::storage::{
    encode_bank, sectors_ceil, FlashStep, Storage, ADDR_OFFSET, FLASH_SIZE, MAGIC,
    STORAGE_IMAGE_SIZE, STORAGE_SIZE, VERSION,
};

fn run(flash: &mut [u8], steps: &[FlashStep], data: &[u8]) {
    for step in steps {
        match *step {
            FlashStep::Erase { from, to } => {
                assert_eq!(from % 4096, 0);
                assert_eq!(to % 4096, 0);
                for b in &mut flash[from as usize..to as usize] {
                    *b = 0xFF;
                }
            }
            FlashStep::Write { at } => {
                for (i, d) in data.iter().enumerate() {
                    flash[at as usize + i] &= *d;
                }
            }
            _ => {}
        }
    }
}

#[test]
fn sectors() {
    assert_eq!(sectors_ceil(0), 0);
    assert_eq!(sectors_ceil(1), 4096);
    assert_eq!(sectors_ceil(4096), 4096);
    assert_eq!(sectors_ceil(4097), 8192);
    assert_eq!(sectors_ceil(16 + 128 * 200), 28672);
    assert_eq!(STORAGE_IMAGE_SIZE, 28672);
    assert_eq!(ADDR_OFFSET + STORAGE_SIZE, FLASH_SIZE);
}

#[test]
fn header_of_a_formatted_bank() {
    let (_, image) = Storage::format();
    assert_eq!(image.len(), STORAGE_IMAGE_SIZE);
    assert_eq!(&image[0..4], &MAGIC.to_le_bytes());
    assert_eq!(&image[4..8], &VERSION.to_le_bytes());
    assert_eq!(&image[8..12], &128u32.to_le_bytes());
    assert_eq!(&image[12..16], &[0, 0, 0, 0]);
    assert!(image[16 + 128 * 200..].iter().all(|b| *b == 0));
    assert!(!Storage::init(&image));
    assert_eq!(Storage::num_presets(&image), 128);
}

#[test]
fn blank_or_old_flash_needs_formatting() {
    assert!(Storage::init(&[0xFF; 16]));
    let (_, mut image) = Storage::format();
    image[4] = 8;
    assert!(Storage::init(&image));
    image[4] = 9;
    image[0] = 0;
    assert!(Storage::init(&image));
}

#[test]
fn formatted_presets_are_loaded() {
    let (steps, image) = Storage::format();
    let mut flash = vec![0x5A; FLASH_SIZE as usize];
    run(&mut flash, &steps, &image);
    let bank = &flash[ADDR_OFFSET as usize..];
    let factory = get_default_presets();
    for i in 0..128 {
        assert_eq!(Storage::load_preset(bank, i), Some(factory[i]));
        let at = Storage::preset_address(bank, i).unwrap() as usize;
        assert_eq!(Preset::decode(&flash[at..at + 200]), factory[i]);
    }
    assert_eq!(Storage::load_preset(bank, 128), None);
    assert_eq!(Storage::preset_address(bank, 128), None);
    assert_eq!(Storage::preset_address(bank, 0), Some(ADDR_OFFSET + 16));
    assert!(flash[..ADDR_OFFSET as usize].iter().all(|b| *b == 0x5A));
    assert!(flash[ADDR_OFFSET as usize + 28672..].iter().all(|b| *b == 0x5A));
}

#[test]
fn writes_are_locked_and_followed_by_recovery() {
    let steps = Storage::write_raw(5000);
    assert_eq!(
        steps,
        [
            FlashStep::LockCore1,
            FlashStep::Erase {
                from: ADDR_OFFSET,
                to: ADDR_OFFSET + 8192
            },
            FlashStep::Write { at: ADDR_OFFSET },
            FlashStep::Psram {
                step: PsramStep::Settle { millis: 1 }
            },
            FlashStep::Psram {
                step: PsramStep::Reinit
            },
            FlashStep::UnlockCore1,
        ]
    );
}

#[test]
fn write_changes_only_its_sectors() {
    let data: Vec<u8> = (0..5000u32).map(|i| (i % 256) as u8).collect();
    let mut flash = vec![0x33; FLASH_SIZE as usize];
    run(&mut flash, &Storage::write_raw(data.len()), &data);
    let at = ADDR_OFFSET as usize;
    assert_eq!(flash[at..at + 5000], data[..]);
    assert!(flash[..at].iter().all(|b| *b == 0x33));
    assert!(flash[at + 8192..].iter().all(|b| *b == 0x33));
}

#[test]
fn small_bank() {
    let presets = [Preset::default(), get_default_presets()[7]];
    let image = encode_bank(&presets);
    assert_eq!(image.len(), 4096);
    assert_eq!(Storage::num_presets(&image), 2);
    assert_eq!(Storage::load_preset(&image, 1), Some(presets[1]));
    assert_eq!(Storage::load_preset(&image, 2), None);
}

#[test]
fn raw_reads_end_with_the_bank() {
    assert_eq!(Storage::read_raw(100), 100);
    assert_eq!(Storage::read_raw(65_536), 65_536);
    assert_eq!(Storage::read_raw(1_000_000), 65_536);
}
