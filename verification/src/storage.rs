//! The preset bank in flash: its layout, how it is read and how it is replaced.
//!
//! The bank lies in the last 64 KiB of the flash: a header of four words, then the presets one
//! after the other. Nothing here touches the flash; the functions say what to read and which
//! steps to take, and make sense of the bytes that were read.

use crate::bytes::{le32, le32_bytes, push_le32, read_le32, word_of_its_bytes};
use crate::factory::{factory_rows, get_default_presets};
use crate::presets::{is_row, preset_bytes, Preset, PRESET_SIZE};
use crate::psram::{after_flash_write, PsramStep};
use vstd::array::array_as_slice;
use vstd::prelude::*;

verus! {

/// "PDSP"
pub const MAGIC: u32 = 0x5044_5350;

/// Changes with the factory bank and with the layout, so that a device that holds an older bank
/// is formatted anew when it starts.
pub const VERSION: u32 = 9;

pub const FLASH_SIZE: u32 = 2_097_152;

pub const STORAGE_SIZE: u32 = 65_536;

/// Where the bank starts.
pub const ADDR_OFFSET: u32 = 2_031_616;

/// Flash is erased in sectors of this size.
pub const SECTOR_SIZE: u32 = 4096;

pub const HEADER_SIZE: u32 = 16;

/// A program change selects one of 128 presets, so a larger bank could not be reached.
pub const MAX_PRESETS: usize = 128;

/// The size of a full bank in whole sectors.
pub const STORAGE_IMAGE_SIZE: usize = 28_672;

/// The least multiple of the sector size that is at least `n`.
pub open spec fn whole_sectors(n: int) -> int {
    (n + SECTOR_SIZE - 1) / (SECTOR_SIZE as int) * SECTOR_SIZE
}

/// Rounds `n` up to whole sectors.
pub fn sectors_ceil(n: u32) -> (rounded: u32)
    requires
        n <= 0xFFFF_F000,
    ensures
        rounded == whole_sectors(n as int),
        rounded % SECTOR_SIZE == 0,
        n <= rounded < n + SECTOR_SIZE,
{
    let part: u32 = n % SECTOR_SIZE;
    if part == 0 {
        n
    } else {
        n - part + SECTOR_SIZE
    }
}

/// What the bank's first four words say.
#[derive(Clone, Copy, Debug, PartialEq, Eq, Structural)]
pub struct StorageHeader {
    pub magic: u32,
    pub version: u32,
    pub num_presets: u32,
    pub padding: u32,
}

/// The header that `bytes` start with.
pub open spec fn header_of(bytes: Seq<u8>) -> StorageHeader {
    StorageHeader {
        magic: le32(bytes, 0),
        version: le32(bytes, 4),
        num_presets: le32(bytes, 8),
        padding: le32(bytes, 12),
    }
}

/// The bank was written by a device of the same version.
pub open spec fn is_current(bytes: Seq<u8>) -> bool {
    header_of(bytes).magic == MAGIC && header_of(bytes).version == VERSION
}

pub open spec fn header_bytes(h: StorageHeader) -> Seq<u8> {
    le32_bytes(h.magic) + le32_bytes(h.version) + le32_bytes(h.num_presets) + le32_bytes(h.padding)
}

/// The header of a bank of `n` presets.
pub open spec fn header_for(n: int) -> StorageHeader {
    StorageHeader { magic: MAGIC, version: VERSION, num_presets: n as u32, padding: 0 }
}

/// Where preset `index` starts within the bank.
pub open spec fn record_start(index: int) -> int {
    HEADER_SIZE + index * PRESET_SIZE
}

/// The image of preset `index` within the bank.
pub open spec fn record(bank: Seq<u8>, index: int) -> Seq<u8> {
    bank.subrange(record_start(index), record_start(index + 1))
}

/// The image of preset `index`, if the bank says that it holds it.
pub open spec fn loaded_record(bank: Seq<u8>, index: int) -> Option<Seq<u8>> {
    if index < header_of(bank).num_presets {
        Some(record(bank, index))
    } else {
        None
    }
}

/// The images of `presets`, one after the other.
pub open spec fn presets_bytes(presets: Seq<Preset>) -> Seq<u8> {
    Seq::new(
        presets.len() * PRESET_SIZE as nat,
        |i: int| preset_bytes(presets[i / (PRESET_SIZE as int)])[i % (PRESET_SIZE as int)],
    )
}

/// A bank of `presets` as it lies in flash, filled up with zeros to whole sectors.
pub open spec fn bank_image(presets: Seq<Preset>) -> Seq<u8> {
    let used = header_bytes(header_for(presets.len() as int)) + presets_bytes(presets);
    used + Seq::new((whole_sectors(used.len() as int) - used.len()) as nat, |i: int| 0u8)
}

/// `presets` is the factory bank.
pub open spec fn is_factory_bank(presets: Seq<Preset>) -> bool {
    &&& presets.len() == 128
    &&& forall|i: int| 0 <= i < 128 ==> is_row(#[trigger] presets[i], factory_rows()[i])
}

/// One step of replacing the bank.
#[derive(Clone, Copy, Debug, PartialEq, Eq, Structural)]
pub enum FlashStep {
    /// Keep the other core off the memory that shares the bus with the flash.
    LockCore1,
    /// Erase the bytes from the first address up to the second.
    Erase { from: u32, to: u32 },
    /// Program the new bank from this address on.
    Write { at: u32 },
    /// Bring the external memory back.
    Psram { step: PsramStep },
    /// Let the other core go on.
    UnlockCore1,
}

/// What `step` makes of the flash. An erased byte has all bits set, and programming can only
/// clear bits.
pub open spec fn flash_after_step(flash: Seq<u8>, step: FlashStep, data: Seq<u8>) -> Seq<u8> {
    match step {
        FlashStep::Erase { from, to } => Seq::new(
            flash.len(),
            |i: int|
                if from <= i < to {
                    0xFFu8
                } else {
                    flash[i]
                },
        ),
        FlashStep::Write { at } => Seq::new(
            flash.len(),
            |i: int|
                if at <= i < at + data.len() {
                    flash[i] & data[i - at]
                } else {
                    flash[i]
                },
        ),
        _ => flash,
    }
}

/// What `steps` make of the flash, taken in order.
pub open spec fn flash_after(flash: Seq<u8>, steps: Seq<FlashStep>, data: Seq<u8>) -> Seq<u8>
    decreases steps.len(),
{
    if steps.len() == 0 {
        flash
    } else {
        flash_after_step(flash_after(flash, steps.drop_last(), data), steps.last(), data)
    }
}

/// The steps that put `len` bytes in the bank's place: the other core is locked out for all of
/// them, and the external memory is set up again after an idle millisecond.
pub open spec fn write_steps(len: int) -> Seq<FlashStep> {
    seq![
        FlashStep::LockCore1,
        FlashStep::Erase { from: ADDR_OFFSET, to: (ADDR_OFFSET + whole_sectors(len)) as u32 },
        FlashStep::Write { at: ADDR_OFFSET },
        FlashStep::Psram { step: PsramStep::Settle { millis: 1 } },
        FlashStep::Psram { step: PsramStep::Reinit },
        FlashStep::UnlockCore1,
    ]
}

/// How many bytes a raw read of `len` bytes takes from the bank's start.
pub open spec fn raw_length(len: int) -> int {
    if len < STORAGE_SIZE {
        len
    } else {
        STORAGE_SIZE as int
    }
}

/// The bank's place in flash.
pub struct Storage;

impl Storage {
    /// The bank must be formatted before use, going by its first bytes.
    pub fn init(bytes: &[u8]) -> (needs_format: bool)
        requires
            bytes@.len() >= HEADER_SIZE,
        ensures
            needs_format == !is_current(bytes@),
    {
        read_le32(bytes, 0) != MAGIC || read_le32(bytes, 4) != VERSION
    }

    /// The factory bank's image and the steps that put it in place.
    pub fn format() -> (job: ([FlashStep; 6], Vec<u8>))
        ensures
            job.0@ == write_steps(STORAGE_IMAGE_SIZE as int),
            job.1@.len() == STORAGE_IMAGE_SIZE,
            exists|bank: Seq<Preset>|
                is_factory_bank(bank) && job.1@ == #[trigger] bank_image(bank),
    {
        let defaults = get_default_presets();
        let image = encode_bank(array_as_slice(&defaults));
        assert(is_factory_bank(defaults@));
        let steps = Self::write_raw(image.len());
        (steps, image)
    }

    /// How many presets the bank holds, going by its first bytes.
    pub fn num_presets(bytes: &[u8]) -> (n: usize)
        requires
            bytes@.len() >= HEADER_SIZE,
        ensures
            n == header_of(bytes@).num_presets,
    {
        read_le32(bytes, 8) as usize
    }

    /// The flash address of preset `index`, if the bank that starts with `bytes` holds it. An
    /// index that a program change or the pedal can select always lies within the flash.
    pub fn preset_address(bytes: &[u8], index: usize) -> (at: Option<u32>)
        requires
            bytes@.len() >= HEADER_SIZE,
            index < header_of(bytes@).num_presets ==> record_start(index + 1) <= STORAGE_SIZE,
        ensures
            at is Some <==> index < header_of(bytes@).num_presets,
            at matches Some(a) ==> a == ADDR_OFFSET + record_start(index as int),
            at is Some <==> loaded_record(bytes@, index as int) is Some,
    {
        if index >= Self::num_presets(bytes) {
            None
        } else {
            Some(ADDR_OFFSET + HEADER_SIZE + (index as u32) * (PRESET_SIZE as u32))
        }
    }

    /// Preset `index` of the bank that `bank` starts with, if the bank holds it.
    pub fn load_preset(bank: &[u8], index: usize) -> (preset: Option<Preset>)
        requires
            bank@.len() >= HEADER_SIZE,
            index < header_of(bank@).num_presets ==> record_start(index + 1) <= bank@.len(),
        ensures
            preset is Some <==> index < header_of(bank@).num_presets,
            preset matches Some(p) ==> preset_bytes(p) == record(bank@, index as int),
            match loaded_record(bank@, index as int) {
                Some(image) => preset matches Some(p) && preset_bytes(p) == image,
                None => preset is None,
            },
    {
        if index >= Self::num_presets(bank) {
            return None;
        }
        let total: usize = bank.len();
        assert(record_start(index + 1) <= total);
        assert(index * PRESET_SIZE <= total) by (nonlinear_arith)
            requires
                16 + (index + 1) * 200 <= total,
                PRESET_SIZE == 200,
        ;
        let start: usize = HEADER_SIZE as usize + index * PRESET_SIZE;
        let bytes = vstd::slice::slice_subrange(bank, start, start + PRESET_SIZE);
        let preset = Preset::decode(bytes);
        assert(bytes@.take(PRESET_SIZE as int) =~= record(bank@, index as int));
        Some(preset)
    }

    /// How many bytes a raw read into a buffer of `len` bytes takes from the bank's start.
    pub fn read_raw(len: usize) -> (n: usize)
        ensures
            n == if len < STORAGE_SIZE {
                len as int
            } else {
                STORAGE_SIZE as int
            },
            n == raw_length(len as int),
    {
        if len < STORAGE_SIZE as usize {
            len
        } else {
            STORAGE_SIZE as usize
        }
    }

    /// The steps that put `len` bytes in the bank's place.
    pub fn write_raw(len: usize) -> (steps: [FlashStep; 6])
        requires
            len <= STORAGE_SIZE,
        ensures
            steps@ == write_steps(len as int),
    {
        let erase_len: u32 = sectors_ceil(len as u32);
        let recovery = after_flash_write();
        let steps = [
            FlashStep::LockCore1,
            FlashStep::Erase { from: ADDR_OFFSET, to: ADDR_OFFSET + erase_len },
            FlashStep::Write { at: ADDR_OFFSET },
            FlashStep::Psram { step: recovery[0] },
            FlashStep::Psram { step: recovery[1] },
            FlashStep::UnlockCore1,
        ];
        assert(steps@ =~= write_steps(len as int));
        steps
    }
}

/// The image of a bank that holds `presets`.
pub fn encode_bank(presets: &[Preset]) -> (image: Vec<u8>)
    requires
        presets@.len() <= MAX_PRESETS,
    ensures
        image@ == bank_image(presets@),
        image@.len() == whole_sectors(record_start(presets@.len() as int)),
{
    let n: usize = presets.len();
    let mut image: Vec<u8> = Vec::new();
    push_le32(&mut image, MAGIC);
    push_le32(&mut image, VERSION);
    push_le32(&mut image, n as u32);
    push_le32(&mut image, 0);
    let ghost header = header_bytes(header_for(n as int));
    assert(image@ =~= header);
    let mut i: usize = 0;
    while i < n
        invariant
            i <= n,
            n == presets@.len(),
            n <= MAX_PRESETS,
            image@ == header + presets_bytes(presets@.take(i as int)),
        decreases n - i,
    {
        presets[i].encode(&mut image);
        proof {
            presets_bytes_push(presets@.take(i as int), presets@[i as int]);
            assert(presets@.take(i as int).push(presets@[i as int]) =~= presets@.take(i + 1));
        }
        i += 1;
    }
    assert(presets@.take(n as int) =~= presets@);
    let ghost used = image@;
    assert(used.len() == record_start(n as int));
    let total: usize = sectors_ceil(HEADER_SIZE + (n as u32) * (PRESET_SIZE as u32)) as usize;
    while image.len() < total
        invariant
            used.len() <= image@.len() <= total,
            image@ == used + Seq::new((image@.len() - used.len()) as nat, |j: int| 0u8),
        decreases total - image@.len(),
    {
        image.push(0);
    }
    assert(image@ =~= bank_image(presets@));
    image
}

proof fn presets_bytes_push(presets: Seq<Preset>, p: Preset)
    ensures
        presets_bytes(presets.push(p)) == presets_bytes(presets) + preset_bytes(p),
{
    let all = presets.push(p);
    let n = presets.len() as int;
    assert(preset_bytes(p).len() == PRESET_SIZE);
    assert forall|i: int| 0 <= i < 200 * n + 200 implies #[trigger] presets_bytes(all)[i] == (
    presets_bytes(presets) + preset_bytes(p))[i] by {
        if i < 200 * n {
            assert(i / 200 < n);
        } else {
            assert(i / 200 == n && i % 200 == i - 200 * n);
        }
    }
    assert(presets_bytes(all) =~= presets_bytes(presets) + preset_bytes(p));
}

/// A bank that was encoded is current, says how many presets it holds, and holds the image of
/// each preset in its place.
pub proof fn bank_is_read_back(presets: Seq<Preset>)
    requires
        presets.len() <= MAX_PRESETS,
    ensures
        is_current(bank_image(presets)),
        header_of(bank_image(presets)) == header_for(presets.len() as int),
        bank_image(presets).len() <= STORAGE_IMAGE_SIZE,
        forall|i: int|
            0 <= i < presets.len() ==> #[trigger] record(bank_image(presets), i) == preset_bytes(
                presets[i],
            ),
{
    let image = bank_image(presets);
    let h = header_for(presets.len() as int);
    let header = header_bytes(h);
    word_of_its_bytes(h.magic);
    word_of_its_bytes(h.version);
    word_of_its_bytes(h.num_presets);
    word_of_its_bytes(h.padding);
    assert(forall|k: int| 0 <= k < 16 ==> image[k] == header[k]);
    assert(le32(image, 0) == le32(le32_bytes(h.magic), 0));
    assert(le32(image, 4) == le32(le32_bytes(h.version), 0));
    assert(le32(image, 8) == le32(le32_bytes(h.num_presets), 0));
    assert(le32(image, 12) == le32(le32_bytes(h.padding), 0));
    assert forall|i: int| 0 <= i < presets.len() implies #[trigger] record(image, i)
        == preset_bytes(presets[i]) by {
        assert(preset_bytes(presets[i]).len() == PRESET_SIZE);
        assert forall|k: int| 0 <= k < 200 implies record(image, i)[k] == preset_bytes(
            presets[i],
        )[k] by {
            let j = 200 * i + k;
            assert(j / 200 == i && j % 200 == k);
            assert(0 <= j < 200 * presets.len());
            assert(image[16 + j] == presets_bytes(presets)[j]);
        }
        assert(record(image, i) =~= preset_bytes(presets[i]));
    }
}

/// A full bank fills the image that is dumped and written.
pub proof fn full_bank_size(presets: Seq<Preset>)
    requires
        presets.len() == MAX_PRESETS,
    ensures
        bank_image(presets).len() == STORAGE_IMAGE_SIZE,
{
}

/// After the steps of a write the bank's place holds the new bytes, and no byte outside the
/// erased sectors has changed, wherever the flash held what before.
pub proof fn write_replaces_the_bank(flash: Seq<u8>, data: Seq<u8>)
    requires
        flash.len() == FLASH_SIZE,
        data.len() <= STORAGE_SIZE,
    ensures
        ({
            let after = flash_after(flash, write_steps(data.len() as int), data);
            &&& after.len() == flash.len()
            &&& after.subrange(ADDR_OFFSET as int, ADDR_OFFSET + data.len()) == data
            &&& forall|i: int|
                0 <= i < flash.len() && !(ADDR_OFFSET <= i < ADDR_OFFSET + whole_sectors(
                    data.len() as int,
                )) ==> #[trigger] after[i] == flash[i]
        }),
{
    let steps = write_steps(data.len() as int);
    let s5 = steps.drop_last();
    let s4 = s5.drop_last();
    let s3 = s4.drop_last();
    let s2 = s3.drop_last();
    let s1 = s2.drop_last();
    let s0 = s1.drop_last();
    assert(s0 =~= Seq::empty());
    assert(flash_after(flash, s0, data) == flash);
    assert(flash_after(flash, s1, data) == flash);
    let erased = flash_after_step(flash, steps[1], data);
    assert(flash_after(flash, s2, data) == erased);
    let written = flash_after_step(erased, steps[2], data);
    assert(flash_after(flash, s3, data) == written);
    assert(flash_after(flash, s4, data) == written);
    assert(flash_after(flash, s5, data) == written);
    assert(flash_after(flash, steps, data) == written);
    assert forall|i: int| 0 <= i < data.len() implies written[ADDR_OFFSET + i] == data[i] by {
        let b = data[i];
        assert(0xFFu8 & b == b) by (bit_vector);
    }
    assert(written.subrange(ADDR_OFFSET as int, ADDR_OFFSET + data.len()) =~= data);
}

/// The flash is erased and programmed only while the other core is locked out, and the lock is
/// lifted only after an idle time and after the external memory was set up again.
pub proof fn write_is_locked(len: int)
    ensures
        ({
            let steps = write_steps(len);
            let last = steps.len() - 1;
            &&& steps[0] is LockCore1
            &&& steps[last - 2] == FlashStep::Psram { step: PsramStep::Settle { millis: 1 } }
            &&& steps[last - 1] == FlashStep::Psram { step: PsramStep::Reinit }
            &&& steps[last] is UnlockCore1
            &&& forall|i: int|
                0 <= i <= last && (#[trigger] steps[i] is Erase || steps[i] is Write) ==> 0 < i
                    < last - 2
            &&& forall|i: int|
                0 < i < last ==> !(#[trigger] steps[i] is LockCore1 || steps[i] is UnlockCore1)
        }),
{
}

/// Once a bank was written, the device needs no formatting, counts the presets of that bank, and
/// whatever preset is read from place `i` is the bank's preset `i`. Formatting writes the factory
/// bank, so this holds of it too.
pub proof fn write_then_load(flash: Seq<u8>, presets: Seq<Preset>, i: int, loaded: Preset)
    requires
        flash.len() == FLASH_SIZE,
        presets.len() <= MAX_PRESETS,
        0 <= i < presets.len(),
        ({
            let image = bank_image(presets);
            let after = flash_after(flash, write_steps(image.len() as int), image);
            preset_bytes(loaded) == record(after.skip(ADDR_OFFSET as int), i)
        }),
    ensures
        ({
            let image = bank_image(presets);
            let after = flash_after(flash, write_steps(image.len() as int), image);
            let bank = after.skip(ADDR_OFFSET as int);
            is_current(bank) && header_of(bank).num_presets == presets.len()
        }),
        loaded == presets[i],
{
    let image = bank_image(presets);
    bank_is_read_back(presets);
    write_replaces_the_bank(flash, image);
    let after = flash_after(flash, write_steps(image.len() as int), image);
    let bank = after.skip(ADDR_OFFSET as int);
    assert(bank.take(image.len() as int) =~= after.subrange(
        ADDR_OFFSET as int,
        ADDR_OFFSET + image.len(),
    ));
    front_is_the_bank(bank, image, i);
    crate::presets::preset_bytes_injective(loaded, presets[i]);
}

proof fn front_is_the_bank(bank: Seq<u8>, image: Seq<u8>, i: int)
    requires
        0 <= i,
        16 <= image.len() <= bank.len(),
        record_start(i + 1) <= image.len(),
        image == bank.take(image.len() as int),
    ensures
        header_of(bank) == header_of(image),
        record(bank, i) == record(image, i),
{
    assert(forall|k: int| 0 <= k < image.len() ==> bank[k] == image[k]);
    assert(record(bank, i) =~= record(image, i));
}

/// A bank is current exactly if it starts with the bytes 50 53 44 50 and then the version 9, least
/// significant byte first; nothing behind them matters.
pub proof fn current_banks_start_alike(bytes: Seq<u8>)
    requires
        bytes.len() >= 16,
    ensures
        is_current(bytes) <==> bytes.take(8) == seq![
            0x50u8,
            0x53u8,
            0x44u8,
            0x50u8,
            9u8,
            0u8,
            0u8,
            0u8,
        ],
{
    let front = bytes.take(8);
    let mark = seq![0x50u8, 0x53u8, 0x44u8, 0x50u8, 9u8, 0u8, 0u8, 0u8];
    assert(forall|i: int| 0 <= i < 8 ==> #[trigger] front[i] == bytes[i]);
    if front == mark {
        assert(bytes[0] == mark[0] && bytes[1] == mark[1] && bytes[2] == mark[2] && bytes[3]
            == mark[3]);
        assert(bytes[4] == mark[4] && bytes[5] == mark[5] && bytes[6] == mark[6] && bytes[7]
            == mark[7]);
    }
    if is_current(bytes) {
        assert(front =~= mark);
    }
}

/// A bank gives back each preset that was put into it, in its place, and none beyond them.
pub proof fn bank_gives_its_presets(presets: Seq<Preset>, i: int)
    requires
        presets.len() <= 128,
        0 <= i,
    ensures
        i < presets.len() ==> loaded_record(bank_image(presets), i) == Some(
            preset_bytes(presets[i]),
        ),
        i >= presets.len() ==> loaded_record(bank_image(presets), i) is None,
{
    bank_is_read_back(presets);
    if i < presets.len() {
        assert(record(bank_image(presets), i) == preset_bytes(presets[i]));
    }
}

/// The presets lie one behind the other, 200 bytes each, behind the 16 bytes in front of them; the
/// last of 128 ends within the sectors of a full bank, and these within the flash.
pub proof fn records_are_in_a_row(i: int)
    requires
        0 <= i < 128,
    ensures
        record_start(0) == 16,
        record_start(i + 1) == record_start(i) + 200,
        record_start(i) == 16 + 200 * i,
        record_start(128) <= 28_672,
        ADDR_OFFSET + 28_672 <= FLASH_SIZE,
        FLASH_SIZE == 0x20_0000,
        FLASH_SIZE - ADDR_OFFSET == 0x1_0000,
{
}

/// Whole sectors hold `n` bytes and waste less than one sector of 4096.
pub proof fn sectors_are_whole(n: int)
    requires
        0 <= n,
    ensures
        whole_sectors(n) % 4096 == 0,
        n <= whole_sectors(n) < n + 4096,
{
}

/// What is erased for a write starts where the bank starts, is whole sectors, and stays within the
/// last 64 KiB of the flash.
pub proof fn erase_stays_in_the_bank(len: int, from: u32, to: u32)
    requires
        0 <= len <= 0x1_0000,
        write_steps(len)[1] == (FlashStep::Erase { from, to }),
    ensures
        from == 0x1F_0000,
        from % 4096 == 0,
        to % 4096 == 0,
        from + len <= to <= 0x20_0000,
        write_steps(len)[2] == (FlashStep::Write { at: from }),
{
}

/// A raw read takes as much as is asked for, but never more than the bank's 64 KiB.
pub proof fn raw_reads_are_bounded(len: int)
    ensures
        raw_length(len) <= len,
        raw_length(len) <= 0x1_0000,
        raw_length(len) == len || raw_length(len) == 0x1_0000,
{
}

} // verus!
