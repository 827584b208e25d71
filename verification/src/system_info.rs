//! Numbers for the report that the device prints when it starts.

use vstd::prelude::*;
use vstd::utf8::encode_utf8;

verus! {

/// Where the flash is mapped.
pub const FLASH_BASE: usize = 0x1000_0000;

/// The size of the preset bank's place in flash.
pub const PRESET_AREA: usize = 65_536;

/// The far end of core 0's stack.
pub const STACK_TOP: usize = 0x2008_0000;

pub open spec fn is_digit(b: u8) -> bool {
    48 <= b <= 57
}

/// The number that the digits among `bytes` make up; other bytes are passed over.
pub open spec fn digits_number(bytes: Seq<u8>) -> nat
    decreases bytes.len(),
{
    if bytes.len() == 0 {
        0
    } else {
        let front = digits_number(bytes.drop_last());
        if is_digit(bytes.last()) {
            front * 10 + (bytes.last() - 48) as nat
        } else {
            front
        }
    }
}

proof fn digits_number_grows(bytes: Seq<u8>, i: int)
    requires
        0 <= i <= bytes.len(),
    ensures
        digits_number(bytes.take(i)) <= digits_number(bytes),
    decreases bytes.len() - i,
{
    if i < bytes.len() {
        digits_number_grows(bytes, i + 1);
        assert(bytes.take(i + 1).drop_last() =~= bytes.take(i));
    } else {
        assert(bytes.take(i) =~= bytes);
    }
}

/// The number that the digits in `s` make up.
pub fn parse_int(s: &str) -> (n: usize)
    requires
        digits_number(encode_utf8(s@)) <= usize::MAX,
    ensures
        n == digits_number(encode_utf8(s@)),
{
    let bytes = s.as_bytes();
    let mut res: usize = 0;
    let mut i: usize = 0;
    assert(bytes@.take(0) =~= Seq::empty());
    while i < bytes.len()
        invariant
            i <= bytes@.len(),
            res == digits_number(bytes@.take(i as int)),
            digits_number(bytes@) <= usize::MAX,
        decreases bytes@.len() - i,
    {
        let b: u8 = bytes[i];
        proof {
            assert(bytes@.take(i + 1).drop_last() =~= bytes@.take(i as int));
            digits_number_grows(bytes@, i + 1);
        }
        if b >= 48 && b <= 57 {
            res = res * 10 + (b - 48) as usize;
        }
        i += 1;
    }
    assert(bytes@.take(i as int) =~= bytes@);
    res
}

/// What lies where in the flash. Sizes are in kilobytes.
#[derive(Clone, Copy, Debug, PartialEq, Eq, Structural)]
pub struct MemoryMap {
    pub program_kb: usize,
    pub program_end: usize,
    pub presets_kb: usize,
    pub presets_start: usize,
    pub presets_end: usize,
    pub used_kb: usize,
    pub flash_kb: usize,
}

/// The presets are the last 64 kilobytes of a flash of `flash_kb` kilobytes that starts at
/// 0x10000000, and what is used is the program and the presets.
pub open spec fn lies_in_order(map: MemoryMap, text_start: int, flash_kb: int) -> bool {
    &&& map.presets_end == 0x1000_0000 + 1024 * flash_kb
    &&& map.presets_end - map.presets_start == 0x1_0000
    &&& map.presets_kb == 64
    &&& map.used_kb == map.program_kb + map.presets_kb
    &&& map.flash_kb == flash_kb
    &&& map.program_end >= text_start
}

/// What lies where in the flash: the code, behind it the initial contents of the data that is kept
/// in RAM from `data_start_ram` to `data_end_ram`, and the presets at the end.
pub fn memory_map(
    text_start: usize,
    data_start_flash: usize,
    data_start_ram: usize,
    data_end_ram: usize,
    flash_kb: usize,
) -> (map: MemoryMap)
    requires
        text_start <= data_start_flash,
        data_start_ram <= data_end_ram,
        data_start_flash + (data_end_ram - data_start_ram) <= usize::MAX,
        (data_start_flash - text_start) + (data_end_ram - data_start_ram) + PRESET_AREA
            <= usize::MAX,
        FLASH_BASE + flash_kb * 1024 <= usize::MAX,
    ensures
        map == (MemoryMap {
            program_kb: ((data_start_flash - text_start + data_end_ram - data_start_ram) / 1024)
                as usize,
            program_end: (data_start_flash + data_end_ram - data_start_ram) as usize,
            presets_kb: 64,
            presets_start: (FLASH_BASE + flash_kb * 1024 - PRESET_AREA) as usize,
            presets_end: (FLASH_BASE + flash_kb * 1024) as usize,
            used_kb: ((data_start_flash - text_start + data_end_ram - data_start_ram + PRESET_AREA)
                / 1024) as usize,
            flash_kb,
        }),
        lies_in_order(map, text_start as int, flash_kb as int),
        1024 * map.program_kb <= (data_start_flash - text_start) + (data_end_ram - data_start_ram)
            < 1024 * map.program_kb + 1024,
        map.program_end - data_start_flash == data_end_ram - data_start_ram,
{
    let code_size: usize = data_start_flash - text_start;
    let data_size: usize = data_end_ram - data_start_ram;
    let program_size: usize = code_size + data_size;
    let flash_size: usize = flash_kb * 1024;
    MemoryMap {
        program_kb: program_size / 1024,
        program_end: data_start_flash + data_size,
        presets_kb: PRESET_AREA / 1024,
        presets_start: FLASH_BASE + flash_size - PRESET_AREA,
        presets_end: FLASH_BASE + flash_size,
        used_kb: (program_size + PRESET_AREA) / 1024,
        flash_kb: flash_size / 1024,
    }
}

/// How many bytes of core 0's stack are in use when the stack pointer is `sp`.
pub fn core0_stack_used(sp: usize) -> (used: usize)
    requires
        sp <= STACK_TOP,
    ensures
        used == STACK_TOP - sp,
{
    STACK_TOP - sp
}

/// A digit behind a number multiplies it by ten and adds itself; any other byte leaves it.
pub proof fn digits_are_decimal(bytes: Seq<u8>, b: u8)
    ensures
        digits_number(Seq::empty()) == 0,
        0x30 <= b <= 0x39 ==> digits_number(bytes.push(b)) == 10 * digits_number(bytes) + (b
            - 0x30),
        b < 0x30 || b > 0x39 ==> digits_number(bytes.push(b)) == digits_number(bytes),
{
    assert(bytes.push(b).drop_last() =~= bytes);
}

} // verus!
