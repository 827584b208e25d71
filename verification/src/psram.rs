//! The external memory: where its buffers lie, how it is tested, and how the two cores keep out of
//! each other's way around a flash write.

use vstd::prelude::*;

verus! {

/// Where the external memory is mapped.
pub const PSRAM_BASE: usize = 0x1100_0000;

/// The mapped memory.
#[derive(Clone, Copy, Debug, PartialEq, Eq, Structural)]
pub struct PsramRegion {
    base: usize,
    size: usize,
}

impl PsramRegion {
    pub closed spec fn spec_base(&self) -> usize {
        self.base
    }

    pub closed spec fn spec_size(&self) -> usize {
        self.size
    }

    /// The region of `size` bytes from `base` on.
    pub fn new(base: usize, size: usize) -> (region: Self)
        ensures
            region.spec_base() == base,
            region.spec_size() == size,
    {
        PsramRegion { base, size }
    }

    pub fn base(&self) -> (base: usize)
        ensures
            base == self.spec_base(),
    {
        self.base
    }

    pub fn size(&self) -> (size: usize)
        ensures
            size == self.spec_size(),
    {
        self.size
    }
}

/// What to do about the external memory after the flash was written.
#[derive(Clone, Copy, Debug, PartialEq, Eq, Structural)]
pub enum PsramStep {
    /// Leave the bus idle.
    Settle { millis: u32 },
    /// Set the memory up again from the start.
    Reinit,
}

/// The steps after a flash write. The memory misreads if it is used too soon, and a flash write
/// leaves its bus set up wrongly, so it takes an idle millisecond and then a full set-up.
pub fn after_flash_write() -> (steps: [PsramStep; 2])
    ensures
        steps@ == seq![PsramStep::Settle { millis: 1 }, PsramStep::Reinit],
{
    let steps = [PsramStep::Settle { millis: 1 }, PsramStep::Reinit];
    assert(steps@ =~= seq![PsramStep::Settle { millis: 1 }, PsramStep::Reinit]);
    steps
}

/// Hands out the region from its start on. Nothing is given back singly; all of it is given back
/// before the buffers are laid out anew.
pub struct PsramAlloc {
    pub base: usize,
    pub next: usize,
    pub end: usize,
}

impl PsramAlloc {
    pub open spec fn wf(&self) -> bool {
        &&& self.base <= self.next <= self.end
        &&& (self.next - self.base) % 4 == 0
    }

    /// `len` numbers of four bytes still fit.
    pub open spec fn fits(&self, len: int) -> bool {
        self.next + 4 * len <= self.end
    }

    /// Whether `len` numbers of four bytes still fit.
    pub fn has_room(&self, len: usize) -> (room: bool)
        requires
            self.wf(),
        ensures
            room == self.fits(len as int),
    {
        len <= (self.end - self.next) / 4
    }
}

/// Starts handing out `region`.
pub fn init_alloc(region: &PsramRegion) -> (alloc: PsramAlloc)
    requires
        region.spec_base() + region.spec_size() <= usize::MAX,
    ensures
        alloc.wf(),
        alloc.base == region.spec_base(),
        alloc.next == region.spec_base(),
        alloc.end == region.spec_base() + region.spec_size(),
{
    PsramAlloc { base: region.base(), next: region.base(), end: region.base() + region.size() }
}

/// Takes everything back.
pub fn reset_alloc(alloc: &mut PsramAlloc)
    requires
        old(alloc).wf(),
    ensures
        final(alloc).wf(),
        *final(alloc) == (PsramAlloc { next: old(alloc).base, ..*old(alloc) }),
{
    alloc.next = alloc.base;
}

/// Hands out `len` numbers of four bytes, set to zero: the address of the first. The bytes up to
/// the next free address are the caller's. `free` is the memory from the next free address on.
pub fn alloc_f32_slice(alloc: &mut PsramAlloc, free: &mut [u32], len: usize) -> (start: usize)
    requires
        old(alloc).wf(),
        old(alloc).next != 0,
        old(alloc).fits(len as int),
        len <= old(free)@.len(),
    ensures
        final(alloc).wf(),
        start == old(alloc).next,
        old(alloc).base <= start,
        start + 4 * len <= old(alloc).end,
        old(alloc).base % 4 == 0 ==> start % 4 == 0,
        final(free)@ == Seq::new(len as nat, |i: int| 0u32) + old(free)@.skip(len as int),
        *final(alloc) == (PsramAlloc {
            next: (old(alloc).next + 4 * len) as usize,
            ..*old(alloc)
        }),
        final(alloc).next == bumped(old(alloc).next as int, len as nat),
{
    let mut i: usize = 0;
    while i < len
        invariant
            i <= len <= free@.len(),
            free@.len() == old(free)@.len(),
            forall|j: int| 0 <= j < i ==> free@[j] == 0,
            forall|j: int| i <= j < free@.len() ==> free@[j] == old(free)@[j],
        decreases len - i,
    {
        free[i] = 0;
        i += 1;
    }
    assert(free@ =~= Seq::new(len as nat, |j: int| 0u32) + old(free)@.skip(len as int));
    let start: usize = alloc.next;
    alloc.next = start + 4 * len;
    start
}

/// The next free address after `len` numbers were handed out from `next` on.
pub open spec fn bumped(next: int, len: nat) -> int {
    next + 4 * len
}

/// The allocator after handing out buffers of the given lengths.
pub open spec fn next_after(base: int, lens: Seq<nat>) -> int
    decreases lens.len(),
{
    if lens.len() == 0 {
        base
    } else {
        bumped(next_after(base, lens.drop_last()), lens.last())
    }
}

/// Buffers handed out since the allocator was last reset do not overlap, lie within the region and
/// are aligned if the region is.
pub proof fn buffers_are_apart(base: int, end: int, lens: Seq<nat>, i: int, j: int)
    requires
        0 <= i < j < lens.len(),
        next_after(base, lens) <= end,
    ensures
        base <= next_after(base, lens.take(i)),
        next_after(base, lens.take(i)) + 4 * lens[i] <= next_after(base, lens.take(j)),
        next_after(base, lens.take(j)) + 4 * lens[j] <= end,
        base % 4 == 0 ==> next_after(base, lens.take(i)) % 4 == 0,
{
    next_grows(base, lens, 0, i);
    assert(lens.take(0) =~= Seq::empty());
    next_grows(base, lens, i + 1, j);
    assert(lens.take(i + 1).drop_last() =~= lens.take(i));
    assert(lens.take(j + 1).drop_last() =~= lens.take(j));
    next_grows(base, lens, j + 1, lens.len() as int);
    assert(lens.take(lens.len() as int) =~= lens);
    next_is_aligned(base, lens.take(i));
}

proof fn next_grows(base: int, lens: Seq<nat>, i: int, j: int)
    requires
        0 <= i <= j <= lens.len(),
    ensures
        next_after(base, lens.take(i)) <= next_after(base, lens.take(j)),
    decreases j - i,
{
    if i < j {
        next_grows(base, lens, i, j - 1);
        assert(lens.take(j).drop_last() =~= lens.take(j - 1));
    }
}

proof fn next_is_aligned(base: int, lens: Seq<nat>)
    ensures
        base % 4 == 0 ==> next_after(base, lens) % 4 == 0,
    decreases lens.len(),
{
    if lens.len() > 0 {
        next_is_aligned(base, lens.drop_last());
    }
}

/// The cell of the region at which the buffers of the given lengths end.
pub open spec fn cells_used(lens: Seq<nat>) -> int {
    next_after(0, lens) / 4
}

/// The region's cells after a buffer of `len` numbers was handed out behind those of the given
/// lengths: what was free before it is zero at its front.
pub open spec fn cells_after(cells: Seq<u32>, lens: Seq<nat>, len: nat) -> Seq<u32> {
    let free = cells.skip(cells_used(lens));
    cells.take(cells_used(lens)) + (Seq::new(len, |i: int| 0u32) + free.skip(len as int))
}

/// A buffer that is handed out holds nothing but zeros, and what the buffers before it hold is
/// kept.
pub proof fn new_buffer_is_silent(cells: Seq<u32>, lens: Seq<nat>, len: nat)
    requires
        cells_used(lens) + len <= cells.len(),
    ensures
        cells_used(lens) >= 0,
        cells_used(lens.push(len)) == cells_used(lens) + len,
        cells_after(cells, lens, len).len() == cells.len(),
        forall|i: int|
            0 <= i < cells.len() ==> #[trigger] cells_after(cells, lens, len)[i] == if cells_used(
                lens,
            ) <= i < cells_used(lens) + len {
                0
            } else {
                cells[i]
            },
{
    next_is_aligned(0, lens);
    next_grows(0, lens, 0, lens.len() as int);
    assert(lens.take(0) =~= Seq::empty());
    assert(lens.take(lens.len() as int) =~= lens);
    assert(lens.push(len).drop_last() =~= lens);
}

/// The test word for place `word_index`, different for each of 2^32 places.
pub open spec fn test_word(word_index: int) -> u32 {
    ((word_index * 0x9E37_79B1) % 0x1_0000_0000) as u32 ^ 0x1111_1100u32
}

/// The test word for place `word_index`.
pub fn pattern(word_index: usize) -> (word: u32)
    ensures
        word == test_word(word_index as int),
{
    let place: u64 = (word_index as u64) % 0x1_0000_0000;
    proof {
        assert(place * 0x9E37_79B1 <= 0xFFFF_FFFF * 0x9E37_79B1) by (nonlinear_arith)
            requires
                place <= 0xFFFF_FFFF,
        ;
        vstd::arithmetic::div_mod::lemma_mul_mod_noop_left(
            word_index as int,
            0x9E37_79B1,
            0x1_0000_0000,
        );
    }
    let product: u64 = place * 0x9E37_79B1;
    (product % 0x1_0000_0000) as u32 ^ 0x1111_1100
}

/// No two places share a test word, so that a line that is stuck or a place that shows up twice
/// makes the test fail.
pub proof fn test_words_differ(i: int, j: int)
    requires
        0 <= i <= u32::MAX,
        0 <= j <= u32::MAX,
        test_word(i) == test_word(j),
    ensures
        i == j,
{
    let m = 0x1_0000_0000int;
    let x = ((i * 0x9E37_79B1) % m) as u32;
    let y = ((j * 0x9E37_79B1) % m) as u32;
    assert(x ^ 0x1111_1100u32 == y ^ 0x1111_1100u32 ==> x == y) by (bit_vector);
    product_undone(i);
    product_undone(j);
}

/// The inverse of the test words' factor modulo 2^32: their product is `1 + QUOTIENT * 2^32`.
const INVERSE: u64 = 0x0E8B_2F51;

const QUOTIENT: u64 = 150_801_925;

/// Multiplying by the inverse of the factor gives the place back.
proof fn product_undone(i: int)
    requires
        0 <= i <= u32::MAX,
    ensures
        (((i * 0x9E37_79B1) % 0x1_0000_0000) * INVERSE) % 0x1_0000_0000 == i,
{
    let m = 0x1_0000_0000int;
    let p = i * 0x9E37_79B1;
    vstd::arithmetic::div_mod::lemma_mul_mod_noop_left(p, INVERSE as int, m);
    assert(p * INVERSE == i + (i * QUOTIENT) * m) by (nonlinear_arith)
        requires
            p == i * 0x9E37_79B1,
            0x9E37_79B1 * INVERSE == 1 + QUOTIENT * m,
    ;
    vstd::arithmetic::div_mod::lemma_mod_multiples_vanish(i * QUOTIENT, i, m);
    assert(m * (i * QUOTIENT) == (i * QUOTIENT) * m) by (nonlinear_arith);
    vstd::arithmetic::div_mod::lemma_small_mod(i as nat, m as nat);
}

/// `result` is what the test says of `words`, read back from place `from` on.
pub open spec fn is_test_result(words: Seq<u32>, from: int, result: Result<(), usize>) -> bool {
    match result {
        Ok(()) => forall|i: int|
            0 <= i < words.len() ==> #[trigger] words[i] == test_word(from + i),
        Err(offset) => exists|i: int|
            0 <= i < words.len() && offset == 4 * (from + i) && #[trigger] words[i] != test_word(
                from + i,
            ) && forall|j: int| 0 <= j < i ==> #[trigger] words[j] == test_word(from + j),
    }
}

/// Holds words that were read back from place `from` on against the test words. Gives the byte
/// offset of the first that differs.
pub fn self_test(words: &[u32], from: usize) -> (result: Result<(), usize>)
    requires
        4 * (from + words@.len()) <= usize::MAX,
    ensures
        is_test_result(words@, from as int, result),
        match result {
            Ok(()) => forall|i: int|
                0 <= i < words@.len() ==> #[trigger] words@[i] == test_word(from + i),
            Err(offset) => exists|i: int|
                0 <= i < words@.len() && offset == 4 * (from + i) && #[trigger] words@[i]
                    != test_word(from + i) && forall|j: int|
                    0 <= j < i ==> #[trigger] words@[j] == test_word(from + j),
        },
{
    let total: usize = words.len();
    let mut i: usize = 0;
    while i < total
        invariant
            i <= total,
            total == words@.len(),
            4 * (from + total) <= usize::MAX,
            forall|j: int| 0 <= j < i ==> #[trigger] words@[j] == test_word(from + j),
        decreases total - i,
    {
        if words[i] != pattern(from + i) {
            return Err(4 * (from + i));
        }
        i += 1;
    }
    Ok(())
}

/// Whole bytes per microsecond.
pub open spec fn rate_of(bytes: int, micros: int) -> int {
    if micros == 0 {
        0
    } else {
        bytes / micros
    }
}

/// Bytes per microsecond, which is megabytes per second; zero if no time has passed.
pub fn mb_per_s(bytes: usize, micros: u64) -> (rate: u64)
    ensures
        micros == 0 ==> rate == 0,
        micros != 0 ==> rate == bytes as int / micros as int,
        rate == rate_of(bytes as int, micros as int),
{
    if micros == 0 {
        0
    } else {
        bytes as u64 / micros
    }
}

/// Nanoseconds per read, for `reads` reads in `micros` microseconds.
pub fn ns_per_read(micros: u64, reads: u64) -> (ns: u64)
    requires
        micros * 1000 <= u64::MAX,
        reads > 0,
    ensures
        ns == micros * 1000 / (reads as int),
{
    micros * 1000 / reads
}

/// The place that the random read test visits after `idx`: below `mask + 1`, a power of two.
pub fn next_random_index(idx: u32, mask: u32) -> (next: u32)
    ensures
        next == ((idx * 2_654_435_761 + 1) % 0x1_0000_0000) as u32 & mask,
        next <= mask,
{
    assert(idx * 2_654_435_761 <= 0xFFFF_FFFF * 2_654_435_761) by (nonlinear_arith)
        requires
            idx <= 0xFFFF_FFFF,
    ;
    let mixed: u32 = (((idx as u64) * 2_654_435_761 + 1) % 0x1_0000_0000) as u32;
    assert(mixed & mask <= mask) by (bit_vector);
    mixed & mask
}

/// The flags that the two cores share around a flash write.
#[derive(Clone, Copy, Debug, PartialEq, Eq, Structural)]
pub struct Gate {
    /// Set by core 0 while it wants the memory left alone.
    pub request: bool,
    /// Set by core 1 while it leaves the memory alone.
    pub ack: bool,
    /// Set by core 1 once its loop runs.
    pub running: bool,
}

/// Where core 0 is around a flash write.
#[derive(Clone, Copy, Debug, PartialEq, Eq, Structural)]
pub enum Core0Phase {
    Idle,
    /// It has asked and waits for the answer.
    Locking,
    /// It writes the flash and sets the memory up again.
    Writing,
}

/// Where core 1 is in its loop.
#[derive(Clone, Copy, Debug, PartialEq, Eq, Structural)]
pub enum Core1Phase {
    /// Its loop does not run yet.
    Starting,
    /// At the top of its loop.
    Checking,
    /// It waits until it may go on.
    Parked,
    /// It may go on and has not taken its answer back yet.
    Leaving,
    /// It generates sound, for which it uses the memory.
    Sounding,
}

/// One step of core 0: it asks before a write, waits for the answer unless core 1 does not run,
/// and takes its request back after the write.
pub fn core0_step(gate: &mut Gate, phase: Core0Phase) -> (next: Core0Phase)
    ensures
        core0_next(*old(gate), phase) == (*final(gate), next),
{
    match phase {
        Core0Phase::Idle => {
            gate.request = true;
            Core0Phase::Locking
        },
        Core0Phase::Locking => {
            if !gate.running || gate.ack {
                Core0Phase::Writing
            } else {
                Core0Phase::Locking
            }
        },
        Core0Phase::Writing => {
            gate.request = false;
            Core0Phase::Idle
        },
    }
}

/// One step of core 1: it looks for a request before each block of sound, and if there is one
/// answers it and waits until it is taken back.
pub fn core1_step(gate: &mut Gate, phase: Core1Phase) -> (next: Core1Phase)
    ensures
        core1_next(*old(gate), phase) == (*final(gate), next),
{
    match phase {
        Core1Phase::Starting => {
            gate.running = true;
            Core1Phase::Checking
        },
        Core1Phase::Checking => {
            if gate.request {
                gate.ack = true;
                Core1Phase::Parked
            } else {
                Core1Phase::Sounding
            }
        },
        Core1Phase::Parked => {
            if gate.request {
                Core1Phase::Parked
            } else {
                Core1Phase::Leaving
            }
        },
        Core1Phase::Leaving => {
            gate.ack = false;
            Core1Phase::Checking
        },
        Core1Phase::Sounding => Core1Phase::Checking,
    }
}

pub open spec fn core0_next(gate: Gate, phase: Core0Phase) -> (Gate, Core0Phase) {
    match phase {
        Core0Phase::Idle => (Gate { request: true, ..gate }, Core0Phase::Locking),
        Core0Phase::Locking => (
            gate,
            if !gate.running || gate.ack {
                Core0Phase::Writing
            } else {
                Core0Phase::Locking
            },
        ),
        Core0Phase::Writing => (Gate { request: false, ..gate }, Core0Phase::Idle),
    }
}

pub open spec fn core1_next(gate: Gate, phase: Core1Phase) -> (Gate, Core1Phase) {
    match phase {
        Core1Phase::Starting => (Gate { running: true, ..gate }, Core1Phase::Checking),
        Core1Phase::Checking => if gate.request {
            (Gate { ack: true, ..gate }, Core1Phase::Parked)
        } else {
            (gate, Core1Phase::Sounding)
        },
        Core1Phase::Parked => (
            gate,
            if gate.request {
                Core1Phase::Parked
            } else {
                Core1Phase::Leaving
            },
        ),
        Core1Phase::Leaving => (Gate { ack: false, ..gate }, Core1Phase::Checking),
        Core1Phase::Sounding => (gate, Core1Phase::Checking),
    }
}

/// The shared flags and both cores.
#[derive(Clone, Copy, Debug, PartialEq, Eq, Structural)]
pub struct Cores {
    pub gate: Gate,
    pub core0: Core0Phase,
    pub core1: Core1Phase,
}

/// How the device starts.
pub open spec fn cores_at_start() -> Cores {
    Cores {
        gate: Gate { request: false, ack: false, running: false },
        core0: Core0Phase::Idle,
        core1: Core1Phase::Starting,
    }
}

/// One core takes a step: core 0 if `turn` is false, core 1 if it is true.
pub open spec fn cores_next(s: Cores, turn: bool) -> Cores {
    if turn {
        let (gate, core1) = core1_next(s.gate, s.core1);
        Cores { gate, core1, ..s }
    } else {
        let (gate, core0) = core0_next(s.gate, s.core0);
        Cores { gate, core0, ..s }
    }
}

/// The cores after steps in the order that `turns` gives.
pub open spec fn cores_after(turns: Seq<bool>) -> Cores
    decreases turns.len(),
{
    if turns.len() == 0 {
        cores_at_start()
    } else {
        cores_next(cores_after(turns.drop_last()), turns.last())
    }
}

pub open spec fn cores_wf(s: Cores) -> bool {
    &&& s.gate.request == !(s.core0 is Idle)
    &&& s.gate.ack == (s.core1 is Parked || s.core1 is Leaving)
    &&& s.gate.running == !(s.core1 is Starting)
    &&& s.core0 is Writing ==> !(s.core1 is Sounding)
}

/// However the two cores' steps fall, core 1 never uses the external memory for sound while core 0
/// writes the flash.
pub proof fn never_both(turns: Seq<bool>)
    ensures
        cores_wf(cores_after(turns)),
        !(cores_after(turns).core0 is Writing && cores_after(turns).core1 is Sounding),
    decreases turns.len(),
{
    if turns.len() > 0 {
        never_both(turns.drop_last());
    }
}

/// Core 0 is not kept waiting: from any state in which it waits, three steps of core 1 and one
/// of its own let it write.
pub proof fn lock_is_granted(s: Cores)
    requires
        cores_wf(s),
        s.core0 is Locking,
        !(s.core1 is Starting),
    ensures
        ({
            let a = cores_next(cores_next(cores_next(s, true), true), true);
            cores_next(a, false).core0 is Writing
        }),
{
}

/// The test passes a memory that gives back what was written everywhere, and no other; a place that
/// shows another place's word makes it fail there at the latest.
pub proof fn test_finds_faults(
    words: Seq<u32>,
    from: int,
    result: Result<(), usize>,
    i: int,
    j: int,
)
    requires
        0 <= from,
        from + words.len() <= u32::MAX,
        0 <= i < words.len(),
        0 <= j <= u32::MAX,
        j != from + i,
        is_test_result(words, from, result),
    ensures
        words[i] == test_word(j) ==> (result matches Err(offset) && 4 * from <= offset <= 4 * (from
            + i) && offset % 4 == 0),
        result is Ok <==> forall|k: int|
            0 <= k < words.len() ==> #[trigger] words[k] == test_word(from + k),
{
    if words[i] == test_word(j) {
        if test_word(j) == test_word(from + i) {
            test_words_differ(from + i, j);
        }
        if result is Err {
            let k = choose|k: int|
                0 <= k < words.len() && result->Err_0 == 4 * (from + k) && #[trigger] words[k]
                    != test_word(from + k) && forall|l: int|
                    0 <= l < k ==> #[trigger] words[l] == test_word(from + l);
            if k > i {
                assert(words[i] == test_word(from + i));
            }
        }
    }
}

/// The test words of the first two places.
pub proof fn test_words_start()
    ensures
        test_word(0) == 0x1111_1100,
        test_word(1) == 0x8F26_68B1,
{
    assert(0u32 ^ 0x1111_1100u32 == 0x1111_1100u32) by (bit_vector);
    assert(0x9E37_79B1u32 ^ 0x1111_1100u32 == 0x8F26_68B1u32) by (bit_vector);
}

/// What is read in `micros` microseconds at the given rate is at most what was read, and less than
/// one byte per microsecond short of it.
pub proof fn rate_is_rounded_down(bytes: int, micros: int)
    requires
        0 <= bytes,
        0 < micros,
    ensures
        rate_of(bytes, micros) * micros <= bytes,
        bytes < (rate_of(bytes, micros) + 1) * micros,
        rate_of(bytes, 0) == 0,
{
    vstd::arithmetic::div_mod::lemma_fundamental_div_mod(bytes, micros);
    vstd::arithmetic::div_mod::lemma_mod_bound(bytes, micros);
    let q = bytes / micros;
    assert(micros * q == q * micros) by (nonlinear_arith);
    assert((q + 1) * micros == q * micros + micros) by (nonlinear_arith);
}

/// A region of `4 * n` bytes has room for exactly `n` numbers, and after `k` were handed out for
/// exactly `n - k`.
pub proof fn room_shrinks_by_what_is_taken(a: PsramAlloc, b: PsramAlloc, n: int, k: nat, m: int)
    requires
        a.wf(),
        a.end - a.next == 4 * n,
        0 <= k <= n,
        b == (PsramAlloc { next: bumped(a.next as int, k) as usize, ..a }),
        0 <= m,
    ensures
        a.fits(m) <==> m <= n,
        b.wf(),
        b.fits(m) <==> m <= n - k,
{
}

/// Core 1 is not held up for good: once core 0 asks for nothing, at most three steps of core 1 let
/// it sound again. While core 1 does not run yet, core 0 does not wait for it.
pub proof fn core1_goes_on(s: Cores)
    requires
        cores_wf(s),
    ensures
        s.core0 is Idle ==> ({
            let a = cores_next(s, true);
            let b = cores_next(a, true);
            let c = cores_next(b, true);
            a.core1 is Sounding || b.core1 is Sounding || c.core1 is Sounding
        }),
        s.core0 is Locking && s.core1 is Starting ==> cores_next(s, false).core0 is Writing,
        s.core0 is Locking && s.core1 is Sounding ==> cores_next(s, false).core0 is Locking,
        s.core0 is Writing ==> cores_next(s, false).core0 is Idle,
        s.core1 is Parked && !(s.core0 is Idle) ==> cores_next(s, true).core1 is Parked,
{
}

/// Core 1 looks for a request before every single block: after a block it never goes straight to the
/// next one, and with a request it parks and answers. Each core changes its own flags alone: core 0
/// the request, core 1 its answer and that it runs.
pub proof fn cores_keep_to_their_part(s: Cores)
    ensures
        s.core1 is Sounding ==> cores_next(s, true).core1 is Checking,
        s.core1 is Checking && s.gate.request ==> cores_next(s, true).core1 is Parked && cores_next(
            s,
            true,
        ).gate.ack,
        s.core1 is Checking && !s.gate.request ==> cores_next(s, true).core1 is Sounding,
        cores_next(s, true).gate.request == s.gate.request,
        cores_next(s, true).core0 == s.core0,
        cores_next(s, false).gate.ack == s.gate.ack,
        cores_next(s, false).gate.running == s.gate.running,
        cores_next(s, false).core1 == s.core1,
        s.core0 is Idle ==> cores_next(s, false).gate.request && cores_next(s, false).core0
            is Locking,
{
}

} // verus!
