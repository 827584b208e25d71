//! Blocks of sound on their way out: to the converter, to the USB host, and through the
//! bookkeeping in between. Samples are 16-bit integers here.

use vstd::prelude::*;

verus! {

/// Frames per second.
pub const SAMPLE_RATE: u64 = 48_000;

/// Samples per block: two for each frame.
pub const BLOCK_SIZE: usize = 256;

pub const BLOCK_FRAMES: usize = 128;

/// How long a block may take, in microseconds: as long as it sounds.
pub const MAX_BLOCK_US: u64 = 2666;

/// Frames per USB packet: one millisecond.
pub const FRAMES_PER_PACKET: usize = 48;

/// Bytes per USB packet.
pub const PACKET_SIZE: usize = 192;

pub const HEAP_SIZE: usize = 256_000;

pub const CORE1_STACK_SIZE: usize = 16_384;

/// What unused stack is filled with.
pub const STACK_FILL: u8 = 0x55;

/// `x` as an unsigned 16-bit number with the same bits.
pub open spec fn bits16(x: i16) -> int {
    if x < 0 {
        x + 0x1_0000
    } else {
        x as int
    }
}

fn to_bits16(x: i16) -> (bits: u16)
    ensures
        bits == bits16(x),
{
    if x < 0 {
        (x as i32 + 0x1_0000) as u16
    } else {
        x as u16
    }
}

/// A frame as the converter takes it: the left sample in the upper half, the right in the lower.
pub open spec fn frame_word(left: i16, right: i16) -> u32 {
    (0x1_0000 * bits16(left) + bits16(right)) as u32
}

/// A frame as the converter takes it.
pub fn i2s_frame(left: i16, right: i16) -> (word: u32)
    ensures
        word == frame_word(left, right),
{
    (to_bits16(left) as u32) * 0x1_0000 + to_bits16(right) as u32
}

/// Different frames have different words.
pub proof fn frame_words_differ(l1: i16, r1: i16, l2: i16, r2: i16)
    requires
        frame_word(l1, r1) == frame_word(l2, r2),
    ensures
        l1 == l2,
        r1 == r2,
{
}

/// `frames` with the frames of `samples` in front, as many as both hold.
pub open spec fn packed(samples: Seq<i16>, frames: Seq<u32>) -> Seq<u32> {
    Seq::new(
        frames.len(),
        |k: int|
            if 2 * k + 1 < samples.len() {
                frame_word(samples[2 * k], samples[2 * k + 1])
            } else {
                frames[k]
            },
    )
}

/// Every frame has its left sample, the first of two, in the upper half of the word and its right
/// sample in the lower half, each as its sixteen bits; what the samples do not reach is kept.
pub proof fn frames_hold_their_samples(samples: Seq<i16>, frames: Seq<u32>, k: int)
    requires
        0 <= k < frames.len(),
    ensures
        packed(samples, frames).len() == frames.len(),
        2 * k + 1 < samples.len() ==> packed(samples, frames)[k] / 0x1_0000 == (samples[2 * k]
            as int) % 0x1_0000,
        2 * k + 1 < samples.len() ==> packed(samples, frames)[k] % 0x1_0000 == (samples[2 * k
            + 1] as int) % 0x1_0000,
        2 * k + 1 >= samples.len() ==> packed(samples, frames)[k] == frames[k],
{
}

/// Puts the frames of `samples` into `frames`, as many as both hold.
pub fn pack_frames(samples: &[i16], frames: &mut [u32])
    ensures
        final(frames)@.len() == old(frames)@.len(),
        forall|k: int|
            0 <= k < old(frames)@.len() ==> #[trigger] final(frames)@[k] == if 2 * k + 1
                < samples@.len() {
                frame_word(samples@[2 * k], samples@[2 * k + 1])
            } else {
                old(frames)@[k]
            },
        final(frames)@ == packed(samples@, old(frames)@),
{
    let mut k: usize = 0;
    let total: usize = samples.len();
    let count: usize = total / 2;
    while k < frames.len() && k < count
        invariant
            k <= frames@.len(),
            k <= count,
            total == samples@.len(),
            count == total / 2,
            frames@.len() == old(frames)@.len(),
            forall|j: int|
                0 <= j < k ==> #[trigger] frames@[j] == frame_word(
                    samples@[2 * j],
                    samples@[2 * j + 1],
                ),
            forall|j: int| k <= j < frames@.len() ==> #[trigger] frames@[j] == old(frames)@[j],
        decreases count - k,
    {
        frames[k] = i2s_frame(samples[2 * k], samples[2 * k + 1]);
        k += 1;
    }
}

/// How full the queue of blocks was.
#[derive(Clone, Copy, Debug, PartialEq, Eq, Structural)]
pub struct QueueStats {
    /// The fewest blocks that were waiting, or the largest number if none was counted.
    pub min: u32,
    /// How often no block was waiting, which is heard as a gap.
    pub underruns: u32,
}

/// The smaller of two numbers.
pub open spec fn smaller(a: u32, b: u32) -> u32 {
    if a < b {
        a
    } else {
        b
    }
}

/// The statistics after one more look at the queue.
pub open spec fn observed(stats: QueueStats, fill: u32) -> QueueStats {
    QueueStats {
        min: smaller(stats.min, fill),
        underruns: if fill == 0 {
            ((stats.underruns + 1) % 0x1_0000_0000) as u32
        } else {
            stats.underruns
        },
    }
}

/// The statistics after looking at the queue when it had each of the given lengths.
pub open spec fn observed_all(fills: Seq<u32>) -> QueueStats
    decreases fills.len(),
{
    if fills.len() == 0 {
        QueueStats { min: u32::MAX, underruns: 0 }
    } else {
        observed(observed_all(fills.drop_last()), fills.last())
    }
}

/// What is reported of the statistics: the gaps, and the fewest waiting blocks.
pub open spec fn reported(stats: QueueStats) -> (u32, u32) {
    (
        stats.underruns,
        if stats.min == u32::MAX {
            0
        } else {
            stats.min
        },
    )
}

/// How often zero is among `fills`.
pub open spec fn zeros_in(fills: Seq<u32>) -> nat {
    fills.filter(|f: u32| f == 0).len()
}

/// The report counts each time the queue was empty, and gives the least length that it had; zero if
/// nobody looked. A queue is never as long as the largest number.
pub proof fn queue_is_reported(fills: Seq<u32>)
    requires
        fills.len() < 0x1_0000_0000,
        forall|i: int| 0 <= i < fills.len() ==> #[trigger] fills[i] < u32::MAX,
    ensures
        reported(observed_all(fills)).0 == zeros_in(fills),
        fills.len() == 0 ==> reported(observed_all(fills)).1 == 0,
        forall|i: int|
            0 <= i < fills.len() ==> reported(observed_all(fills)).1 <= #[trigger] fills[i],
        fills.len() > 0 ==> fills.contains(reported(observed_all(fills)).1),
    decreases fills.len(),
{
    reveal(Seq::filter);
    if fills.len() > 0 {
        let front = fills.drop_last();
        let n = fills.len() - 1;
        queue_is_reported(front);
        zeros_are_few(front);
        let stats = observed_all(fills);
        assert(fills[n] == fills.last());
        assert forall|i: int| 0 <= i < fills.len() implies reported(stats).1
            <= #[trigger] fills[i] by {
            if i < n {
                assert(front[i] == fills[i]);
            }
        }
        if stats.min != fills.last() {
            let i = choose|i: int|
                0 <= i < front.len() && front[i] == reported(observed_all(front)).1;
            assert(fills[i] == reported(stats).1);
        }
    }
}

proof fn zeros_are_few(fills: Seq<u32>)
    ensures
        zeros_in(fills) <= fills.len(),
    decreases fills.len(),
{
    reveal(Seq::filter);
    if fills.len() > 0 {
        zeros_are_few(fills.drop_last());
    }
}

impl QueueStats {
    pub fn new() -> (stats: Self)
        ensures
            stats == (QueueStats { min: u32::MAX, underruns: 0 }),
    {
        QueueStats { min: u32::MAX, underruns: 0 }
    }

    /// Counts that `fill` blocks are waiting.
    pub fn observe(&mut self, fill: u32)
        ensures
            final(self).min == smaller(old(self).min, fill),
            final(self).underruns == if fill == 0 {
                (old(self).underruns + 1) % 0x1_0000_0000
            } else {
                old(self).underruns as int
            },
            *final(self) == observed(*old(self), fill),
    {
        if fill < self.min {
            self.min = fill;
        }
        if fill == 0 {
            self.underruns = if self.underruns == u32::MAX {
                0
            } else {
                self.underruns + 1
            };
        }
    }

    /// The underruns and the fewest waiting blocks since the last call; zero blocks if none was
    /// counted.
    pub fn report(&mut self) -> (seen: (u32, u32))
        ensures
            seen.0 == old(self).underruns,
            seen.1 == if old(self).min == u32::MAX {
                0
            } else {
                old(self).min
            },
            *final(self) == (QueueStats { min: u32::MAX, underruns: 0 }),
            seen == reported(*old(self)),
    {
        let underruns: u32 = self.underruns;
        let min: u32 = if self.min == u32::MAX {
            0
        } else {
            self.min
        };
        self.min = u32::MAX;
        self.underruns = 0;
        (underruns, min)
    }
}

/// Counts blocks and keeps the longest time that one took.
#[derive(Clone, Copy, Debug, PartialEq, Eq, Structural)]
pub struct BlockClock {
    pub frame_index: u64,
    pub peak_us: u64,
}

/// A report is due with the block at `frame_index`: the first in each second.
pub open spec fn report_due(frame_index: u64) -> bool {
    frame_index % SAMPLE_RATE < BLOCK_FRAMES
}

/// The larger of two numbers.
pub open spec fn larger(a: u64, b: u64) -> u64 {
    if a > b {
        a
    } else {
        b
    }
}

/// The clock after a block, and the report that it gives.
pub open spec fn block_done(clock: BlockClock, duration_us: u64) -> (BlockClock, Option<u64>) {
    let peak = larger(duration_us, clock.peak_us);
    let due = report_due(clock.frame_index);
    (
        BlockClock {
            frame_index: ((clock.frame_index + BLOCK_FRAMES) % 0x1_0000_0000_0000_0000) as u64,
            peak_us: if due {
                0
            } else {
                peak
            },
        },
        if due {
            Some(peak)
        } else {
            None
        },
    )
}

/// The clock after blocks that took the given times.
pub open spec fn clock_after(durations: Seq<u64>) -> BlockClock
    decreases durations.len(),
{
    if durations.len() == 0 {
        BlockClock { frame_index: 0, peak_us: 0 }
    } else {
        block_done(clock_after(durations.drop_last()), durations.last()).0
    }
}

/// Each block counts 128 frames. The clock keeps the longest time since the last report, which came
/// with block `last`, a multiple of 375: all later blocks took at most that, and one took exactly
/// that.
pub proof fn clock_keeps_the_peak(durations: Seq<u64>)
    requires
        durations.len() * 128 <= u64::MAX,
    ensures
        ({
            let n = durations.len() as int;
            let clock = clock_after(durations);
            let last = (n - 1) / 375 * 375;
            &&& clock.frame_index == 128 * n
            &&& n > 0 ==> forall|i: int| last < i < n ==> #[trigger] durations[i] <= clock.peak_us
            &&& clock.peak_us == 0 || exists|i: int|
                last < i < n && #[trigger] durations[i] == clock.peak_us
        }),
    decreases durations.len(),
{
    let n = durations.len() as int;
    if n > 0 {
        let front = durations.drop_last();
        clock_keeps_the_peak(front);
        one_report_per_second(front.len());
        let clock = clock_after(durations);
        let before = clock_after(front);
        let last = (n - 1) / 375 * 375;
        assert(durations[n - 1] == durations.last());
        if (n - 1) % 375 == 0 {
            assert(last == n - 1);
        } else {
            assert((n - 2) / 375 == (n - 1) / 375);
            assert forall|i: int| last < i < n implies #[trigger] durations[i] <= clock.peak_us by {
                if i < n - 1 {
                    assert(front[i] == durations[i]);
                }
            }
            if clock.peak_us != durations.last() && clock.peak_us != 0 {
                let i = choose|i: int|
                    last < i < n - 1 && #[trigger] front[i] == before.peak_us;
                assert(durations[i] == clock.peak_us);
            }
        }
    }
}

/// A report gives the longest time of the blocks since the report before it, its own included, and
/// comes with every 375th block.
pub proof fn report_gives_the_peak(durations: Seq<u64>, duration_us: u64)
    requires
        durations.len() * 128 <= u64::MAX,
    ensures
        ({
            let n = durations.len() as int;
            let report = block_done(clock_after(durations), duration_us).1;
            &&& report is Some <==> n % 375 == 0
            &&& report matches Some(peak) ==> peak >= duration_us && (forall|i: int|
                n - 375 < i < n && i >= 0 ==> #[trigger] durations[i] <= peak)
            &&& report matches Some(peak) ==> peak == duration_us || exists|i: int|
                n - 375 < i < n && #[trigger] durations[i] == peak
        }),
{
    let n = durations.len() as int;
    clock_keeps_the_peak(durations);
    one_report_per_second(durations.len());
    if n % 375 == 0 && n > 0 {
        assert((n - 1) / 375 * 375 == n - 375);
    }
    let clock = clock_after(durations);
    let report = block_done(clock, duration_us).1;
    if report is Some && report->Some_0 != duration_us {
        let i = choose|i: int|
            (n - 1) / 375 * 375 < i < n && #[trigger] durations[i] == clock.peak_us;
        assert(durations[i] == report->Some_0);
    }
}

impl BlockClock {
    pub fn new() -> (clock: Self)
        ensures
            clock == (BlockClock { frame_index: 0, peak_us: 0 }),
    {
        BlockClock { frame_index: 0, peak_us: 0 }
    }

    /// Counts a block that took `duration_us`. Gives the longest time since the last report if a
    /// report is due.
    pub fn finish_block(&mut self, duration_us: u64) -> (report: Option<u64>)
        ensures
            ({
                let peak = if duration_us > old(self).peak_us {
                    duration_us
                } else {
                    old(self).peak_us
                };
                &&& report == if report_due(old(self).frame_index) {
                    Some(peak)
                } else {
                    None
                }
                &&& final(self).peak_us == if report_due(old(self).frame_index) {
                    0
                } else {
                    peak
                }
            }),
            final(self).frame_index == (old(self).frame_index + BLOCK_FRAMES)
                % 0x1_0000_0000_0000_0000,
            (*final(self), report) == block_done(*old(self), duration_us),
    {
        if duration_us > self.peak_us {
            self.peak_us = duration_us;
        }
        let mut report: Option<u64> = None;
        if self.frame_index % SAMPLE_RATE < BLOCK_FRAMES as u64 {
            report = Some(self.peak_us);
            self.peak_us = 0;
        }
        self.frame_index = self.frame_index.wrapping_add(BLOCK_FRAMES as u64);
        report
    }
}

/// There is one report per second: with every 375th block, the first one included.
pub proof fn one_report_per_second(block: nat)
    requires
        block * 128 <= u64::MAX,
    ensures
        report_due((block * 128) as u64) <==> block % 375 == 0,
{
    let frames = block * 128;
    assert(block == 375 * (block / 375) + block % 375);
    assert(frames == 48_000 * (block / 375) + 128 * (block % 375));
    assert(frames % 48_000 == 128 * (block % 375)) by {
        vstd::arithmetic::div_mod::lemma_fundamental_div_mod_converse(
            frames as int,
            48_000,
            (block / 375) as int,
            (128 * (block % 375)) as int,
        );
    }
}

/// The two bytes of a sample, least significant first.
pub open spec fn sample_bytes(x: i16) -> Seq<u8> {
    seq![(bits16(x) % 0x100) as u8, (bits16(x) / 0x100) as u8]
}

/// The bytes of `samples`, one sample after the other.
pub open spec fn samples_bytes(samples: Seq<i16>) -> Seq<u8>
    decreases samples.len(),
{
    if samples.len() == 0 {
        Seq::empty()
    } else {
        sample_bytes(samples[0]) + samples_bytes(samples.skip(1))
    }
}

/// Cuts blocks of sound into USB packets.
pub struct MicStream {
    pub block: [i16; 256],
    /// The next sample of the block.
    pub idx: usize,
    pub packet: [u8; 192],
    /// How many bytes of the packet are filled.
    pub filled: usize,
}

impl MicStream {
    pub open spec fn wf(&self) -> bool {
        &&& self.idx <= BLOCK_SIZE
        &&& self.idx % 2 == 0
        &&& self.filled <= PACKET_SIZE
        &&& self.filled % 4 == 0
    }

    /// The filled part of the packet.
    pub open spec fn collected(&self) -> Seq<u8> {
        self.packet@.take(self.filled as int)
    }

    /// The samples of the block that are in no packet yet.
    pub open spec fn rest(&self) -> Seq<i16> {
        self.block@.skip(self.idx as int)
    }

    /// The bytes that are still to be sent.
    pub open spec fn pending(&self) -> Seq<u8> {
        self.collected() + samples_bytes(self.rest())
    }

    pub fn new() -> (stream: Self)
        ensures
            stream.wf(),
            stream.filled == 0,
            stream.idx == BLOCK_SIZE,
            stream.pending() == Seq::<u8>::empty(),
    {
        let stream = MicStream {
            block: [0; 256],
            idx: BLOCK_SIZE,
            packet: [0; 192],
            filled: 0,
        };
        assert(stream.rest() =~= Seq::empty());
        assert(stream.pending() =~= Seq::empty());
        stream
    }

    /// Takes the next block, once the last one is used up.
    pub fn give_block(&mut self, block: [i16; 256])
        requires
            old(self).wf(),
            old(self).idx == BLOCK_SIZE,
        ensures
            final(self).wf(),
            final(self).idx == 0,
            final(self).filled == old(self).filled,
            final(self).pending() == old(self).pending() + samples_bytes(block@),
    {
        assert(self.rest() =~= Seq::empty());
        self.block = block;
        self.idx = 0;
        assert(self.rest() =~= block@);
        assert(self.pending() =~= old(self).pending() + samples_bytes(block@));
    }

    /// Moves frames from the block into the packet until the packet is full or the block is used
    /// up. Says whether the packet is full.
    pub fn fill(&mut self) -> (full: bool)
        requires
            old(self).wf(),
        ensures
            final(self).wf(),
            final(self).pending() == old(self).pending(),
            full == (final(self).filled == PACKET_SIZE),
            !full ==> final(self).idx == BLOCK_SIZE,
    {
        while self.filled < PACKET_SIZE && self.idx < BLOCK_SIZE
            invariant
                self.wf(),
                self.pending() == old(self).pending(),
            decreases BLOCK_SIZE - self.idx,
        {
            let l: u16 = to_bits16(self.block[self.idx]);
            let r: u16 = to_bits16(self.block[self.idx + 1]);
            let ghost collected = self.collected();
            let ghost rest = self.rest();
            self.packet[self.filled] = (l % 0x100) as u8;
            self.packet[self.filled + 1] = (l / 0x100) as u8;
            self.packet[self.filled + 2] = (r % 0x100) as u8;
            self.packet[self.filled + 3] = (r / 0x100) as u8;
            self.filled += 4;
            self.idx += 2;
            proof {
                assert(rest.skip(1).skip(1) =~= self.rest());
                assert(rest.skip(1)[0] == rest[1]);
                assert(samples_bytes(rest.skip(1)) == sample_bytes(rest[1]) + samples_bytes(
                    self.rest(),
                ));
                assert(samples_bytes(rest) == sample_bytes(rest[0]) + (sample_bytes(rest[1])
                    + samples_bytes(self.rest())));
                assert(self.collected() =~= collected + sample_bytes(rest[0]) + sample_bytes(
                    rest[1],
                ));
                assert(self.pending() =~= collected + samples_bytes(rest));
            }
        }
        self.filled == PACKET_SIZE
    }

    /// The full packet; the next one starts empty.
    pub fn take_packet(&mut self) -> (packet: [u8; 192])
        requires
            old(self).wf(),
            old(self).filled == PACKET_SIZE,
        ensures
            final(self).wf(),
            final(self).idx == old(self).idx,
            final(self).filled == 0,
            old(self).pending() == packet@ + final(self).pending(),
    {
        let packet = self.packet;
        self.filled = 0;
        assert(old(self).pending() =~= packet@ + self.pending());
        packet
    }

    /// Drops what is left, because the host does not listen.
    pub fn restart(&mut self)
        ensures
            final(self).wf(),
            final(self).filled == 0,
            final(self).idx == BLOCK_SIZE,
            final(self).pending() == Seq::<u8>::empty(),
    {
        self.idx = BLOCK_SIZE;
        self.filled = 0;
        assert(self.rest() =~= Seq::empty());
        assert(self.pending() =~= Seq::empty());
    }
}

/// How many bytes of a stack, from its far end on, were never used.
pub open spec fn unused_bytes(stack: Seq<u8>) -> nat
    decreases stack.len(),
{
    if stack.len() == 0 || stack[0] != STACK_FILL {
        0
    } else {
        1 + unused_bytes(stack.skip(1))
    }
}

/// How many bytes of a stack were used at some time.
pub fn stack_used(stack: &[u8]) -> (used: usize)
    ensures
        used == stack@.len() - unused_bytes(stack@),
{
    let mut unused: usize = 0;
    assert(stack@.skip(0) =~= stack@);
    while unused < stack.len() && stack[unused] == STACK_FILL
        invariant
            unused <= stack@.len(),
            unused_bytes(stack@) == unused + unused_bytes(stack@.skip(unused as int)),
        decreases stack@.len() - unused,
    {
        assert(stack@.skip(unused as int).skip(1) =~= stack@.skip(unused + 1));
        unused += 1;
    }
    stack.len() - unused
}

/// The floating-point control word with very small numbers taken as zero and invalid results as
/// the standard one; nothing else changes.
pub fn without_denormals(fpscr: u32) -> (word: u32)
    ensures
        word == fpscr | 0x0300_0000,
        word & 0x0300_0000 == 0x0300_0000,
        word & 0xFCFF_FFFF == fpscr & 0xFCFF_FFFF,
{
    assert((fpscr | 0x0300_0000) & 0x0300_0000 == 0x0300_0000) by (bit_vector);
    assert((fpscr | 0x0300_0000) & 0xFCFF_FFFF == fpscr & 0xFCFF_FFFF) by (bit_vector);
    fpscr | 0x0300_0000
}

/// The bytes of samples are two for each, the lower eight bits first, in the order of the samples.
pub proof fn sample_bytes_in_order(samples: Seq<i16>, i: int)
    requires
        0 <= i < samples.len(),
    ensures
        samples_bytes(samples).len() == 2 * samples.len(),
        samples_bytes(samples)[2 * i] + 0x100 * samples_bytes(samples)[2 * i + 1] == (samples[i]
            as int) % 0x1_0000,
    decreases samples.len(),
{
    let rest = samples.skip(1);
    let bytes = samples_bytes(samples);
    if rest.len() > 0 {
        sample_bytes_in_order(
            rest,
            if i > 0 {
                i - 1
            } else {
                0
            },
        );
    } else {
        assert(samples_bytes(rest).len() == 0);
    }
    if i > 0 {
        assert(bytes[2 * i] == samples_bytes(rest)[2 * (i - 1)]);
        assert(bytes[2 * i + 1] == samples_bytes(rest)[2 * (i - 1) + 1]);
        assert(rest[i - 1] == samples[i]);
    }
}

/// The unused part of a stack is the longest front that still holds what it was filled with.
pub proof fn unused_is_the_filled_front(stack: Seq<u8>)
    ensures
        unused_bytes(stack) <= stack.len(),
        forall|i: int| 0 <= i < unused_bytes(stack) ==> #[trigger] stack[i] == 0x55,
        unused_bytes(stack) < stack.len() ==> stack[unused_bytes(stack) as int] != 0x55,
    decreases stack.len(),
{
    if stack.len() > 0 && stack[0] == 0x55 {
        let rest = stack.skip(1);
        unused_is_the_filled_front(rest);
        assert forall|i: int| 0 <= i < unused_bytes(stack) implies #[trigger] stack[i] == 0x55 by {
            if i > 0 {
                assert(rest[i - 1] == stack[i]);
            }
        }
        if unused_bytes(stack) < stack.len() {
            assert(rest[unused_bytes(rest) as int] == stack[unused_bytes(stack) as int]);
        }
    }
}

} // verus!
